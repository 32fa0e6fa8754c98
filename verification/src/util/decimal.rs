//! The decimal numbers of `rust_decimal`, seen through their parts: a signed
//! mantissa of at most 96 bits and a scale (the number of fractional digits).

use rust_decimal::{Decimal, RoundingStrategy};
use std::str::FromStr;
use vstd::prelude::*;

use crate::util::text::{decimal_digits, digit_char, lemma_digit_char};

verus! {

/// The largest scale a `Decimal` can have.
pub const MAX_SCALE: u32 = 28;

/// The largest magnitude of a `Decimal` mantissa: `2^96 - 1`.
pub open spec fn max_mantissa() -> int {
    0xffff_ffff_ffff_ffff_ffff_ffffint
}

/// `10^e`.
pub open spec fn pow10(e: nat) -> int
    decreases e,
{
    if e == 0 {
        1
    } else {
        10 * pow10((e - 1) as nat)
    }
}

/// A decimal number `mantissa / 10^scale`, as `rust_decimal` stores it.
#[derive(Clone, Copy, Debug)]
pub struct DecimalParts {
    pub mantissa: i128,
    pub scale: u32,
}

impl DecimalParts {
    /// The parts describe a representable `Decimal`.
    pub open spec fn wf(self) -> bool {
        &&& self.scale <= MAX_SCALE
        &&& -max_mantissa() <= self.mantissa <= max_mantissa()
    }
}

/// Integer division that rounds toward zero.
pub open spec fn div_toward_zero(a: int, b: int) -> int {
    if a >= 0 {
        a / b
    } else {
        -((-a) / b)
    }
}

/// `round_dp_with_strategy(dp, ToZero)`: drops the fractional digits beyond `dp`.
pub open spec fn round_toward_zero(m: int, s: nat, dp: nat) -> (int, nat) {
    if s <= dp {
        (m, s)
    } else {
        (div_toward_zero(m, pow10((s - dp) as nat)), dp)
    }
}

/// `rescale(target)` from a smaller scale: one digit at a time while the
/// mantissa still fits in 96 bits.
pub open spec fn rescale_up(m: int, s: nat, target: nat) -> (int, nat)
    decreases target - s,
{
    if s >= target {
        (m, s)
    } else if m * 10 > max_mantissa() || m * 10 < -max_mantissa() {
        (m, s)
    } else {
        rescale_up(m * 10, s + 1, target)
    }
}

/// Drops trailing zero digits of the fraction.
pub open spec fn strip_trailing_zeros(m: int, s: nat) -> (int, nat)
    decreases s,
{
    if s > 0 && m % 10 == 0 {
        strip_trailing_zeros(m / 10, (s - 1) as nat)
    } else {
        (m, s)
    }
}

/// `normalize`: zero becomes `0` at scale 0; otherwise trailing zeros are dropped.
pub open spec fn normalized(m: int, s: nat) -> (int, nat) {
    if m == 0 {
        (0, 0)
    } else {
        strip_trailing_zeros(m, s)
    }
}

/// The digits of a magnitude: empty for zero.
pub open spec fn magnitude_digits(n: nat) -> Seq<char> {
    if n == 0 {
        Seq::empty()
    } else {
        decimal_digits(n)
    }
}

/// `count` zero characters.
pub open spec fn zeros(count: nat) -> Seq<char> {
    Seq::new(count, |i: int| '0')
}

/// `ds` padded on the left with zeros up to `width` characters.
pub open spec fn pad_left(ds: Seq<char>, width: nat) -> Seq<char> {
    if ds.len() >= width {
        ds
    } else {
        zeros((width - ds.len()) as nat) + ds
    }
}

/// Text of a sign, integer digits and fractional digits: `-12.34`, `5`, `0.5`.
pub open spec fn decimal_notation(negative: bool, int_digits: Seq<char>, frac_digits: Seq<char>) -> Seq<char> {
    let body = if frac_digits.len() == 0 {
        int_digits
    } else {
        int_digits + seq!['.'] + frac_digits
    };
    if negative {
        seq!['-'] + body
    } else {
        body
    }
}

/// How `Decimal` displays `m / 10^s`.
pub open spec fn decimal_text(m: int, s: nat) -> Seq<char> {
    let mag = if m < 0 { -m } else { m };
    let ds = pad_left(magnitude_digits(mag as nat), s);
    let whole = (ds.len() - s) as nat;
    let int_digits = if whole == 0 { seq!['0'] } else { ds.take(whole as int) };
    decimal_notation(m < 0, int_digits, ds.skip(whole as int))
}

/// A decimal digit character.
pub open spec fn is_digit(c: char) -> bool {
    '0' <= c <= '9'
}

/// Every character is a decimal digit.
pub open spec fn all_digits(ds: Seq<char>) -> bool {
    forall|i: int| 0 <= i < ds.len() ==> is_digit(#[trigger] ds[i])
}

/// The number that a string of decimal digits denotes.
pub open spec fn digits_value(ds: Seq<char>) -> int
    decreases ds.len(),
{
    if ds.len() == 0 {
        0
    } else {
        digits_value(ds.drop_last()) * 10 + (ds.last() as int - '0' as int)
    }
}

/// Powers of ten are positive.
pub proof fn lemma_pow10_positive(e: nat)
    ensures
        pow10(e) >= 1,
    decreases e,
{
    if e > 0 {
        lemma_pow10_positive((e - 1) as nat);
    }
}

/// Cutting fractional digits keeps a mantissa within its bounds and leaves at
/// most `dp` fractional digits.
pub proof fn lemma_round_keeps_bounds(m: int, s: nat, dp: nat)
    ensures
        ({
            let (m1, s1) = round_toward_zero(m, s, dp);
            &&& -(if m < 0 { -m } else { m }) <= m1 <= (if m < 0 { -m } else { m })
            &&& s1 <= dp
            &&& s1 <= s
        }),
{
    if s > dp {
        let k = pow10((s - dp) as nat);
        lemma_pow10_positive((s - dp) as nat);
        if m >= 0 {
            assert(0 <= m / k <= m) by (nonlinear_arith)
                requires
                    m >= 0,
                    k >= 1,
            ;
        } else {
            assert(0 <= (-m) / k <= -m) by (nonlinear_arith)
                requires
                    -m >= 0,
                    k >= 1,
            ;
        }
    }
}

/// Dropping trailing zeros keeps a mantissa within its bounds, keeps its sign
/// and lowers the scale.
pub proof fn lemma_strip_keeps_bounds(m: int, s: nat)
    ensures
        ({
            let (m1, s1) = strip_trailing_zeros(m, s);
            &&& -(if m < 0 { -m } else { m }) <= m1 <= (if m < 0 { -m } else { m })
            &&& (m < 0 <==> m1 < 0)
            &&& s1 <= s
        }),
    decreases s,
{
    if s > 0 && m % 10 == 0 {
        assert(m >= 0 ==> 0 <= m / 10 <= m);
        assert(m < 0 ==> m <= m / 10 < 0);
        lemma_strip_keeps_bounds(m / 10, (s - 1) as nat);
    }
}

/// The decimal notation of `n` is made of digits and spells `n`; below
/// `10^k` it has at most `k` digits.
pub proof fn lemma_decimal_digits(n: nat, k: nat)
    ensures
        all_digits(decimal_digits(n)),
        digits_value(decimal_digits(n)) == n,
        decimal_digits(n).len() >= 1,
        k >= 1 && n < pow10(k) ==> decimal_digits(n).len() <= k,
    decreases n,
{
    lemma_digit_char(n % 10);
    if n >= 10 {
        let k1: nat = if k >= 1 { (k - 1) as nat } else { 0 };
        lemma_decimal_digits(n / 10, k1);
        let prefix = decimal_digits(n / 10);
        let ds = decimal_digits(n);
        assert(ds.drop_last() =~= prefix);
        assert(ds.last() == digit_char(n % 10));
        assert('0' as int == 48);
        assert(digits_value(ds) == digits_value(prefix) * 10 + (n % 10));
        assert((n / 10) * 10 + n % 10 == n);
        assert forall|i: int| 0 <= i < ds.len() implies is_digit(#[trigger] ds[i]) by {
            if i < prefix.len() {
                assert(ds[i] == prefix[i]);
            }
        }
        if k >= 1 && n < pow10(k) {
            if k == 1 {
                assert(pow10(1) == 10 * pow10(0));
            } else {
                let p = pow10(k1);
                assert(pow10(k) == 10 * p);
                assert(n / 10 < p) by (nonlinear_arith)
                    requires
                        n < 10 * p,
                ;
            }
        }
    } else {
        lemma_digit_char(n);
        assert(decimal_digits(n).drop_last() =~= Seq::<char>::empty());
        assert('0' as int == 48);
        assert(digits_value(Seq::<char>::empty()) == 0);
        assert(digits_value(decimal_digits(n)) == n);
        if k >= 1 {
            lemma_pow10_positive(k);
        }
    }
}

/// The value of joined digit strings.
pub proof fn lemma_digits_value_append(x: Seq<char>, y: Seq<char>)
    ensures
        digits_value(x + y) == digits_value(x) * pow10(y.len()) + digits_value(y),
        all_digits(x) && all_digits(y) ==> all_digits(x + y),
    decreases y.len(),
{
    if y.len() == 0 {
        assert(x + y =~= x);
    } else {
        let y1 = y.drop_last();
        lemma_digits_value_append(x, y1);
        assert((x + y).drop_last() =~= x + y1);
        assert((x + y).last() == y.last());
        let a = digits_value(x);
        let p = pow10(y1.len());
        let b = digits_value(y1);
        let d = y.last() as int - '0' as int;
        assert(pow10(y.len()) == 10 * p);
        assert((a * p + b) * 10 + d == a * (10 * p) + (b * 10 + d)) by (nonlinear_arith);
    }
    if all_digits(x) && all_digits(y) {
        assert forall|i: int| 0 <= i < (x + y).len() implies is_digit(#[trigger] (x + y)[i]) by {
            if i < x.len() {
                assert((x + y)[i] == x[i]);
            } else {
                assert((x + y)[i] == y[i - x.len()]);
            }
        }
    }
}

/// Zeros are digits that spell zero.
pub proof fn lemma_zeros(count: nat)
    ensures
        all_digits(zeros(count)),
        digits_value(zeros(count)) == 0,
    decreases count,
{
    if count > 0 {
        lemma_zeros((count - 1) as nat);
        assert(zeros(count).drop_last() =~= zeros((count - 1) as nat));
    }
}

/// The number that `rust_decimal` parses out of a text, as mantissa and scale,
/// or `None` where it rejects the text.
pub uninterp spec fn decimal_text_value(text: Seq<char>) -> Option<(int, int)>;

/// A sign, integer digits and, after a `.` where there is one, fractional
/// digits, written out: `-12.34`, `5`, `1.`, `.5`.
pub open spec fn written_decimal(negative: bool, int_digits: Seq<char>, point: bool, frac_digits: Seq<char>) -> Seq<char> {
    let body = if point {
        int_digits + seq!['.'] + frac_digits
    } else {
        int_digits
    };
    if negative {
        seq!['-'] + body
    } else {
        body
    }
}

/// `text` is a plain decimal: an optional `-`, digits with at most one `.`
/// among them, at least one digit, at most 28 fractional digits and at most 28
/// digits in all once leading zeros are dropped.
pub open spec fn is_plain_decimal(
    text: Seq<char>,
    negative: bool,
    int_digits: Seq<char>,
    point: bool,
    frac_digits: Seq<char>,
) -> bool {
    &&& text == written_decimal(negative, int_digits, point, frac_digits)
    &&& int_digits.len() + frac_digits.len() >= 1
    &&& (point || frac_digits.len() == 0)
    &&& all_digits(int_digits)
    &&& all_digits(frac_digits)
    &&& frac_digits.len() <= 28
    &&& without_leading_zeros(int_digits + frac_digits).len() <= 28
}

/// A digit string without its leading zeros.
pub open spec fn without_leading_zeros(ds: Seq<char>) -> Seq<char>
    decreases ds.len(),
{
    if ds.len() > 0 && ds[0] == '0' {
        without_leading_zeros(ds.drop_first())
    } else {
        ds
    }
}

/// Dropping leading zeros never lengthens a digit string.
pub proof fn lemma_without_leading_zeros_len(ds: Seq<char>)
    ensures
        without_leading_zeros(ds).len() <= ds.len(),
    decreases ds.len(),
{
    if ds.len() > 0 && ds[0] == '0' {
        lemma_without_leading_zeros_len(ds.drop_first());
    }
}

/// The number the digits of a plain decimal spell, as a mantissa at the
/// scale of its fractional digits.
pub open spec fn notation_value(negative: bool, int_digits: Seq<char>, frac_digits: Seq<char>) -> int {
    let v = digits_value(int_digits + frac_digits);
    if negative {
        -v
    } else {
        v
    }
}

/// Where `text` is a plain decimal, `r` is the number its digits spell, at
/// the scale of its fractional digits.
pub open spec fn plain_notation_parsed(text: Seq<char>, r: Result<DecimalParts, rust_decimal::Error>) -> bool {
    forall|negative: bool, int_digits: Seq<char>, point: bool, frac_digits: Seq<char>|
        #![trigger written_decimal(negative, int_digits, point, frac_digits)]
        is_plain_decimal(text, negative, int_digits, point, frac_digits) ==> (r matches Ok(p)
            && p.mantissa == notation_value(negative, int_digits, frac_digits) && p.scale
            == frac_digits.len())
}

/// A character that may appear in a decimal text: a digit, `.`, `-`, `+`, `_`.
pub open spec fn is_numeral_char(c: char) -> bool {
    is_digit(c) || c == '.' || c == '-' || c == '+' || c == '_'
}

/// The number of decimal digits in a text.
pub open spec fn digit_count(text: Seq<char>) -> nat {
    text.filter(|c: char| is_digit(c)).len()
}

/// Texts without `_` and with at most 28 digits that are no decimal at all:
/// they have no digit, a character that has no place in a decimal, two
/// points, or a sign after the first character.
pub open spec fn is_non_decimal(text: Seq<char>) -> bool {
    &&& !text.contains('_')
    &&& digit_count(text) <= 28
    &&& {
        ||| digit_count(text) == 0
        ||| exists|i: int| 0 <= i < text.len() && !is_numeral_char(#[trigger] text[i])
        ||| exists|i: int, j: int| 0 <= i < j < text.len() && #[trigger] text[i] == '.' && #[trigger] text[j] == '.'
        ||| exists|i: int| 0 < i < text.len() && (#[trigger] text[i] == '-' || text[i] == '+')
    }
}

/// The error type of `rust_decimal`.
#[verifier::external_type_specification]
#[verifier::external_body]
pub struct ExDecimalError(rust_decimal::Error);

/// `Decimal::from_str`, seen through the parts of its result.
///
/// Trusted: the result is the named value of the text, and it is a representable
/// `Decimal`; a plain decimal (optional `-`, digits with at most one `.`, at
/// least one digit, at most 28 fractional digits and at most 28 digits past
/// the leading zeros) parses to the number its digits spell, at the scale of
/// its fractional digits; a text without `_` and with at most 28 digits is
/// rejected where it has no digit, a character other than a digit, `.`, `-`,
/// `+` or `_`, two points, or a sign after its first character. What other
/// texts give (a `+` sign, `_` separators, which the parser may stop reading
/// at the 28th fractional digit, rounding of longer fractions) is left to the
/// name.
#[verifier::external_body]
pub(crate) fn decimal_from_str(s: &str) -> (r: Result<DecimalParts, rust_decimal::Error>)
    ensures
        match r {
            Ok(p) => p.wf() && decimal_text_value(s@) == Some((p.mantissa as int, p.scale as int)),
            Err(_) => decimal_text_value(s@) is None,
        },
        plain_notation_parsed(s@, r),
        is_non_decimal(s@) ==> r is Err,
{
    match Decimal::from_str(s) {
        Ok(d) => Ok(DecimalParts { mantissa: d.mantissa(), scale: d.scale() }),
        Err(e) => Err(e),
    }
}

/// `Decimal::round_dp_with_strategy` with `RoundingStrategy::ToZero`.
///
/// Trusted: scales at most `dp` come back unchanged; larger ones are cut to `dp`
/// fractional digits, dropping the rest toward zero.
#[verifier::external_body]
pub(crate) fn decimal_round_toward_zero(p: DecimalParts, dp: u32) -> (r: DecimalParts)
    requires
        p.wf(),
    ensures
        (r.mantissa as int, r.scale as nat) == round_toward_zero(p.mantissa as int, p.scale as nat, dp as nat),
{
    let d = Decimal::from_i128_with_scale(p.mantissa, p.scale);
    let d = d.round_dp_with_strategy(dp, RoundingStrategy::ToZero);
    DecimalParts { mantissa: d.mantissa(), scale: d.scale() }
}

/// `Decimal::rescale` to a scale no smaller than the current one.
///
/// Trusted: the mantissa is multiplied by ten once per added digit of scale,
/// stopping early where a further digit would leave 96 bits.
#[verifier::external_body]
pub(crate) fn decimal_rescale_up(p: DecimalParts, target: u32) -> (r: DecimalParts)
    requires
        p.wf(),
        p.scale <= target <= MAX_SCALE,
    ensures
        (r.mantissa as int, r.scale as nat) == rescale_up(p.mantissa as int, p.scale as nat, target as nat),
{
    let mut d = Decimal::from_i128_with_scale(p.mantissa, p.scale);
    d.rescale(target);
    DecimalParts { mantissa: d.mantissa(), scale: d.scale() }
}

/// `Decimal::normalize`.
///
/// Trusted: zero becomes zero at scale 0; other values lose the trailing zeros
/// of their fraction.
#[verifier::external_body]
pub(crate) fn decimal_normalize(p: DecimalParts) -> (r: DecimalParts)
    requires
        p.wf(),
    ensures
        (r.mantissa as int, r.scale as nat) == normalized(p.mantissa as int, p.scale as nat),
{
    let d = Decimal::from_i128_with_scale(p.mantissa, p.scale).normalize();
    DecimalParts { mantissa: d.mantissa(), scale: d.scale() }
}

/// `Decimal`'s `to_string`.
///
/// Trusted: a `-` for negative values, the digits of the magnitude with at least
/// one integer digit, and exactly `scale` fractional digits after a `.` (none
/// and no `.` at scale 0).
#[verifier::external_body]
pub(crate) fn decimal_to_string(p: DecimalParts) -> (r: String)
    requires
        p.wf(),
    ensures
        r@ == decimal_text(p.mantissa as int, p.scale as nat),
{
    Decimal::from_i128_with_scale(p.mantissa, p.scale).to_string()
}

} // verus!

//! Amounts as fixed-point integers with four decimal places: `1.5` is `15000`.

use vstd::prelude::*;

use crate::util::decimal::{
    all_digits, decimal_from_str, decimal_normalize, decimal_notation, decimal_rescale_up,
    decimal_round_toward_zero, decimal_text, decimal_text_value, decimal_to_string, digits_value,
    is_digit, is_non_decimal, is_plain_decimal, lemma_decimal_digits, lemma_without_leading_zeros_len, lemma_digits_value_append,
    lemma_pow10_positive, lemma_round_keeps_bounds, lemma_strip_keeps_bounds, lemma_zeros,
    magnitude_digits, max_mantissa, normalized, notation_value, pad_left, pow10, rescale_up,
    round_toward_zero, strip_trailing_zeros, written_decimal, zeros, DecimalParts,
};
use crate::util::text::{is_white_space, trim_end, trim_start, trim_str, trimmed};

verus! {

/// The number of decimal places of an amount.
pub const AMOUNT_SCALE: u32 = 4;

/// An amount text that is not a decimal number, with the parser's message.
#[derive(Debug)]
pub enum AmountError {
    InvalidDecimal(String),
}

/// The fixed-point value of the decimal `m / 10^s`: fractional digits beyond
/// the fourth are dropped toward zero, then the mantissa is scaled up to four
/// places (as far as 96 bits allow).
pub open spec fn fixed_point_value(m: int, s: int) -> int {
    let (m1, s1) = round_toward_zero(m, s as nat, AMOUNT_SCALE as nat);
    rescale_up(m1, s1, AMOUNT_SCALE as nat).0
}

/// Where the trimmed text is a plain decimal, `r` is the fixed-point value of
/// the number its digits spell.
pub open spec fn plain_amount_parsed(text: Seq<char>, r: Result<i128, AmountError>) -> bool {
    forall|negative: bool, int_digits: Seq<char>, point: bool, frac_digits: Seq<char>|
        #![trigger written_decimal(negative, int_digits, point, frac_digits)]
        is_plain_decimal(trimmed(text), negative, int_digits, point, frac_digits) ==> r == Ok::<i128, AmountError>(
            fixed_point_value(notation_value(negative, int_digits, frac_digits), frac_digits.len() as int) as i128)
}

/// The fixed-point value of a decimal: digits beyond the fourth decimal place
/// are dropped toward zero, then the mantissa is scaled up to four places.
pub fn fixed_point_of(p: DecimalParts) -> (r: i128)
    requires
        p.wf(),
    ensures
        r == fixed_point_value(p.mantissa as int, p.scale as int),
        -max_mantissa() <= r <= max_mantissa(),
        fits_after_scaling(p.mantissa as int, p.scale as nat) ==> is_truncated_fixed_point(
            p.mantissa as int,
            p.scale as nat,
            r as int,
        ),
{
    // Drop digits beyond the fourth decimal place, without rounding.
    let rounded = decimal_round_toward_zero(p, AMOUNT_SCALE);
    proof {
        lemma_round_keeps_bounds(p.mantissa as int, p.scale as nat, AMOUNT_SCALE as nat);
        lemma_rescale_keeps_bounds(rounded.mantissa as int, rounded.scale as nat, AMOUNT_SCALE as nat);
    }
    let scaled = decimal_rescale_up(rounded, AMOUNT_SCALE);
    proof {
        if fits_after_scaling(p.mantissa as int, p.scale as nat) {
            law_fixed_point_truncates(p.mantissa as int, p.scale as nat);
        }
    }
    scaled.mantissa
}

/// Parses a decimal amount, ignoring surrounding white space, into fixed-point
/// with four decimal places. Digits beyond the fourth decimal place are
/// dropped toward zero: `"123.4567"` is `1234567`, `"0.00019"` is `1`.
pub fn parse_amount_fixed_decimal(s: &str) -> (r: Result<i128, AmountError>)
    ensures
        match decimal_text_value(trimmed(s@)) {
            None => r is Err,
            Some((m, scale)) => -max_mantissa() <= fixed_point_value(m, scale) <= max_mantissa()
                && r == Ok::<i128, AmountError>(fixed_point_value(m, scale) as i128),
        },
        plain_amount_parsed(s@, r),
        is_non_decimal(trimmed(s@)) ==> r is Err,
{
    let s = trim_str(s);
    let parsed = match decimal_from_str(s) {
        Ok(d) => d,
        Err(e) => {
            return Err(AmountError::InvalidDecimal(e.to_string()));
        },
    };
    Ok(fixed_point_of(parsed))
}

/// The text of a fixed-point amount: its decimal value with no trailing zeros
/// (`12300` is `"1.23"`, `1` is `"0.0001"`, `-10000` is `"-1"`).
pub open spec fn amount_text(v: int) -> Seq<char> {
    let (m, s) = normalized(v, AMOUNT_SCALE as nat);
    decimal_text(m, s)
}

/// Formats a fixed-point amount with four decimal places as a decimal number
/// without trailing zeros.
pub fn format_amount_to_string(v: i64) -> (r: String)
    ensures
        r@ == amount_text(v as int),
{
    let d = decimal_normalize(DecimalParts { mantissa: v as i128, scale: AMOUNT_SCALE });
    proof {
        lemma_strip_keeps_bounds(v as int, AMOUNT_SCALE as nat);
    }
    decimal_to_string(d)
}

proof fn lemma_strip_value(m: int, s: nat)
    ensures
        ({
            let (m1, s1) = strip_trailing_zeros(m, s);
            &&& s1 <= s
            &&& m1 * pow10((s - s1) as nat) == m
        }),
    decreases s,
{
    if s > 0 && m % 10 == 0 {
        lemma_strip_value(m / 10, (s - 1) as nat);
        let (m1, s1) = strip_trailing_zeros(m / 10, (s - 1) as nat);
        let p = pow10((s - 1 - s1) as nat);
        assert(pow10((s - s1) as nat) == 10 * p);
        assert(m1 * (10 * p) == 10 * (m1 * p)) by (nonlinear_arith);
        assert(10 * (m / 10) == m);
    }
}

proof fn lemma_rescale_keeps_bounds(m: int, s: nat, target: nat)
    requires
        -max_mantissa() <= m <= max_mantissa(),
    ensures
        -max_mantissa() <= rescale_up(m, s, target).0 <= max_mantissa(),
    decreases target - s,
{
    if s < target && !(m * 10 > max_mantissa() || m * 10 < -max_mantissa()) {
        lemma_rescale_keeps_bounds(m * 10, s + 1, target);
    }
}

proof fn lemma_rescale_exact(m: int, s: nat, target: nat)
    requires
        s <= target,
        -max_mantissa() <= m * pow10((target - s) as nat) <= max_mantissa(),
    ensures
        rescale_up(m, s, target) == (m * pow10((target - s) as nat), target),
    decreases target - s,
{
    if s < target {
        let p = pow10((target - s - 1) as nat);
        lemma_pow10_positive((target - s - 1) as nat);
        assert(pow10((target - s) as nat) == 10 * p);
        assert(m * (10 * p) == (m * 10) * p) by (nonlinear_arith);
        assert(-max_mantissa() <= m * 10 <= max_mantissa()) by (nonlinear_arith)
            requires
                -max_mantissa() <= (m * 10) * p <= max_mantissa(),
                p >= 1,
                max_mantissa() >= 0,
        ;
        lemma_rescale_exact(m * 10, s + 1, target);
    }
}

/// A digit is not white space.
proof fn lemma_digit_not_white_space(c: char)
    requires
        is_digit(c),
    ensures
        !is_white_space(c),
{
}

/// The text of an amount is a plain notation of the amount's value, with no
/// surrounding white space.
proof fn lemma_amount_text_is_plain(v: i64) -> (parts: (bool, Seq<char>, bool, Seq<char>))
    ensures
        is_plain_decimal(amount_text(v as int), parts.0, parts.1, parts.2, parts.3),
        trimmed(amount_text(v as int)) == amount_text(v as int),
        fixed_point_value(notation_value(parts.0, parts.1, parts.3), parts.3.len() as int) == v,
{
    let (m, s) = normalized(v as int, AMOUNT_SCALE as nat);
    lemma_strip_value(v as int, AMOUNT_SCALE as nat);
    lemma_strip_keeps_bounds(v as int, AMOUNT_SCALE as nat);
    if v == 0 {
        assert(m == 0 && s == 0);
    } else {
        assert((m, s) == strip_trailing_zeros(v as int, 4));
    }
    assert(s <= 4);
    assert(m * pow10((4 - s) as nat) == v);
    let mag: nat = (if m < 0 { -m } else { m }) as nat;
    assert(pow10(19) == 10_000_000_000_000_000_000) by {
        reveal_with_fuel(pow10, 20);
    }
    assert(mag < pow10(19));
    let digits = magnitude_digits(mag);
    lemma_decimal_digits(mag, 19);
    assert(all_digits(digits) && digits_value(digits) == mag && digits.len() <= 19);
    let ds = pad_left(digits, s);
    if digits.len() < s {
        lemma_zeros((s - digits.len()) as nat);
        lemma_digits_value_append(zeros((s - digits.len()) as nat), digits);
    }
    assert(all_digits(ds) && digits_value(ds) == mag && ds.len() <= 19 && ds.len() >= s);
    let whole = (ds.len() - s) as nat;
    let int_digits = if whole == 0 { seq!['0'] } else { ds.take(whole as int) };
    let frac_digits = ds.skip(whole as int);
    let text = amount_text(v as int);
    assert(text == decimal_notation(m < 0, int_digits, frac_digits));
    assert(text == written_decimal(m < 0, int_digits, frac_digits.len() > 0, frac_digits));
    assert(all_digits(frac_digits));
    assert(all_digits(int_digits));
    if whole == 0 {
        assert(frac_digits =~= ds);
        lemma_digits_value_append(int_digits, frac_digits);
        assert(digits_value(int_digits) == 0) by {
            assert(int_digits.drop_last() =~= Seq::<char>::empty());
            assert(digits_value(Seq::<char>::empty()) == 0);
        }
    } else {
        assert(int_digits + frac_digits =~= ds);
    }
    assert(digits_value(int_digits + frac_digits) == mag);
    lemma_without_leading_zeros_len(int_digits + frac_digits);
    assert(notation_value(m < 0, int_digits, frac_digits) == m);
    // No white space at either end.
    assert(text.len() > 0);
    lemma_digit_not_white_space(int_digits[0]);
    assert(!is_white_space(text[0]));
    if frac_digits.len() > 0 {
        lemma_digit_not_white_space(frac_digits.last());
        assert(text.last() == frac_digits.last());
    } else {
        lemma_digit_not_white_space(int_digits.last());
        assert(text.last() == int_digits.last());
    }
    assert(trim_start(text) == text);
    assert(trim_end(text) == text);
    // The value scales back to the amount.
    lemma_round_keeps_bounds(m, s, 4);
    assert(max_mantissa() >= 0x8000_0000_0000_0000);
    lemma_rescale_exact(m, s, 4);
    (m < 0, int_digits, frac_digits.len() > 0, frac_digits)
}

/// Parsing the text of a formatted amount gives the amount back.
pub proof fn law_parse_inverts_format(v: i64, r: Result<i128, AmountError>)
    requires
        plain_amount_parsed(amount_text(v as int), r),
    ensures
        r == Ok::<i128, AmountError>(v as i128),
{
    let (negative, int_digits, point, frac_digits) = lemma_amount_text_is_plain(v);
    assert(written_decimal(negative, int_digits, point, frac_digits) == amount_text(v as int));
}

/// `|x|`.
pub open spec fn magnitude(x: int) -> int {
    if x < 0 {
        -x
    } else {
        x
    }
}

/// `r` is `m / 10^s` times `10^4`, truncated toward zero: the largest
/// magnitude with `|r| * 10^s <= |m| * 10^4`, with the sign of the number (or
/// zero).
pub open spec fn is_truncated_fixed_point(m: int, s: nat, r: int) -> bool {
    &&& magnitude(r) * pow10(s) <= magnitude(m) * 10000 < (magnitude(r) + 1) * pow10(s)
    &&& r > 0 ==> m > 0
    &&& r < 0 ==> m < 0
}

/// `m / 10^s` times `10^4` stays within the 96 bits of a mantissa.
pub open spec fn fits_after_scaling(m: int, s: nat) -> bool {
    &&& -max_mantissa() <= m <= max_mantissa()
    &&& magnitude(m) * 10000 <= max_mantissa() * pow10(s)
}

proof fn lemma_pow10_add(a: nat, b: nat)
    ensures
        pow10(a + b) == pow10(a) * pow10(b),
    decreases a,
{
    if a > 0 {
        lemma_pow10_add((a - 1) as nat, b);
        assert(pow10(a + b) == 10 * pow10((a - 1 + b) as nat));
        let x = pow10((a - 1) as nat);
        let y = pow10(b);
        assert(10 * (x * y) == (10 * x) * y) by (nonlinear_arith);
    }
}

/// The fixed-point value of every decimal `m / 10^s` whose scaled value fits
/// in a mantissa is that value truncated toward zero: fractional digits beyond
/// the fourth are dropped, never rounded, at every scale, and fewer
/// fractional digits are padded with zeros.
pub proof fn law_fixed_point_truncates(m: int, s: nat)
    requires
        fits_after_scaling(m, s),
    ensures
        is_truncated_fixed_point(m, s, fixed_point_value(m, s as int)),
{
    let r = fixed_point_value(m, s as int);
    let am = magnitude(m);
    assert(pow10(4) == 10000) by {
        reveal_with_fuel(pow10, 5);
    }
    lemma_pow10_positive(s);
    if s <= 4 {
        let k: nat = (4 - s) as nat;
        lemma_pow10_add(k, s);
        lemma_pow10_positive(k);
        let pk = pow10(k);
        let ps = pow10(s);
        assert(am * pk <= max_mantissa()) by (nonlinear_arith)
            requires
                am * 10000 <= max_mantissa() * ps,
                10000 == pk * ps,
                ps >= 1,
                am >= 0,
        ;
        assert(-max_mantissa() <= m * pk <= max_mantissa()) by (nonlinear_arith)
            requires
                am * pk <= max_mantissa(),
                am == (if m < 0 { -m } else { m }),
                pk >= 1,
        ;
        lemma_rescale_exact(m, s, 4);
        assert(r == m * pk);
        assert(magnitude(r) == am * pk) by (nonlinear_arith)
            requires
                r == m * pk,
                pk >= 1,
                am == (if m < 0 { -m } else { m }),
                magnitude(r) == (if r < 0 { -r } else { r }),
        ;
        assert(magnitude(r) * ps == am * 10000) by (nonlinear_arith)
            requires
                magnitude(r) == am * pk,
                10000 == pk * ps,
        ;
        assert(am * 10000 < (magnitude(r) + 1) * ps) by (nonlinear_arith)
            requires
                magnitude(r) * ps == am * 10000,
                ps >= 1,
        ;
        assert((r > 0 ==> m > 0) && (r < 0 ==> m < 0)) by (nonlinear_arith)
            requires
                r == m * pk,
                pk >= 1,
        ;
    } else {
        let k: nat = (s - 4) as nat;
        lemma_pow10_add(k, 4);
        lemma_pow10_positive(k);
        let pk = pow10(k);
        let ps = pow10(s);
        let q = am / pk;
        assert(q * pk <= am < (q + 1) * pk && q >= 0) by (nonlinear_arith)
            requires
                pk >= 1,
                am >= 0,
                q == am / pk,
        ;
        assert(r == (if m >= 0 { q } else { -q }));
        assert(magnitude(r) == q);
        assert(r > 0 ==> m > 0);
        assert(r < 0 ==> m < 0);
        assert(q * ps <= am * 10000 < (q + 1) * ps) by (nonlinear_arith)
            requires
                q * pk <= am < (q + 1) * pk,
                ps == pk * 10000,
        ;
    }
}

} // verus!

use vstd::prelude::*;

use crate::engine::account::Account;
use crate::util::amount::{amount_text, format_amount_to_string};
use crate::util::text::decimal_digits;

verus! {

/// `bool`'s text.
pub open spec fn bool_text(b: bool) -> Seq<char> {
    if b {
        "true"@
    } else {
        "false"@
    }
}

/// The output fields of an account, in the order of the header
/// `client, available, held, total, locked`.
pub fn account_record(account: &Account) -> (r: Vec<String>)
    requires
        i64::MIN <= account.spec_total() <= i64::MAX,
    ensures
        r.len() == 5,
        r[0]@ == decimal_digits(account.client.0 as nat),
        r[1]@ == amount_text(account.available as int),
        r[2]@ == amount_text(account.held as int),
        r[3]@ == amount_text(account.spec_total()),
        r[4]@ == bool_text(account.locked),
{
    let mut record: Vec<String> = Vec::new();
    record.push(account.client.to_string());
    record.push(format_amount_to_string(account.available));
    record.push(format_amount_to_string(account.held));
    record.push(format_amount_to_string(account.total()));
    let locked = if account.locked {
        String::from_str("true")
    } else {
        String::from_str("false")
    };
    record.push(locked);
    record
}

} // verus!

use vstd::prelude::*;

use crate::engine::id::{ClientId, TransactionId};
use crate::engine::transaction::{Transaction, TxKind};
use crate::error::source_error::SourceError;
use crate::util::amount::{fixed_point_value, parse_amount_fixed_decimal, AmountError};
use crate::util::decimal::decimal_text_value;
use crate::util::text::{decimal_digits, trim_str, trimmed};

verus! {

/// One record of the input: `type, client, tx, amount`.
#[derive(Debug)]
pub struct CsvTransaction {
    pub kind: String,
    pub client: u16,
    pub tx: u32,
    pub amount: Option<String>,
}

/// The kind a record's type names.
pub open spec fn kind_named(name: Seq<char>) -> Option<TxKind> {
    if name == "deposit"@ {
        Some(TxKind::Deposit)
    } else if name == "withdrawal"@ {
        Some(TxKind::Withdrawal)
    } else if name == "dispute"@ {
        Some(TxKind::Dispute)
    } else if name == "resolve"@ {
        Some(TxKind::Resolve)
    } else if name == "chargeback"@ {
        Some(TxKind::Chargeback)
    } else {
        None
    }
}

/// The transaction of a record with the given kind and amount.
pub open spec fn record_transaction(row: CsvTransaction, kind: TxKind, amount: Option<i64>) -> Transaction {
    Transaction { kind, client: ClientId(row.client), tx: TransactionId(row.tx), amount }
}

/// What a record converts to: its trimmed type names the kind; deposits and
/// withdrawals need an amount that parses and fits in `i64`; the other kinds
/// drop any amount.
pub open spec fn record_converted(row: CsvTransaction, r: Result<Transaction, SourceError>) -> bool {
    let subject = decimal_digits(row.tx as nat);
    match kind_named(trimmed(row.kind@)) {
        None => r matches Err(e) && e@ == "unknown type: "@ + trimmed(row.kind@),
        Some(kind) => if kind == TxKind::Deposit || kind == TxKind::Withdrawal {
            match row.amount {
                None => r matches Err(e) && e@ == "missing amount for tx "@ + subject,
                Some(text) => match decimal_text_value(trimmed(text@)) {
                    None => r matches Err(e) && ("invalid amount for tx "@ + subject + ": "@).is_prefix_of(e@),
                    Some((m, scale)) => {
                        let v = fixed_point_value(m, scale);
                        if i64::MIN <= v <= i64::MAX {
                            r == Ok::<Transaction, SourceError>(record_transaction(row, kind, Some(v as i64)))
                        } else {
                            r matches Err(e) && e@ == "amount overflow for tx "@ + subject
                        }
                    },
                },
            }
        } else {
            r == Ok::<Transaction, SourceError>(record_transaction(row, kind, None))
        },
    }
}

/// `a` and `b` hold the same text.
fn same_text(a: &str, b: &str) -> (r: bool)
    ensures
        r == (a@ == b@),
{
    String::from_str(a) == String::from_str(b)
}

/// The kind a type name names, if any.
fn kind_from_name(name: &str) -> (r: Option<TxKind>)
    ensures
        r == kind_named(name@),
{
    if same_text(name, "deposit") {
        Some(TxKind::Deposit)
    } else if same_text(name, "withdrawal") {
        Some(TxKind::Withdrawal)
    } else if same_text(name, "dispute") {
        Some(TxKind::Dispute)
    } else if same_text(name, "resolve") {
        Some(TxKind::Resolve)
    } else if same_text(name, "chargeback") {
        Some(TxKind::Chargeback)
    } else {
        None
    }
}

/// A message made of a fixed text and the decimal notation of an identifier.
fn message_about(text: &str, id: u32) -> (r: String)
    ensures
        r@ == text@ + decimal_digits(id as nat),
{
    let mut message = String::from_str(text);
    let id_text = TransactionId(id).to_string();
    message.append(id_text.as_str());
    message
}

impl Transaction {
    /// Converts a record into a transaction.
    pub fn try_from(row: CsvTransaction) -> (r: Result<Transaction, SourceError>)
        ensures
            record_converted(row, r),
    {
        let name = trim_str(row.kind.as_str());
        let kind = match kind_from_name(name) {
            Some(kind) => kind,
            None => {
                let mut message = String::from_str("unknown type: ");
                message.append(name);
                return Err(SourceError::InvalidRecord(message));
            },
        };
        let amount = match kind {
            TxKind::Deposit | TxKind::Withdrawal => {
                // Deposits and withdrawals need an amount; other kinds ignore it.
                let text = match &row.amount {
                    Some(text) => text,
                    None => {
                        return Err(SourceError::InvalidRecord(message_about("missing amount for tx ", row.tx)));
                    },
                };
                let value = match parse_amount_fixed_decimal(text.as_str()) {
                    Ok(value) => value,
                    Err(AmountError::InvalidDecimal(reason)) => {
                        let mut message = message_about("invalid amount for tx ", row.tx);
                        message.append(": ");
                        let ghost prefix = message@;
                        message.append(reason.as_str());
                        assert(message@.subrange(0, prefix.len() as int) =~= prefix);
                        return Err(SourceError::InvalidRecord(message));
                    },
                };
                // The value is scaled by 10^4; it must still fit in i64.
                if value < i64::MIN as i128 || value > i64::MAX as i128 {
                    return Err(SourceError::InvalidRecord(message_about("amount overflow for tx ", row.tx)));
                }
                Some(value as i64)
            },
            _ => None,
        };
        Ok(Transaction {
            kind,
            client: ClientId::from_u16(row.client),
            tx: TransactionId::from_u32(row.tx),
            amount,
        })
    }
}

} // verus!

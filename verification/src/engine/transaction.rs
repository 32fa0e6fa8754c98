use vstd::prelude::*;

use super::id::{ClientId, TransactionId};

verus! {

/// The kinds of transaction a partner sends.
#[derive(Clone, Copy, Debug, PartialEq, Eq, Structural)]
pub enum TxKind {
    Deposit,
    Withdrawal,
    Dispute,
    Resolve,
    Chargeback,
}

/// One transaction; amounts are fixed-point with four decimal places
/// (`1.5` is `15000`). Disputes, resolves and chargebacks carry no amount.
#[derive(Clone, Copy, Debug)]
pub struct Transaction {
    pub kind: TxKind,
    pub client: ClientId,
    pub tx: TransactionId,
    pub amount: Option<i64>,
}

} // verus!

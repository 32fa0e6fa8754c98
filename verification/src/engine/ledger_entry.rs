use vstd::prelude::*;

use super::id::{ClientId, TransactionId};
use super::transaction::TxKind;

verus! {

/// A deposit or withdrawal the engine has applied, with its dispute state.
#[derive(Clone, Copy, Debug)]
pub struct LedgerEntry {
    pub tx: TransactionId,
    pub client: ClientId,
    pub kind: TxKind,
    pub amount: i64,
    pub disputed: bool,
    pub charged_back: bool,
}

} // verus!

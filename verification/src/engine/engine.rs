use std::collections::HashMap;
use vstd::prelude::*;
use vstd::std_specs::iter::IteratorSpec;

use crate::error::engine_error::{EngineError, EngineErrorKind};
use crate::util::text::decimal_digits;

use super::account::Account;
use super::id::ClientId;
use super::laws::{
    held_matches_disputes, law_engine_starts_consistent, law_held_funds_track_disputes,
    law_locks_track_chargebacks, law_totals_track_ledger, locks_match_chargebacks,
    totals_match_ledger,
};
use super::ledger_entry::LedgerEntry;
use super::transaction::{Transaction, TxKind};

verus! {

broadcast use vstd::std_specs::hash::group_hash_axioms;

/// The state of the engine: accounts by client and applied deposits and
/// withdrawals by transaction.
pub struct EngineView {
    pub accounts: Map<u16, Account>,
    pub ledger: Map<u32, LedgerEntry>,
}

/// The reason and subject of a refusal.
pub type Rejection = (EngineErrorKind, Seq<char>);

/// What an accepted transaction leaves: the client's available funds, held
/// funds and lock, and the ledger entry of the transaction.
pub type Settlement = (int, int, bool, LedgerEntry);

/// The states the engine keeps.
pub open spec fn valid_state(v: EngineView) -> bool {
    &&& v.accounts.dom().finite()
    &&& v.ledger.dom().finite()
    &&& forall|c: u16| #[trigger]
        v.accounts.contains_key(c) ==> {
            let a = v.accounts[c];
            &&& a.client.0 == c
            &&& a.available >= 0
            &&& a.held >= 0
        }
    &&& forall|t: u32| #[trigger]
        v.ledger.contains_key(t) ==> {
            let e = v.ledger[t];
            &&& e.tx.0 == t
            &&& e.amount > 0
            &&& (e.kind == TxKind::Deposit || e.kind == TxKind::Withdrawal)
            &&& v.accounts.contains_key(e.client.0)
            &&& !(e.disputed && e.charged_back)
        }
}

/// A fresh account of a client.
pub open spec fn new_account(c: u16) -> Account {
    Account { client: ClientId(c), available: 0, held: 0, locked: false }
}

/// The account of a client, or the fresh one it would get.
pub open spec fn account_of(v: EngineView, c: u16) -> Account {
    if v.accounts.contains_key(c) {
        v.accounts[c]
    } else {
        new_account(c)
    }
}

/// The transaction's identifier in decimal notation.
pub open spec fn tx_subject(tx: Transaction) -> Seq<char> {
    decimal_digits(tx.tx.0 as nat)
}

/// The client's identifier in decimal notation.
pub open spec fn client_subject(tx: Transaction) -> Seq<char> {
    decimal_digits(tx.client.0 as nat)
}

/// The refusal of `tx` for the given reason.
pub open spec fn refuse(kind: EngineErrorKind, tx: Transaction) -> Result<Settlement, Rejection> {
    Err((kind, tx_subject(tx)))
}

/// The ledger entry a deposit or withdrawal of `amount` writes.
pub open spec fn fresh_entry(tx: Transaction, amount: i64) -> LedgerEntry {
    LedgerEntry {
        tx: tx.tx,
        client: tx.client,
        kind: tx.kind,
        amount,
        disputed: false,
        charged_back: false,
    }
}

/// An entry with a new dispute state.
pub open spec fn with_dispute_state(e: LedgerEntry, disputed: bool, charged_back: bool) -> LedgerEntry {
    LedgerEntry {
        tx: e.tx,
        client: e.client,
        kind: e.kind,
        amount: e.amount,
        disputed,
        charged_back,
    }
}

/// A deposit: a new transaction with a positive amount, credited to an
/// unlocked account (created if need be).
pub open spec fn deposit_outcome(v: EngineView, tx: Transaction) -> Result<Settlement, Rejection> {
    let a = account_of(v, tx.client.0);
    if v.ledger.contains_key(tx.tx.0) {
        refuse(EngineErrorKind::DuplicateTransaction, tx)
    } else {
        match tx.amount {
            None => refuse(EngineErrorKind::MissingAmount, tx),
            Some(amount) => if amount <= 0 {
                refuse(EngineErrorKind::InvalidAmount, tx)
            } else if a.locked {
                refuse(EngineErrorKind::AccountLocked, tx)
            } else {
                Ok((a.available + amount, a.held as int, a.locked, fresh_entry(tx, amount)))
            },
        }
    }
}

/// A withdrawal: a new transaction with a positive amount, taken from the
/// available funds of an unlocked account (created if need be) that cover it.
pub open spec fn withdrawal_outcome(v: EngineView, tx: Transaction) -> Result<Settlement, Rejection> {
    let a = account_of(v, tx.client.0);
    if v.ledger.contains_key(tx.tx.0) {
        refuse(EngineErrorKind::DuplicateTransaction, tx)
    } else {
        match tx.amount {
            None => refuse(EngineErrorKind::MissingAmount, tx),
            Some(amount) => if amount <= 0 {
                refuse(EngineErrorKind::InvalidAmount, tx)
            } else if a.locked {
                refuse(EngineErrorKind::AccountLocked, tx)
            } else if a.available < amount {
                refuse(EngineErrorKind::InsufficientFunds, tx)
            } else {
                Ok((a.available - amount, a.held as int, a.locked, fresh_entry(tx, amount)))
            },
        }
    }
}

/// The checks that disputes, resolves and chargebacks share, in order: the
/// transaction exists and belongs to the client, it is (for a dispute: is not)
/// under dispute, it is not charged back, and the client's account exists and
/// is unlocked. `None` when all pass.
pub open spec fn dispute_check(v: EngineView, tx: Transaction, missing: EngineErrorKind, wants_disputed: bool) -> Option<Rejection> {
    if !v.ledger.contains_key(tx.tx.0) {
        Some((missing, tx_subject(tx)))
    } else {
        let e = v.ledger[tx.tx.0];
        if e.client != tx.client {
            Some((EngineErrorKind::TransactionClientMismatch, tx_subject(tx)))
        } else if !wants_disputed && e.disputed {
            Some((EngineErrorKind::TransactionAlreadyDisputed, tx_subject(tx)))
        } else if wants_disputed && !e.disputed {
            Some((EngineErrorKind::TransactionNotDisputed, tx_subject(tx)))
        } else if e.charged_back {
            Some((EngineErrorKind::TransactionAlreadyChargedBack, tx_subject(tx)))
        } else if !v.accounts.contains_key(tx.client.0) {
            Some((EngineErrorKind::AccountNotFound, client_subject(tx)))
        } else if v.accounts[tx.client.0].locked {
            Some((EngineErrorKind::AccountLocked, tx_subject(tx)))
        } else {
            None
        }
    }
}

/// A dispute: a disputed deposit moves its amount from available to held
/// funds; a disputed withdrawal adds its amount to held funds.
pub open spec fn dispute_outcome(v: EngineView, tx: Transaction) -> Result<Settlement, Rejection> {
    match dispute_check(v, tx, EngineErrorKind::DisputeNonExistentTransaction, false) {
        Some(r) => Err(r),
        None => {
            let e = v.ledger[tx.tx.0];
            let a = v.accounts[tx.client.0];
            let entry = with_dispute_state(e, true, false);
            match e.kind {
                TxKind::Deposit => if a.available < e.amount {
                    refuse(EngineErrorKind::InsufficientFunds, tx)
                } else {
                    Ok((a.available - e.amount, a.held + e.amount, a.locked, entry))
                },
                TxKind::Withdrawal => Ok((a.available as int, a.held + e.amount, a.locked, entry)),
                _ => refuse(EngineErrorKind::InvalidDisputeTarget, tx),
            }
        },
    }
}

/// A resolve: a resolved deposit moves its amount back from held to available
/// funds; a resolved withdrawal drops its amount from held funds.
pub open spec fn resolve_outcome(v: EngineView, tx: Transaction) -> Result<Settlement, Rejection> {
    match dispute_check(v, tx, EngineErrorKind::ResolveNonExistentTransaction, true) {
        Some(r) => Err(r),
        None => {
            let e = v.ledger[tx.tx.0];
            let a = v.accounts[tx.client.0];
            let entry = with_dispute_state(e, false, false);
            if a.held < e.amount {
                refuse(EngineErrorKind::InsufficientHeldFunds, tx)
            } else {
                match e.kind {
                    TxKind::Deposit => Ok((a.available + e.amount, a.held - e.amount, a.locked, entry)),
                    TxKind::Withdrawal => Ok((a.available as int, a.held - e.amount, a.locked, entry)),
                    _ => refuse(EngineErrorKind::InvalidResolveTarget, tx),
                }
            }
        },
    }
}

/// A chargeback: a charged-back deposit drops its amount from held funds; a
/// charged-back withdrawal moves its amount from held to available funds. The
/// account is locked.
pub open spec fn chargeback_outcome(v: EngineView, tx: Transaction) -> Result<Settlement, Rejection> {
    match dispute_check(v, tx, EngineErrorKind::ChargebackNonExistentTransaction, true) {
        Some(r) => Err(r),
        None => {
            let e = v.ledger[tx.tx.0];
            let a = v.accounts[tx.client.0];
            let entry = with_dispute_state(e, false, true);
            if a.held < e.amount {
                refuse(EngineErrorKind::InsufficientHeldFunds, tx)
            } else {
                match e.kind {
                    TxKind::Deposit => Ok((a.available as int, a.held - e.amount, true, entry)),
                    TxKind::Withdrawal => Ok((a.available + e.amount, a.held - e.amount, true, entry)),
                    _ => refuse(EngineErrorKind::InvalidChargebackTarget, tx),
                }
            }
        },
    }
}

/// The outcome of a transaction in a state.
pub open spec fn settlement(v: EngineView, tx: Transaction) -> Result<Settlement, Rejection> {
    match tx.kind {
        TxKind::Deposit => deposit_outcome(v, tx),
        TxKind::Withdrawal => withdrawal_outcome(v, tx),
        TxKind::Dispute => dispute_outcome(v, tx),
        TxKind::Resolve => resolve_outcome(v, tx),
        TxKind::Chargeback => chargeback_outcome(v, tx),
    }
}

/// The state after a transaction: an accepted one writes its client's new
/// balances and its ledger entry; a refused one changes nothing.
pub open spec fn applied(v: EngineView, tx: Transaction) -> EngineView {
    match settlement(v, tx) {
        Ok((available, held, locked, entry)) => EngineView {
            accounts: v.accounts.insert(
                tx.client.0,
                Account { client: tx.client, available: available as i64, held: held as i64, locked },
            ),
            ledger: v.ledger.insert(tx.tx.0, entry),
        },
        Err(_) => v,
    }
}

/// The balances an accepted transaction leaves fit in `i64`.
pub open spec fn balances_fit(v: EngineView, tx: Transaction) -> bool {
    match settlement(v, tx) {
        Ok((available, held, _, _)) => available <= i64::MAX && held <= i64::MAX,
        Err(_) => true,
    }
}

/// A settlement computed in `i128`, as the outcome describes it.
pub open spec fn decided(r: Result<(i128, i128, bool, LedgerEntry), EngineError>, outcome: Result<Settlement, Rejection>) -> bool {
    match r {
        Ok((available, held, locked, entry)) => outcome == Ok::<Settlement, Rejection>((available as int, held as int, locked, entry)),
        Err(e) => outcome == Err::<Settlement, Rejection>(e@),
    }
}

/// The result of `apply` reports the outcome.
pub open spec fn reports(r: Result<(), EngineError>, outcome: Result<Settlement, Rejection>) -> bool {
    match r {
        Ok(_) => outcome is Ok,
        Err(e) => outcome == Err::<Settlement, Rejection>(e@),
    }
}

/// Applies transactions to client accounts.
pub struct Engine {
    accounts: HashMap<u16, Account>,
    ledger: HashMap<u32, LedgerEntry>,
}

impl View for Engine {
    type V = EngineView;

    closed spec fn view(&self) -> EngineView {
        EngineView { accounts: self.accounts@, ledger: self.ledger@ }
    }
}

impl Engine {
    /// The engine keeps its state valid, and its accounts agree with its
    /// ledger: held funds are the amounts under dispute, totals follow the
    /// transactions, and an account is locked exactly when one of its
    /// transactions was charged back.
    pub open spec fn wf(&self) -> bool {
        &&& valid_state(self@)
        &&& held_matches_disputes(self@)
        &&& totals_match_ledger(self@)
        &&& locks_match_chargebacks(self@)
    }

    /// An engine with no accounts and no transactions.
    pub fn new() -> (r: Self)
        ensures
            r@.accounts == Map::<u16, Account>::empty(),
            r@.ledger == Map::<u32, LedgerEntry>::empty(),
            r.wf(),
    {
        let engine = Engine { accounts: HashMap::new(), ledger: HashMap::new() };
        proof {
            law_engine_starts_consistent(engine@);
        }
        engine
    }

    /// Every account exactly once, in no particular order.
    pub fn accounts(&self) -> (r: Vec<Account>)
        requires
            self.wf(),
        ensures
            r.len() == self@.accounts.len(),
            forall|i: int|
                0 <= i < r.len() ==> self@.accounts.contains_key(#[trigger] r[i].client.0)
                    && self@.accounts[r[i].client.0] == r[i],
            forall|i: int, j: int| 0 <= i < j < r.len() ==> r[i].client != r[j].client,
            forall|c: u16|
                self@.accounts.contains_key(c) ==> exists|i: int|
                    0 <= i < r.len() && #[trigger] r[i].client.0 == c,
    {
        let mut result: Vec<Account> = Vec::new();
        let keys = self.accounts.keys();
        let ghost key_seq = keys.remaining().unref();
        proof {
            assert forall|i: int| 0 <= i < key_seq.len() implies self@.accounts.contains_key(#[trigger] key_seq[i]) by {
                assert(key_seq.to_set().contains(key_seq[i]));
            }
        }
        for k in it: keys
            invariant
                self.wf(),
                key_seq == it.seq().unref(),
                key_seq.no_duplicates(),
                key_seq.len() == self@.accounts.dom().len(),
                key_seq.to_set() == self@.accounts.dom(),
                forall|i: int| 0 <= i < key_seq.len() ==> self@.accounts.contains_key(#[trigger] key_seq[i]),
                result.len() == it.index(),
                forall|i: int| 0 <= i < it.index() ==> #[trigger] result[i] == self@.accounts[key_seq[i]],
        {
            assert(key_seq[it.index()] == *k);
            match self.accounts.get(k) {
                Some(a) => result.push(*a),
                None => {},
            }
        }
        proof {
            assert forall|c: u16| self@.accounts.contains_key(c) implies exists|i: int|
                0 <= i < result.len() && #[trigger] result[i].client.0 == c by {
                assert(key_seq.to_set().contains(c));
                let i = choose|i: int| 0 <= i < key_seq.len() && key_seq[i] == c;
                assert(result[i].client.0 == c);
            }
            assert forall|i: int, j: int| 0 <= i < j < result.len() implies result[i].client != result[j].client by {
                assert(result[i] == self@.accounts[key_seq[i]]);
                assert(result[j] == self@.accounts[key_seq[j]]);
            }
        }
        result
    }

    /// The account of a client, or the fresh one it would get.
    fn account_or_new(&self, client: ClientId) -> (a: Account)
        ensures
            a == account_of(self@, client.0),
    {
        match self.accounts.get(&client.0) {
            Some(a) => *a,
            None => Account { client, available: 0, held: 0, locked: false },
        }
    }

    /// The account of a client, where it has one.
    fn account_existing(&self, client: ClientId) -> (r: Option<Account>)
        ensures
            match r {
                Some(a) => self@.accounts.contains_key(client.0) && a == self@.accounts[client.0],
                None => !self@.accounts.contains_key(client.0),
            },
    {
        match self.accounts.get(&client.0) {
            Some(a) => Some(*a),
            None => None,
        }
    }

    /// What a deposit or withdrawal would settle to.
    fn decide_transfer(&self, transaction: &Transaction) -> (r: Result<(i128, i128, bool, LedgerEntry), EngineError>)
        requires
            self.wf(),
            transaction.kind == TxKind::Deposit || transaction.kind == TxKind::Withdrawal,
        ensures
            decided(r, settlement(self@, *transaction)),
    {
        // A transaction identifier is applied at most once.
        if self.ledger.contains_key(&transaction.tx.0) {
            return Err(EngineError::DuplicateTransaction(transaction.tx.to_string()));
        }
        let amount = match transaction.amount {
            Some(amount) => amount,
            None => {
                return Err(EngineError::MissingAmount(transaction.tx.to_string()));
            },
        };
        if amount <= 0 {
            return Err(EngineError::InvalidAmount(transaction.tx.to_string()));
        }
        let account = self.account_or_new(transaction.client);
        if account.locked {
            return Err(EngineError::AccountLocked(transaction.tx.to_string()));
        }
        let available = match transaction.kind {
            TxKind::Deposit => account.available as i128 + amount as i128,
            _ => {
                if account.available < amount {
                    return Err(EngineError::InsufficientFunds(transaction.tx.to_string()));
                }
                account.available as i128 - amount as i128
            },
        };
        let entry = LedgerEntry {
            tx: transaction.tx,
            client: transaction.client,
            kind: transaction.kind,
            amount,
            disputed: false,
            charged_back: false,
        };
        Ok((available, account.held as i128, account.locked, entry))
    }

    /// The checks that disputes, resolves and chargebacks share; on success the
    /// disputed entry and the client's account.
    fn check_disputable(&self, transaction: &Transaction, missing: EngineErrorKind, wants_disputed: bool) -> (r: Result<(LedgerEntry, Account), EngineError>)
        requires
            self.wf(),
        ensures
            match r {
                Ok((e, a)) => dispute_check(self@, *transaction, missing, wants_disputed) is None
                    && e == self@.ledger[transaction.tx.0] && a == self@.accounts[transaction.client.0],
                Err(err) => dispute_check(self@, *transaction, missing, wants_disputed) == Some(err@),
            },
    {
        let entry = match self.ledger.get(&transaction.tx.0) {
            Some(e) => *e,
            None => {
                return Err(EngineError::new(missing, transaction.tx.to_string()));
            },
        };
        // The transaction must belong to the client.
        if entry.client != transaction.client {
            return Err(EngineError::TransactionClientMismatch(transaction.tx.to_string()));
        }
        if !wants_disputed && entry.disputed {
            return Err(EngineError::TransactionAlreadyDisputed(transaction.tx.to_string()));
        }
        if wants_disputed && !entry.disputed {
            return Err(EngineError::TransactionNotDisputed(transaction.tx.to_string()));
        }
        if entry.charged_back {
            return Err(EngineError::TransactionAlreadyChargedBack(transaction.tx.to_string()));
        }
        // The account must exist for disputes, resolves and chargebacks.
        let account = match self.account_existing(transaction.client) {
            Some(a) => a,
            None => {
                return Err(EngineError::AccountNotFound(transaction.client.to_string()));
            },
        };
        if account.locked {
            return Err(EngineError::AccountLocked(transaction.tx.to_string()));
        }
        Ok((entry, account))
    }

    /// What a dispute would settle to.
    fn decide_dispute(&self, transaction: &Transaction) -> (r: Result<(i128, i128, bool, LedgerEntry), EngineError>)
        requires
            self.wf(),
            transaction.kind == TxKind::Dispute,
        ensures
            decided(r, settlement(self@, *transaction)),
    {
        let (entry, account) = self.check_disputable(transaction, EngineErrorKind::DisputeNonExistentTransaction, false)?;
        let amount = entry.amount;
        let marked = LedgerEntry { disputed: true, charged_back: false, ..entry };
        match entry.kind {
            // Disputing a deposit: its amount moves from available to held funds.
            TxKind::Deposit => {
                if account.available < amount {
                    return Err(EngineError::InsufficientFunds(transaction.tx.to_string()));
                }
                Ok((account.available as i128 - amount as i128, account.held as i128 + amount as i128, account.locked, marked))
            },
            // Disputing a withdrawal: its amount is restored, as held funds.
            TxKind::Withdrawal => Ok((account.available as i128, account.held as i128 + amount as i128, account.locked, marked)),
            _ => Err(EngineError::InvalidDisputeTarget(transaction.tx.to_string())),
        }
    }

    /// What a resolve would settle to.
    fn decide_resolve(&self, transaction: &Transaction) -> (r: Result<(i128, i128, bool, LedgerEntry), EngineError>)
        requires
            self.wf(),
            transaction.kind == TxKind::Resolve,
        ensures
            decided(r, settlement(self@, *transaction)),
    {
        let (entry, account) = self.check_disputable(transaction, EngineErrorKind::ResolveNonExistentTransaction, true)?;
        let amount = entry.amount;
        if account.held < amount {
            return Err(EngineError::InsufficientHeldFunds(transaction.tx.to_string()));
        }
        let cleared = LedgerEntry { disputed: false, charged_back: false, ..entry };
        match entry.kind {
            // Resolving a deposit: its amount moves back to available funds.
            TxKind::Deposit => Ok((account.available as i128 + amount as i128, account.held as i128 - amount as i128, account.locked, cleared)),
            // Resolving a withdrawal: the restored amount is dropped again.
            TxKind::Withdrawal => Ok((account.available as i128, account.held as i128 - amount as i128, account.locked, cleared)),
            _ => Err(EngineError::InvalidResolveTarget(transaction.tx.to_string())),
        }
    }

    /// What a chargeback would settle to.
    fn decide_chargeback(&self, transaction: &Transaction) -> (r: Result<(i128, i128, bool, LedgerEntry), EngineError>)
        requires
            self.wf(),
            transaction.kind == TxKind::Chargeback,
        ensures
            decided(r, settlement(self@, *transaction)),
    {
        let (entry, account) = self.check_disputable(transaction, EngineErrorKind::ChargebackNonExistentTransaction, true)?;
        let amount = entry.amount;
        if account.held < amount {
            return Err(EngineError::InsufficientHeldFunds(transaction.tx.to_string()));
        }
        let charged = LedgerEntry { disputed: false, charged_back: true, ..entry };
        match entry.kind {
            // Charging back a deposit: the held amount leaves the system.
            TxKind::Deposit => Ok((account.available as i128, account.held as i128 - amount as i128, true, charged)),
            // Charging back a withdrawal: the withdrawal is reversed for good.
            TxKind::Withdrawal => Ok((account.available as i128 + amount as i128, account.held as i128 - amount as i128, true, charged)),
            _ => Err(EngineError::InvalidChargebackTarget(transaction.tx.to_string())),
        }
    }

    /// What a transaction would settle to, without applying it.
    fn decide(&self, transaction: &Transaction) -> (r: Result<(i128, i128, bool, LedgerEntry), EngineError>)
        requires
            self.wf(),
        ensures
            decided(r, settlement(self@, *transaction)),
    {
        match transaction.kind {
            TxKind::Deposit => self.decide_transfer(transaction),
            TxKind::Withdrawal => self.decide_transfer(transaction),
            TxKind::Dispute => self.decide_dispute(transaction),
            TxKind::Resolve => self.decide_resolve(transaction),
            TxKind::Chargeback => self.decide_chargeback(transaction),
        }
    }

    /// Whether applying the transaction leaves balances that fit in `i64`;
    /// `apply` may only be called where it does (`law_small_volumes_fit` gives
    /// it without a test where the client's amounts add up to at most `i64::MAX`).
    pub fn fits(&self, transaction: &Transaction) -> (r: bool)
        requires
            self.wf(),
        ensures
            r == balances_fit(self@, *transaction),
    {
        match self.decide(transaction) {
            Ok((available, held, _, _)) => available <= i64::MAX as i128 && held <= i64::MAX as i128,
            Err(_) => true,
        }
    }

    /// Applies one transaction. A refused transaction changes nothing: an
    /// account is opened only by an accepted deposit or withdrawal, after all
    /// of its checks have passed.
    pub fn apply(&mut self, transaction: &Transaction) -> (r: Result<(), EngineError>)
        requires
            old(self).wf(),
            balances_fit(old(self)@, *transaction),
        ensures
            final(self).wf(),
            final(self)@ == applied(old(self)@, *transaction),
            reports(r, settlement(old(self)@, *transaction)),
            r is Err ==> final(self)@ == old(self)@,
    {
        proof {
            law_held_funds_track_disputes(old(self)@, *transaction);
            law_totals_track_ledger(old(self)@, *transaction);
            law_locks_track_chargebacks(old(self)@, *transaction);
        }
        match self.decide(transaction) {
            Ok((available, held, locked, entry)) => {
                let account = Account {
                    client: transaction.client,
                    available: available as i64,
                    held: held as i64,
                    locked,
                };
                self.accounts.insert(transaction.client.0, account);
                self.ledger.insert(transaction.tx.0, entry);
                assert(self@ == applied(old(self)@, *transaction));
                Ok(())
            },
            Err(e) => Err(e),
        }
    }
}

} // verus!

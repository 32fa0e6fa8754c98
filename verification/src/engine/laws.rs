//! What every transaction keeps, and what pairs of transactions do together.

use vstd::prelude::*;

use crate::error::engine_error::EngineErrorKind;

use super::engine::{
    applied, balances_fit, refuse, settlement, valid_state, EngineView,
};
use super::ledger_entry::LedgerEntry;
use super::transaction::{Transaction, TxKind};

verus! {

/// A transaction changes no account but its client's, and no ledger entry but
/// its own.
pub proof fn law_transaction_touches_only_its_client(v: EngineView, tx: Transaction)
    ensures
        forall|c: u16|
            c != tx.client.0 ==> (#[trigger] applied(v, tx).accounts.contains_key(c)
                == v.accounts.contains_key(c) && applied(v, tx).accounts[c] == v.accounts[c]),
        forall|t: u32|
            t != tx.tx.0 ==> (#[trigger] applied(v, tx).ledger.contains_key(t)
                == v.ledger.contains_key(t) && applied(v, tx).ledger[t] == v.ledger[t]),
{
}

/// A refused transaction changes nothing: no account is opened or modified and
/// no transaction identifier is taken.
pub proof fn law_refusal_changes_nothing(v: EngineView, tx: Transaction)
    requires
        settlement(v, tx) is Err,
    ensures
        applied(v, tx) == v,
{
}

/// A locked account never changes again, and every transaction of its client
/// is refused.
pub proof fn law_locked_account_is_frozen(v: EngineView, tx: Transaction, c: u16)
    requires
        valid_state(v),
        v.accounts.contains_key(c),
        v.accounts[c].locked,
    ensures
        applied(v, tx).accounts.contains_key(c),
        applied(v, tx).accounts[c] == v.accounts[c],
        tx.client.0 == c ==> settlement(v, tx) is Err,
{
}

/// A deposit or withdrawal is applied at most once: once one is accepted, any
/// later deposit or withdrawal with the same identifier is refused as a
/// duplicate and changes nothing.
pub proof fn law_transaction_applied_at_most_once(v: EngineView, tx: Transaction, again: Transaction)
    requires
        valid_state(v),
        tx.kind == TxKind::Deposit || tx.kind == TxKind::Withdrawal,
        again.kind == TxKind::Deposit || again.kind == TxKind::Withdrawal,
        settlement(v, tx) is Ok,
        again.tx == tx.tx,
    ensures
        settlement(applied(v, tx), again) == refuse(EngineErrorKind::DuplicateTransaction, again),
        applied(applied(v, tx), again) == applied(v, tx),
{
}

/// An accepted dispute can always be resolved, and the resolve puts the
/// engine back exactly as it was before the dispute, for deposits and
/// withdrawals alike.
pub proof fn law_resolve_undoes_dispute(v: EngineView, dispute: Transaction, resolve: Transaction)
    requires
        valid_state(v),
        dispute.kind == TxKind::Dispute,
        settlement(v, dispute) is Ok,
        balances_fit(v, dispute),
        resolve.kind == TxKind::Resolve,
        resolve.client == dispute.client,
        resolve.tx == dispute.tx,
    ensures
        settlement(applied(v, dispute), resolve) is Ok,
        applied(applied(v, dispute), resolve) == v,
{
    let c = dispute.client.0;
    let t = dispute.tx.0;
    let mid = applied(v, dispute);
    let end = applied(mid, resolve);
    assert(end.accounts =~= v.accounts);
    assert(end.ledger =~= v.ledger);
}

/// After an accepted dispute a chargeback is accepted. It locks the account,
/// releases the held amount and reverses the disputed transaction: a
/// deposit's amount leaves the account, a withdrawal's returns to the
/// available funds.
pub proof fn law_chargeback_reverses_disputed_transaction(
    v: EngineView,
    dispute: Transaction,
    chargeback: Transaction,
)
    requires
        valid_state(v),
        dispute.kind == TxKind::Dispute,
        settlement(v, dispute) is Ok,
        balances_fit(v, dispute),
        chargeback.kind == TxKind::Chargeback,
        chargeback.client == dispute.client,
        chargeback.tx == dispute.tx,
        balances_fit(applied(v, dispute), chargeback),
    ensures
        settlement(applied(v, dispute), chargeback) is Ok,
        ({
            let before = v.accounts[dispute.client.0];
            let entry = v.ledger[dispute.tx.0];
            let after = applied(applied(v, dispute), chargeback);
            &&& after.accounts[dispute.client.0].locked
            &&& after.accounts[dispute.client.0].held == before.held
            &&& entry.kind == TxKind::Deposit ==> after.accounts[dispute.client.0].available
                == before.available - entry.amount
            &&& entry.kind == TxKind::Withdrawal ==> after.accounts[dispute.client.0].available
                == before.available + entry.amount
            &&& after.ledger[dispute.tx.0].charged_back
            &&& !after.ledger[dispute.tx.0].disputed
        }),
{
}

/// What the ledger is summed for, per client.
pub enum Tally {
    /// The amounts under dispute.
    Held,
    /// The net effect on the client's total: deposits not charged back, less
    /// withdrawals neither charged back nor under dispute.
    Balance,
    /// The amounts of all applied deposits and withdrawals.
    Volume,
}

/// What one ledger entry counts for in a tally.
pub open spec fn entry_value(tally: Tally, e: LedgerEntry) -> int {
    match tally {
        Tally::Held => if e.disputed {
            e.amount as int
        } else {
            0
        },
        Tally::Balance => if e.kind == TxKind::Deposit {
            if e.charged_back {
                0
            } else {
                e.amount as int
            }
        } else if e.charged_back || e.disputed {
            0
        } else {
            -e.amount
        },
        Tally::Volume => e.amount as int,
    }
}

/// What ledger entry `t` counts for in client `c`'s tally.
pub open spec fn share(ledger: Map<u32, LedgerEntry>, c: u16, t: u32, tally: Tally) -> int {
    if ledger.contains_key(t) && ledger[t].client.0 == c {
        entry_value(tally, ledger[t])
    } else {
        0
    }
}

/// Client `c`'s tally over a finite set of entries.
pub open spec fn ledger_sum(ledger: Map<u32, LedgerEntry>, c: u16, keys: Set<u32>, tally: Tally) -> int
    decreases keys.len(),
{
    if keys.finite() && keys.len() > 0 {
        let t = keys.choose();
        share(ledger, c, t, tally) + ledger_sum(ledger, c, keys.remove(t), tally)
    } else {
        0
    }
}

/// Client `c`'s tally over the whole ledger.
pub open spec fn client_tally(ledger: Map<u32, LedgerEntry>, c: u16, tally: Tally) -> int {
    ledger_sum(ledger, c, ledger.dom(), tally)
}

/// The amounts of client `c`'s transactions that are under dispute.
pub open spec fn disputed_total(ledger: Map<u32, LedgerEntry>, c: u16) -> int {
    client_tally(ledger, c, Tally::Held)
}

/// Every account holds exactly the amounts of its transactions under dispute.
pub open spec fn held_matches_disputes(v: EngineView) -> bool {
    forall|c: u16| #[trigger]
        v.accounts.contains_key(c) ==> v.accounts[c].held == disputed_total(v.ledger, c)
}

/// Every account's total (available and held) is its deposits, less its
/// withdrawals, less its charged-back deposits, plus its charged-back
/// withdrawals, plus its withdrawals under dispute.
pub open spec fn totals_match_ledger(v: EngineView) -> bool {
    forall|c: u16| #[trigger]
        v.accounts.contains_key(c) ==> v.accounts[c].spec_total() == client_tally(v.ledger, c, Tally::Balance)
}

/// Client `c` has a transaction that was charged back.
pub open spec fn has_chargeback(ledger: Map<u32, LedgerEntry>, c: u16) -> bool {
    exists|t: u32| #[trigger] ledger.contains_key(t) && ledger[t].client.0 == c && ledger[t].charged_back
}

/// An account is locked exactly when one of its transactions was charged back.
pub open spec fn locks_match_chargebacks(v: EngineView) -> bool {
    forall|c: u16| #[trigger]
        v.accounts.contains_key(c) ==> (v.accounts[c].locked <==> has_chargeback(v.ledger, c))
}

/// The amount a transaction adds to its client's volume when accepted.
pub open spec fn added_volume(tx: Transaction) -> int {
    if tx.kind == TxKind::Deposit || tx.kind == TxKind::Withdrawal {
        match tx.amount {
            Some(amount) => amount as int,
            None => 0,
        }
    } else {
        0
    }
}

proof fn lemma_sum_remove(ledger: Map<u32, LedgerEntry>, c: u16, keys: Set<u32>, t: u32, tally: Tally)
    requires
        keys.finite(),
        keys.contains(t),
    ensures
        ledger_sum(ledger, c, keys, tally) == share(ledger, c, t, tally) + ledger_sum(ledger, c, keys.remove(t), tally),
    decreases keys.len(),
{
    let u = keys.choose();
    if u != t {
        lemma_sum_remove(ledger, c, keys.remove(u), t, tally);
        lemma_sum_remove(ledger, c, keys.remove(t), u, tally);
        assert(keys.remove(u).remove(t) =~= keys.remove(t).remove(u));
    }
}

/// Sums keep the order of their shares.
proof fn lemma_sum_le(
    l1: Map<u32, LedgerEntry>,
    tally1: Tally,
    l2: Map<u32, LedgerEntry>,
    tally2: Tally,
    c: u16,
    keys: Set<u32>,
)
    requires
        keys.finite(),
        forall|k: u32| keys.contains(k) ==> share(l1, c, k, tally1) <= share(l2, c, k, tally2),
    ensures
        ledger_sum(l1, c, keys, tally1) <= ledger_sum(l2, c, keys, tally2),
    decreases keys.len(),
{
    if keys.len() > 0 {
        let t = keys.choose();
        lemma_sum_le(l1, tally1, l2, tally2, c, keys.remove(t));
    }
}

proof fn lemma_sum_same(l1: Map<u32, LedgerEntry>, l2: Map<u32, LedgerEntry>, c: u16, keys: Set<u32>, tally: Tally)
    requires
        keys.finite(),
        forall|k: u32| keys.contains(k) ==> share(l1, c, k, tally) == share(l2, c, k, tally),
    ensures
        ledger_sum(l1, c, keys, tally) == ledger_sum(l2, c, keys, tally),
{
    lemma_sum_le(l1, tally, l2, tally, c, keys);
    lemma_sum_le(l2, tally, l1, tally, c, keys);
}

proof fn lemma_sum_of_empty(c: u16, keys: Set<u32>, tally: Tally)
    requires
        keys.finite(),
    ensures
        ledger_sum(Map::<u32, LedgerEntry>::empty(), c, keys, tally) == 0,
    decreases keys.len(),
{
    if keys.len() > 0 {
        let t = keys.choose();
        lemma_sum_of_empty(c, keys.remove(t), tally);
    }
}

/// Writing entry `t` changes client `c`'s tally by the change of that
/// entry's share.
proof fn lemma_tally_after_insert(ledger: Map<u32, LedgerEntry>, c: u16, t: u32, e: LedgerEntry, tally: Tally)
    requires
        ledger.dom().finite(),
    ensures
        client_tally(ledger.insert(t, e), c, tally) == client_tally(ledger, c, tally) - share(ledger, c, t, tally)
            + share(ledger.insert(t, e), c, t, tally),
{
    let l2 = ledger.insert(t, e);
    let rest = ledger.dom().remove(t);
    lemma_sum_same(ledger, l2, c, rest, tally);
    lemma_sum_remove(l2, c, l2.dom(), t, tally);
    assert(l2.dom().remove(t) =~= rest);
    if ledger.dom().contains(t) {
        lemma_sum_remove(ledger, c, ledger.dom(), t, tally);
    } else {
        assert(ledger.dom().remove(t) =~= ledger.dom());
    }
}

/// A client without an account has no transactions, so every tally is zero.
proof fn lemma_no_account_no_tally(v: EngineView, c: u16, tally: Tally)
    requires
        valid_state(v),
        !v.accounts.contains_key(c),
    ensures
        client_tally(v.ledger, c, tally) == 0,
        !has_chargeback(v.ledger, c),
{
    let empty = Map::<u32, LedgerEntry>::empty();
    assert forall|k: u32| v.ledger.dom().contains(k) implies share(v.ledger, c, k, tally) == share(empty, c, k, tally) by {}
    lemma_sum_same(v.ledger, empty, c, v.ledger.dom(), tally);
    lemma_sum_of_empty(c, v.ledger.dom(), tally);
}

/// Shares of the held and balance tallies never exceed the volume share of
/// a valid ledger, and held shares are never negative.
proof fn lemma_tallies_bounded(ledger: Map<u32, LedgerEntry>, c: u16)
    requires
        ledger.dom().finite(),
        forall|t: u32| #[trigger] ledger.contains_key(t) ==> ledger[t].amount > 0,
    ensures
        0 <= client_tally(ledger, c, Tally::Held),
        client_tally(ledger, c, Tally::Balance) <= client_tally(ledger, c, Tally::Volume),
{
    let empty = Map::<u32, LedgerEntry>::empty();
    lemma_sum_of_empty(c, ledger.dom(), Tally::Held);
    lemma_sum_le(empty, Tally::Held, ledger, Tally::Held, c, ledger.dom());
    lemma_sum_le(ledger, Tally::Balance, ledger, Tally::Volume, c, ledger.dom());
}

/// The balances an accepted transaction settles to agree with the ledger it
/// leaves: the held funds are the amounts under dispute, the total is the
/// balance tally, neither is negative, and the client's volume grows by the
/// transaction's own amount.
proof fn lemma_settlement_agrees_with_ledger(v: EngineView, tx: Transaction)
    requires
        valid_state(v),
        held_matches_disputes(v),
        totals_match_ledger(v),
        settlement(v, tx) is Ok,
    ensures
        ({
            let (available, held, locked, entry) = settlement(v, tx)->Ok_0;
            let after = v.ledger.insert(tx.tx.0, entry);
            &&& available >= 0
            &&& held >= 0
            &&& entry.amount > 0
            &&& entry.client == tx.client
            &&& held == client_tally(after, tx.client.0, Tally::Held)
            &&& available + held == client_tally(after, tx.client.0, Tally::Balance)
            &&& client_tally(after, tx.client.0, Tally::Volume) == client_tally(v.ledger, tx.client.0, Tally::Volume)
                + added_volume(tx)
        }),
{
    let c = tx.client.0;
    let t = tx.tx.0;
    let (available, held, locked, entry) = settlement(v, tx)->Ok_0;
    lemma_tally_after_insert(v.ledger, c, t, entry, Tally::Held);
    lemma_tally_after_insert(v.ledger, c, t, entry, Tally::Balance);
    lemma_tally_after_insert(v.ledger, c, t, entry, Tally::Volume);
    if !v.accounts.contains_key(c) {
        lemma_no_account_no_tally(v, c, Tally::Held);
        lemma_no_account_no_tally(v, c, Tally::Balance);
    }
}

/// Every transaction keeps each account's held funds equal to the amounts of
/// its transactions under dispute.
pub proof fn law_held_funds_track_disputes(v: EngineView, tx: Transaction)
    requires
        valid_state(v),
        held_matches_disputes(v),
        totals_match_ledger(v),
        balances_fit(v, tx),
    ensures
        held_matches_disputes(applied(v, tx)),
{
    let c = tx.client.0;
    let t = tx.tx.0;
    let w = applied(v, tx);
    if settlement(v, tx) is Ok {
        let (available, held, locked, entry) = settlement(v, tx)->Ok_0;
        lemma_settlement_agrees_with_ledger(v, tx);
        assert forall|d: u16| #[trigger] w.accounts.contains_key(d) implies w.accounts[d].held
            == disputed_total(w.ledger, d) by {
            if d != c {
                lemma_tally_after_insert(v.ledger, d, t, entry, Tally::Held);
            }
        }
    }
}

/// Every transaction keeps each account's total equal to its deposits, less
/// its withdrawals, less its charged-back deposits, plus its charged-back
/// withdrawals, plus its withdrawals under dispute.
pub proof fn law_totals_track_ledger(v: EngineView, tx: Transaction)
    requires
        valid_state(v),
        held_matches_disputes(v),
        totals_match_ledger(v),
        balances_fit(v, tx),
    ensures
        totals_match_ledger(applied(v, tx)),
{
    let c = tx.client.0;
    let t = tx.tx.0;
    let w = applied(v, tx);
    if settlement(v, tx) is Ok {
        let (available, held, locked, entry) = settlement(v, tx)->Ok_0;
        lemma_settlement_agrees_with_ledger(v, tx);
        assert forall|d: u16| #[trigger] w.accounts.contains_key(d) implies w.accounts[d].spec_total()
            == client_tally(w.ledger, d, Tally::Balance) by {
            if d != c {
                lemma_tally_after_insert(v.ledger, d, t, entry, Tally::Balance);
            }
        }
    }
}

/// Every transaction keeps each account locked exactly when one of its
/// transactions was charged back: only an accepted chargeback locks, and
/// nothing unlocks.
pub proof fn law_locks_track_chargebacks(v: EngineView, tx: Transaction)
    requires
        valid_state(v),
        held_matches_disputes(v),
        totals_match_ledger(v),
        locks_match_chargebacks(v),
    ensures
        locks_match_chargebacks(applied(v, tx)),
{
    let c = tx.client.0;
    let t = tx.tx.0;
    let w = applied(v, tx);
    if settlement(v, tx) is Ok {
        let (available, held, locked, entry) = settlement(v, tx)->Ok_0;
        lemma_settlement_agrees_with_ledger(v, tx);
        assert forall|d: u16| #[trigger] w.accounts.contains_key(d) implies (w.accounts[d].locked
            <==> has_chargeback(w.ledger, d)) by {
            if has_chargeback(v.ledger, d) {
                let u = choose|u: u32| #[trigger] v.ledger.contains_key(u) && v.ledger[u].client.0 == d
                    && v.ledger[u].charged_back;
                if u != t {
                    assert(w.ledger.contains_key(u) && w.ledger[u] == v.ledger[u]);
                }
            }
            if has_chargeback(w.ledger, d) {
                let u = choose|u: u32| #[trigger] w.ledger.contains_key(u) && w.ledger[u].client.0 == d
                    && w.ledger[u].charged_back;
                if u != t {
                    assert(v.ledger.contains_key(u) && v.ledger[u] == w.ledger[u]);
                }
            }
            if d == c {
                if !v.accounts.contains_key(c) {
                    lemma_no_account_no_tally(v, c, Tally::Held);
                }
                if entry.charged_back {
                    assert(w.ledger.contains_key(t) && w.ledger[t].client.0 == d && w.ledger[t].charged_back);
                }
            }
        }
    }
}

/// The engine starts with its accounts agreeing with its ledger.
pub proof fn law_engine_starts_consistent(v: EngineView)
    requires
        v.accounts == Map::<u16, super::account::Account>::empty(),
    ensures
        held_matches_disputes(v),
        totals_match_ledger(v),
        locks_match_chargebacks(v),
{
}

/// While held funds match the disputes, a disputed transaction's amount is
/// always covered by its client's held funds, so no resolve or chargeback of
/// it is refused for lack of held funds.
pub proof fn law_disputed_amount_is_held(v: EngineView, t: u32)
    requires
        valid_state(v),
        held_matches_disputes(v),
        v.ledger.contains_key(t),
        v.ledger[t].disputed,
    ensures
        v.accounts[v.ledger[t].client.0].held >= v.ledger[t].amount,
{
    let c = v.ledger[t].client.0;
    let empty = Map::<u32, LedgerEntry>::empty();
    let rest = v.ledger.dom().remove(t);
    lemma_sum_remove(v.ledger, c, v.ledger.dom(), t, Tally::Held);
    lemma_sum_of_empty(c, rest, Tally::Held);
    lemma_sum_le(empty, Tally::Held, v.ledger, Tally::Held, c, rest);
}

/// In a state whose accounts agree with the ledger, no account's funds are
/// negative and every account's total is at most the amounts of all its
/// applied deposits and withdrawals: where those add up to at most
/// `i64::MAX`, the total fits in `i64`.
pub proof fn law_totals_within_volume(v: EngineView)
    requires
        valid_state(v),
        held_matches_disputes(v),
        totals_match_ledger(v),
    ensures
        forall|c: u16| #[trigger]
            v.accounts.contains_key(c) ==> 0 <= v.accounts[c].spec_total() <= client_tally(
                v.ledger,
                c,
                Tally::Volume,
            ),
{
    assert forall|c: u16| #[trigger] v.accounts.contains_key(c) implies 0 <= v.accounts[c].spec_total()
        <= client_tally(v.ledger, c, Tally::Volume) by {
        lemma_tallies_bounded(v.ledger, c);
    }
}

/// Where a client's deposits and withdrawals, this transaction included, add
/// up to at most `i64::MAX`, the transaction's balances fit in `i64`, and so
/// does the account's total: `apply` may be called without testing `fits`.
pub proof fn law_small_volumes_fit(v: EngineView, tx: Transaction)
    requires
        valid_state(v),
        held_matches_disputes(v),
        totals_match_ledger(v),
        client_tally(v.ledger, tx.client.0, Tally::Volume) + added_volume(tx) <= i64::MAX,
    ensures
        balances_fit(v, tx),
        settlement(v, tx) matches Ok((available, held, _, _)) ==> available + held <= i64::MAX,
{
    if settlement(v, tx) is Ok {
        let (available, held, locked, entry) = settlement(v, tx)->Ok_0;
        lemma_settlement_agrees_with_ledger(v, tx);
        let after = v.ledger.insert(tx.tx.0, entry);
        lemma_tallies_bounded(after, tx.client.0);
    }
}

/// The available funds of client `c`: zero for a client without an account.
pub open spec fn available_of(v: EngineView, c: u16) -> int {
    if v.accounts.contains_key(c) {
        v.accounts[c].available as int
    } else {
        0
    }
}

/// The held funds of client `c`: zero for a client without an account.
pub open spec fn held_of(v: EngineView, c: u16) -> int {
    if v.accounts.contains_key(c) {
        v.accounts[c].held as int
    } else {
        0
    }
}

/// Client `c` has a locked account.
pub open spec fn is_locked(v: EngineView, c: u16) -> bool {
    v.accounts.contains_key(c) && v.accounts[c].locked
}

/// A deposit is accepted exactly when its identifier is new, it carries a
/// positive amount and the client's account is not locked (a new client is
/// welcome); it adds its amount to the available funds and leaves the held
/// funds and the lock alone.
pub proof fn law_deposit_credits_available(v: EngineView, tx: Transaction)
    requires
        tx.kind == TxKind::Deposit,
    ensures
        settlement(v, tx) is Ok <==> (!v.ledger.contains_key(tx.tx.0) && (tx.amount matches Some(x) && x > 0)
            && !is_locked(v, tx.client.0)),
        settlement(v, tx) is Ok && balances_fit(v, tx) ==> ({
            let after = applied(v, tx);
            let c = tx.client.0;
            &&& after.accounts.contains_key(c)
            &&& after.accounts[c].available == available_of(v, c) + tx.amount->Some_0
            &&& after.accounts[c].held == held_of(v, c)
            &&& !after.accounts[c].locked
            &&& after.ledger.contains_key(tx.tx.0)
        }),
{
}

/// A withdrawal with a new identifier and a positive amount, of a client
/// whose account is not locked, is accepted exactly when the amount is at
/// most the available funds, whatever funds are held; it takes its amount
/// from the available funds and leaves the held funds and the lock alone.
pub proof fn law_withdrawal_needs_available_funds(v: EngineView, tx: Transaction)
    requires
        tx.kind == TxKind::Withdrawal,
    ensures
        settlement(v, tx) is Ok <==> (!v.ledger.contains_key(tx.tx.0) && (tx.amount matches Some(x) && x > 0
            && x <= available_of(v, tx.client.0)) && !is_locked(v, tx.client.0)),
        settlement(v, tx) is Ok ==> ({
            let after = applied(v, tx);
            let c = tx.client.0;
            &&& after.accounts.contains_key(c)
            &&& after.accounts[c].available == available_of(v, c) - tx.amount->Some_0
            &&& after.accounts[c].held == held_of(v, c)
            &&& !after.accounts[c].locked
            &&& after.ledger.contains_key(tx.tx.0)
        }),
{
}

/// The conditions under which a dispute, resolve or chargeback finds its
/// transaction: it exists, is the client's, is (for a dispute: is not) under
/// dispute, is not charged back, and the client's account exists unlocked.
pub open spec fn finds_disputable(v: EngineView, tx: Transaction, disputed: bool) -> bool {
    &&& v.ledger.contains_key(tx.tx.0)
    &&& v.ledger[tx.tx.0].client == tx.client
    &&& v.ledger[tx.tx.0].disputed == disputed
    &&& !v.ledger[tx.tx.0].charged_back
    &&& v.accounts.contains_key(tx.client.0)
    &&& !v.accounts[tx.client.0].locked
}

/// A dispute that finds its transaction is accepted, whatever funds are
/// already held, except that a disputed deposit must be covered by the
/// available funds. A disputed deposit's amount moves from available to held
/// funds; a disputed withdrawal's amount is added to the held funds.
pub proof fn law_dispute_holds_the_amount(v: EngineView, tx: Transaction)
    requires
        valid_state(v),
        tx.kind == TxKind::Dispute,
    ensures
        settlement(v, tx) is Ok <==> (finds_disputable(v, tx, false) && (v.ledger[tx.tx.0].kind == TxKind::Deposit
            ==> v.ledger[tx.tx.0].amount <= v.accounts[tx.client.0].available)),
        settlement(v, tx) is Ok && balances_fit(v, tx) ==> ({
            let before = v.accounts[tx.client.0];
            let e = v.ledger[tx.tx.0];
            let after = applied(v, tx);
            let a = after.accounts[tx.client.0];
            &&& after.accounts.contains_key(tx.client.0)
            &&& a.held == before.held + e.amount
            &&& a.available == before.available - (if e.kind == TxKind::Deposit { e.amount as int } else { 0 })
            &&& !a.locked
            &&& after.ledger[tx.tx.0].disputed
        }),
{
}

/// In a state whose held funds match its disputes, a resolve that finds its
/// disputed transaction is always accepted. A resolved deposit's amount moves
/// back from held to available funds; a resolved withdrawal's amount leaves
/// the held funds. The transaction is no longer under dispute.
pub proof fn law_resolve_releases_the_amount(v: EngineView, tx: Transaction)
    requires
        valid_state(v),
        held_matches_disputes(v),
        tx.kind == TxKind::Resolve,
    ensures
        settlement(v, tx) is Ok <==> finds_disputable(v, tx, true),
        settlement(v, tx) is Ok && balances_fit(v, tx) ==> ({
            let before = v.accounts[tx.client.0];
            let e = v.ledger[tx.tx.0];
            let after = applied(v, tx);
            let a = after.accounts[tx.client.0];
            &&& after.accounts.contains_key(tx.client.0)
            &&& a.held == before.held - e.amount
            &&& a.available == before.available + (if e.kind == TxKind::Deposit { e.amount as int } else { 0 })
            &&& !a.locked
            &&& !after.ledger[tx.tx.0].disputed
            &&& !after.ledger[tx.tx.0].charged_back
        }),
{
    if finds_disputable(v, tx, true) {
        law_disputed_amount_is_held(v, tx.tx.0);
    }
}

/// In a state whose held funds match its disputes, a chargeback that finds
/// its disputed transaction is always accepted and locks the account. A
/// charged-back deposit's amount leaves the held funds; a charged-back
/// withdrawal's amount moves from held to available funds.
pub proof fn law_chargeback_locks_and_settles(v: EngineView, tx: Transaction)
    requires
        valid_state(v),
        held_matches_disputes(v),
        tx.kind == TxKind::Chargeback,
    ensures
        settlement(v, tx) is Ok <==> finds_disputable(v, tx, true),
        settlement(v, tx) is Ok && balances_fit(v, tx) ==> ({
            let before = v.accounts[tx.client.0];
            let e = v.ledger[tx.tx.0];
            let after = applied(v, tx);
            let a = after.accounts[tx.client.0];
            &&& after.accounts.contains_key(tx.client.0)
            &&& a.held == before.held - e.amount
            &&& a.available == before.available + (if e.kind == TxKind::Withdrawal { e.amount as int } else { 0 })
            &&& a.locked
            &&& !after.ledger[tx.tx.0].disputed
            &&& after.ledger[tx.tx.0].charged_back
        }),
{
    if finds_disputable(v, tx, true) {
        law_disputed_amount_is_held(v, tx.tx.0);
    }
}

} // verus!

//! What the account state machine guarantees over the dispute lifecycle and
//! over runs of deposits.

use crate::amount::{decimal_difference, decimal_sum, Amount};
use crate::dispatch::run;
use crate::transaction::{Kind, Transaction, TransactionId};
use crate::transaction_engine::{
    available_of, first_of_kind, fresh_ledger, lookup, record, step, Ledger, Lock,
    TransactionTruncated,
};
use vstd::prelude::*;

verus! {

/// Appending an entry does not move the earliest entry of a kind, and makes
/// the new entry the earliest where there was none.
proof fn lemma_first_of_kind_push(s: Seq<TransactionTruncated>, e: TransactionTruncated, kind: Kind)
    ensures
        first_of_kind(s.push(e), kind) == (if first_of_kind(s, kind) is Some {
            first_of_kind(s, kind)
        } else if e.kind == kind {
            Some(e)
        } else {
            None
        }),
    decreases s.len(),
{
    assert(first_of_kind(Seq::<TransactionTruncated>::empty(), kind) is None);
    if s.len() > 0 {
        assert(s.push(e)[0] == s[0]);
        assert(s.push(e).drop_first() =~= s.drop_first().push(e));
        lemma_first_of_kind_push(s.drop_first(), e, kind);
    } else {
        assert(s.push(e)[0] == e);
        assert(s.push(e).drop_first() =~= Seq::<TransactionTruncated>::empty());
    }
}

/// Lookups in the history after `t` is recorded.
proof fn lemma_lookup_after_record(l: Ledger, t: Transaction, id: TransactionId, kind: Kind)
    ensures
        lookup(record(l, t).history, id, kind) == (if id != t.transaction_id || lookup(
            l.history,
            id,
            kind,
        ) is Some {
            lookup(l.history, id, kind)
        } else if t.kind == kind {
            Some(TransactionTruncated { kind: t.kind, amount: t.amount })
        } else {
            None
        }),
{
    let e = TransactionTruncated { kind: t.kind, amount: t.amount };
    if id == t.transaction_id {
        if l.history.contains_key(id) {
            lemma_first_of_kind_push(l.history[id], e, kind);
        } else {
            lemma_first_of_kind_push(Seq::empty(), e, kind);
        }
    }
}

/// `decimal_sum(a, b)` is the exact sum.
pub open spec fn sum_is_exact(a: Amount, b: Amount) -> bool {
    decimal_sum(a, b) matches Some(c) && c.value() == a.value() + b.value()
}

/// `decimal_difference(a, b)` is the exact difference.
pub open spec fn difference_is_exact(a: Amount, b: Amount) -> bool {
    decimal_difference(a, b) matches Some(c) && c.value() == a.value() - b.value()
}

/// The sum of the amounts of `txs`, as values.
pub open spec fn deposited(txs: Seq<Transaction>) -> int
    decreases txs.len(),
{
    if txs.len() == 0 {
        0
    } else {
        txs[0].amount->0.value() + deposited(txs.drop_first())
    }
}

/// Each deposit of `txs`, added in turn to `total`, is added exactly.
pub open spec fn deposits_exact(total: Amount, txs: Seq<Transaction>) -> bool
    decreases txs.len(),
{
    txs.len() > 0 ==> {
        &&& sum_is_exact(total, txs[0].amount->0)
        &&& deposits_exact(decimal_sum(total, txs[0].amount->0)->0, txs.drop_first())
    }
}

/// Deposits only: the total ends as the start plus the sum of the deposited
/// amounts, and the held funds do not change.
pub proof fn lemma_deposits_sum(l: Ledger, txs: Seq<Transaction>)
    requires
        forall|i: int|
            0 <= i < txs.len() ==> #[trigger] txs[i].kind == Kind::Deposit && txs[i].amount is Some,
        deposits_exact(l.total, txs),
    ensures
        run(l, txs) matches Ok(l2) && l2.total.value() == l.total.value() + deposited(txs)
            && l2.held == l.held && l2.locked == l.locked,
    decreases txs.len(),
{
    if txs.len() > 0 {
        let t = txs[0];
        assert(t.kind == Kind::Deposit && t.amount is Some);
        let l1 = step(l, t)->Ok_0;
        let rest = txs.drop_first();
        assert forall|i: int| 0 <= i < rest.len() implies #[trigger] rest[i].kind == Kind::Deposit
            && rest[i].amount is Some by {
            assert(rest[i] == txs[i + 1]);
        }
        lemma_deposits_sum(l1, rest);
    }
}

/// From a new account, deposits only: the total is the sum of the deposited
/// amounts and nothing is held.
pub proof fn lemma_fresh_deposits_sum(txs: Seq<Transaction>)
    requires
        forall|i: int|
            0 <= i < txs.len() ==> #[trigger] txs[i].kind == Kind::Deposit && txs[i].amount is Some,
        deposits_exact(fresh_ledger().total, txs),
    ensures
        run(fresh_ledger(), txs) matches Ok(l2) && l2.total.value() == deposited(txs)
            && l2.held.value() == 0,
{
    assert(fresh_ledger().total.value() == 0);
    assert(fresh_ledger().held.value() == 0);
    lemma_deposits_sum(fresh_ledger(), txs);
}

/// A withdrawal of more than the available funds is turned down: it is
/// recorded, and the balances and the lock stay as they were.
pub proof fn lemma_rejected_withdrawal_keeps_total(l: Ledger, t: Transaction)
    requires
        t.kind == Kind::Withdrawal,
        t.amount is Some,
        available_of(l) matches Some(av) && av.value() < t.amount->0.value(),
    ensures
        step(l, t) matches Ok(l2) && l2.total == l.total && l2.held == l.held && l2.locked
            == l.locked,
{
}

/// A dispute and then a resolve of the same deposit bring the held funds
/// back to their value before the dispute, and leave the total untouched,
/// where held funds were not negative and the decimal arithmetic is exact.
pub proof fn lemma_dispute_then_resolve(l: Ledger, d: Transaction, r: Transaction)
    requires
        d.kind == Kind::Dispute,
        r.kind == Kind::Resolve,
        d.transaction_id == r.transaction_id,
        l.held.value() >= 0,
        lookup(l.history, d.transaction_id, Kind::Deposit) matches Some(dep) && dep.amount matches Some(a)
            && sum_is_exact(l.held, a) && difference_is_exact(decimal_sum(l.held, a)->0, a),
    ensures
        ({
            let a = lookup(l.history, d.transaction_id, Kind::Deposit)->0.amount->0;
            let l1 = step(l, d)->Ok_0;
            let l2 = step(l1, r)->Ok_0;
            &&& step(l, d) is Ok
            &&& l1.held.value() == l.held.value() + a.value()
            &&& l1.total == l.total
            &&& step(l1, r) is Ok
            &&& l2.held.value() == l.held.value()
            &&& l2.total == l.total
            &&& l2.locked == l.locked
        }),
{
    let id = d.transaction_id;
    let l1 = step(l, d)->Ok_0;
    lemma_lookup_after_record(Ledger { held: l1.held, ..l }, d, id, Kind::Deposit);
    lemma_lookup_after_record(Ledger { held: l1.held, ..l }, d, id, Kind::Dispute);
}

/// A dispute and then a chargeback of the same deposit take the deposited
/// amount out of the held funds and out of the total, and lock the account,
/// where held funds were not negative and the decimal arithmetic is exact.
pub proof fn lemma_dispute_then_chargeback(l: Ledger, d: Transaction, c: Transaction)
    requires
        d.kind == Kind::Dispute,
        c.kind == Kind::Chargeback,
        d.transaction_id == c.transaction_id,
        l.held.value() >= 0,
        lookup(l.history, d.transaction_id, Kind::Deposit) matches Some(dep) && dep.amount matches Some(a)
            && sum_is_exact(l.held, a) && difference_is_exact(decimal_sum(l.held, a)->0, a)
            && difference_is_exact(l.total, a),
    ensures
        ({
            let a = lookup(l.history, d.transaction_id, Kind::Deposit)->0.amount->0;
            let l1 = step(l, d)->Ok_0;
            let l2 = step(l1, c)->Ok_0;
            &&& step(l, d) is Ok
            &&& step(l1, c) is Ok
            &&& l2.held.value() == l1.held.value() - a.value()
            &&& l2.total.value() == l1.total.value() - a.value()
            &&& l2.held.value() == l.held.value()
            &&& l2.locked == Lock::Locked
        }),
{
    let id = d.transaction_id;
    let l1 = step(l, d)->Ok_0;
    lemma_lookup_after_record(Ledger { held: l1.held, ..l }, d, id, Kind::Deposit);
    lemma_lookup_after_record(Ledger { held: l1.held, ..l }, d, id, Kind::Dispute);
}

/// Once locked, an account stays locked, whatever it is sent.
pub proof fn lemma_lock_is_permanent(l: Ledger, t: Transaction)
    requires
        l.locked == Lock::Locked,
    ensures
        step(l, t) matches Ok(l2) ==> l2.locked == Lock::Locked,
{
}

/// A dispute, resolve or chargeback of an id the account has never seen
/// succeeds and leaves the balances and the lock as they were.
pub proof fn lemma_unknown_id_is_no_op(l: Ledger, t: Transaction)
    requires
        t.kind == Kind::Dispute || t.kind == Kind::Resolve || t.kind == Kind::Chargeback,
        !l.history.contains_key(t.transaction_id),
    ensures
        step(l, t) matches Ok(l2) && l2.total == l.total && l2.held == l.held && l2.locked
            == l.locked,
{
}

} // verus!

//! The per-client account state machine and the directory of accounts.

use crate::amount::{
    checked_difference, checked_sum, decimal_difference, decimal_sum, less_than, zero_amount,
    Amount,
};
use crate::transaction::{Kind, Transaction, TransactionId, UserId};
use dashmap::DashMap;
use std::collections::HashMap;
use vstd::prelude::*;

verus! {

broadcast use vstd::std_specs::hash::group_hash_axioms;

/// Whether an account is frozen by a chargeback.
#[derive(Clone, Copy, Debug, PartialEq, Eq, Structural)]
pub enum Lock {
    Unlocked,
    Locked,
}

/// A fatal condition: the run stops and no snapshot is emitted.
#[derive(Clone, Copy, Debug, PartialEq, Eq, Structural)]
pub enum EngineError {
    /// A deposit or withdrawal came without an amount.
    MissingAmount,
    /// A resolve or chargeback would leave the held funds negative.
    HeldUnderflow,
    /// A balance left the range of a decimal.
    Overflow,
}

/// What became of a transaction that raised no fatal error. Every variant but
/// `Applied` is worth a warning.
#[derive(Clone, Copy, Debug, PartialEq, Eq, Structural)]
pub enum Outcome {
    /// The transaction took effect with nothing to report.
    Applied,
    /// A withdrawal asked for more than the available funds and was turned down.
    InsufficientFunds,
    /// A dispute named an id with no deposit and was ignored.
    NoDepositToDispute,
    /// A resolve or chargeback named an id with no dispute and was ignored.
    NoDisputeToSettle,
    /// A resolve or chargeback named an id with no deposit and was ignored.
    NoDepositToSettle,
    /// A dispute took effect and left more held than the total.
    HeldExceedsTotal,
    /// A chargeback took effect and left the total negative.
    TotalNegative,
}

/// What the history keeps of an accepted transaction.
#[derive(Clone, Copy, Debug)]
pub struct TransactionTruncated {
    pub kind: Kind,
    pub amount: Option<Amount>,
}

/// The abstract state of one account.
pub ghost struct Ledger {
    pub held: Amount,
    pub total: Amount,
    pub locked: Lock,
    pub history: Map<TransactionId, Seq<TransactionTruncated>>,
}

/// A user's account state.
pub struct UserState {
    /// The funds held for dispute.
    pub held: Amount,
    /// The funds available or held.
    pub total: Amount,
    /// Set by a chargeback, never cleared.
    pub locked: Lock,
    /// Every transaction recorded so far, by transaction id, in arrival order.
    pub transactions: HashMap<TransactionId, Vec<TransactionTruncated>>,
}

/// One row of the final snapshot.
#[derive(Clone, Copy, Debug)]
pub struct UserSummary {
    pub client: UserId,
    /// `None` where `total - held` leaves the range of a decimal.
    pub available: Option<Amount>,
    pub held: Amount,
    pub total: Amount,
    pub locked: Lock,
}

pub open spec fn fresh_ledger() -> Ledger {
    Ledger {
        held: zero_amount(),
        total: zero_amount(),
        locked: Lock::Unlocked,
        history: Map::empty(),
    }
}

/// The earliest entry of `kind` in `s`.
pub open spec fn first_of_kind(s: Seq<TransactionTruncated>, kind: Kind) -> Option<
    TransactionTruncated,
>
    decreases s.len(),
{
    if s.len() == 0 {
        None
    } else if s[0].kind == kind {
        Some(s[0])
    } else {
        first_of_kind(s.drop_first(), kind)
    }
}

/// The earliest entry of `kind` recorded under `id`.
pub open spec fn lookup(
    h: Map<TransactionId, Seq<TransactionTruncated>>,
    id: TransactionId,
    kind: Kind,
) -> Option<TransactionTruncated> {
    if h.contains_key(id) {
        first_of_kind(h[id], kind)
    } else {
        None
    }
}

/// `l` with `t` appended to the history of its id.
pub open spec fn record(l: Ledger, t: Transaction) -> Ledger {
    let id = t.transaction_id;
    let prior = if l.history.contains_key(id) {
        l.history[id]
    } else {
        Seq::empty()
    };
    Ledger {
        history: l.history.insert(
            id,
            prior.push(TransactionTruncated { kind: t.kind, amount: t.amount }),
        ),
        ..l
    }
}

/// `max(total - held, 0)`; `None` where the difference overflows.
pub open spec fn available_of(l: Ledger) -> Option<Amount> {
    match decimal_difference(l.total, l.held) {
        None => None,
        Some(d) => Some(
            if 0 < d.value() {
                d
            } else {
                zero_amount()
            },
        ),
    }
}

/// The state after applying `t` to `l`, or the fatal error it raises.
pub open spec fn step(l: Ledger, t: Transaction) -> Result<Ledger, EngineError> {
    match t.kind {
        Kind::Deposit => match t.amount {
            None => Err(EngineError::MissingAmount),
            Some(a) => match decimal_sum(l.total, a) {
                None => Err(EngineError::Overflow),
                Some(total) => Ok(record(Ledger { total, ..l }, t)),
            },
        },
        Kind::Withdrawal => match t.amount {
            None => Err(EngineError::MissingAmount),
            Some(a) => match available_of(l) {
                None => Err(EngineError::Overflow),
                Some(av) => if av.value() < a.value() {
                    Ok(record(l, t))
                } else {
                    match decimal_difference(l.total, a) {
                        None => Err(EngineError::Overflow),
                        Some(total) => Ok(record(Ledger { total, ..l }, t)),
                    }
                },
            },
        },
        Kind::Dispute => match lookup(l.history, t.transaction_id, Kind::Deposit) {
            None => Ok(record(l, t)),
            Some(dep) => match dep.amount {
                None => Err(EngineError::MissingAmount),
                Some(a) => match decimal_sum(l.held, a) {
                    None => Err(EngineError::Overflow),
                    Some(held) => Ok(record(Ledger { held, ..l }, t)),
                },
            },
        },
        Kind::Resolve => if lookup(l.history, t.transaction_id, Kind::Dispute) is None {
            Ok(record(l, t))
        } else {
            match lookup(l.history, t.transaction_id, Kind::Deposit) {
                None => Ok(record(l, t)),
                Some(dep) => match dep.amount {
                    None => Err(EngineError::MissingAmount),
                    Some(a) => match decimal_difference(l.held, a) {
                        None => Err(EngineError::Overflow),
                        Some(held) => if held.value() < 0 {
                            Err(EngineError::HeldUnderflow)
                        } else {
                            Ok(record(Ledger { held, ..l }, t))
                        },
                    },
                },
            }
        },
        Kind::Chargeback => if lookup(l.history, t.transaction_id, Kind::Dispute) is None {
            Ok(record(l, t))
        } else {
            match lookup(l.history, t.transaction_id, Kind::Deposit) {
                None => Ok(record(l, t)),
                Some(dep) => match dep.amount {
                    None => Err(EngineError::MissingAmount),
                    Some(a) => match decimal_difference(l.held, a) {
                        None => Err(EngineError::Overflow),
                        Some(held) => if held.value() < 0 {
                            Err(EngineError::HeldUnderflow)
                        } else {
                            match decimal_difference(l.total, a) {
                                None => Err(EngineError::Overflow),
                                Some(total) => Ok(
                                    record(Ledger { held, total, locked: Lock::Locked, ..l }, t),
                                ),
                            }
                        },
                    },
                },
            }
        },
    }
}

/// How `t` is reported where `step(l, t)` succeeds.
pub open spec fn outcome_of(l: Ledger, t: Transaction) -> Outcome {
    match t.kind {
        Kind::Deposit => Outcome::Applied,
        Kind::Withdrawal => match (t.amount, available_of(l)) {
            (Some(a), Some(av)) => if av.value() < a.value() {
                Outcome::InsufficientFunds
            } else {
                Outcome::Applied
            },
            _ => Outcome::Applied,
        },
        Kind::Dispute => match lookup(l.history, t.transaction_id, Kind::Deposit) {
            None => Outcome::NoDepositToDispute,
            Some(dep) => match dep.amount {
                Some(a) => match decimal_sum(l.held, a) {
                    Some(held) => if l.total.value() < held.value() {
                        Outcome::HeldExceedsTotal
                    } else {
                        Outcome::Applied
                    },
                    None => Outcome::Applied,
                },
                None => Outcome::Applied,
            },
        },
        Kind::Resolve | Kind::Chargeback => if lookup(
            l.history,
            t.transaction_id,
            Kind::Dispute,
        ) is None {
            Outcome::NoDisputeToSettle
        } else {
            match lookup(l.history, t.transaction_id, Kind::Deposit) {
                None => Outcome::NoDepositToSettle,
                Some(dep) => if t.kind == Kind::Chargeback {
                    match dep.amount {
                        Some(a) => match decimal_difference(l.total, a) {
                            Some(total) => if total.value() < 0 {
                                Outcome::TotalNegative
                            } else {
                                Outcome::Applied
                            },
                            None => Outcome::Applied,
                        },
                        None => Outcome::Applied,
                    }
                } else {
                    Outcome::Applied
                },
            }
        },
    }
}

/// Every deposit in the history has a non-negative amount.
pub open spec fn deposits_non_negative(h: Map<TransactionId, Seq<TransactionTruncated>>) -> bool {
    forall|id: TransactionId, i: int|
        #![trigger h[id][i]]
        h.contains_key(id) && 0 <= i < h[id].len() && h[id][i].kind == Kind::Deposit ==> (
        h[id][i].amount matches Some(a) ==> a.value() >= 0)
}

/// The held funds are not negative and no deposit so far was negative, and
/// `t` carries no negative amount.
pub open spec fn non_negative_before(l: Ledger, t: Transaction) -> bool {
    &&& l.held.value() >= 0
    &&& deposits_non_negative(l.history)
    &&& t.amount matches Some(a) ==> a.value() >= 0
}

/// Every amount in the history is a decimal in range.
pub open spec fn history_wf(h: Map<TransactionId, Seq<TransactionTruncated>>) -> bool {
    forall|id: TransactionId, i: int|
        #![trigger h[id][i]]
        h.contains_key(id) && 0 <= i < h[id].len() ==> (h[id][i].amount matches Some(a)
            ==> a.wf())
}

impl Ledger {
    pub open spec fn wf(self) -> bool {
        &&& self.held.wf()
        &&& self.total.wf()
        &&& history_wf(self.history)
    }
}

pub open spec fn summary_of(client: UserId, l: Ledger) -> UserSummary {
    UserSummary {
        client,
        available: available_of(l),
        held: l.held,
        total: l.total,
        locked: l.locked,
    }
}

impl View for UserState {
    type V = Ledger;

    open spec fn view(&self) -> Ledger {
        Ledger {
            held: self.held,
            total: self.total,
            locked: self.locked,
            history: self.transactions@.map_values(|v: Vec<TransactionTruncated>| v@),
        }
    }
}

/// The earliest entry of `kind` recorded under `transaction_id`.
fn get_first_transaction_by_kind(
    user_transactions: &HashMap<TransactionId, Vec<TransactionTruncated>>,
    transaction_id: TransactionId,
    kind: Kind,
) -> (r: Option<TransactionTruncated>)
    ensures
        r == lookup(
            user_transactions@.map_values(|v: Vec<TransactionTruncated>| v@),
            transaction_id,
            kind,
        ),
{
    match user_transactions.get(&transaction_id) {
        None => None,
        Some(v) => {
            let ghost s = v@;
            assert(user_transactions@.map_values(|v: Vec<TransactionTruncated>| v@)[transaction_id]
                == s);
            assert(s.subrange(0, s.len() as int) =~= s);
            let mut i: usize = 0;
            while i < v.len()
                invariant
                    0 <= i <= v.len(),
                    s == v@,
                    user_transactions@.map_values(|v: Vec<TransactionTruncated>| v@).contains_key(
                        transaction_id,
                    ),
                    user_transactions@.map_values(|v: Vec<TransactionTruncated>| v@)[transaction_id]
                        == s,
                    first_of_kind(s, kind) == first_of_kind(s.subrange(i as int, s.len() as int), kind),
                decreases v.len() - i,
            {
                let ghost rest = s.subrange(i as int, s.len() as int);
                assert(rest.drop_first() =~= s.subrange(i + 1, s.len() as int));
                assert(rest[0] == s[i as int]);
                if v[i].kind == kind {
                    assert(first_of_kind(rest, kind) == Some(s[i as int]));
                    return Some(v[i]);
                }
                i = i + 1;
            }
            assert(s.subrange(i as int, s.len() as int) =~= Seq::<TransactionTruncated>::empty());
            None
        },
    }
}

impl UserState {
    pub open spec fn wf(&self) -> bool {
        self@.wf()
    }

    /// An account with nothing in it.
    pub fn new() -> (r: UserState)
        ensures
            r@ == fresh_ledger(),
            r.wf(),
    {
        let r = UserState {
            held: Amount::zero(),
            total: Amount::zero(),
            locked: Lock::Unlocked,
            transactions: HashMap::new(),
        };
        assert(r@.history =~= Map::empty());
        r
    }

    /// The funds available for withdrawal: `max(total - held, 0)`.
    fn available(&self) -> (r: Option<Amount>)
        requires
            self.wf(),
        ensures
            r == available_of(self@),
            r matches Some(a) ==> a.wf(),
    {
        match checked_difference(self.total, self.held) {
            None => None,
            Some(d) => {
                let zero = Amount::zero();
                if less_than(zero, d) {
                    Some(d)
                } else {
                    Some(zero)
                }
            },
        }
    }

    /// Appends `t` to the history of its id.
    fn record(&mut self, t: &Transaction)
        requires
            old(self).wf(),
            t.wf(),
        ensures
            final(self)@ == record(old(self)@, *t),
            final(self).wf(),
            deposits_non_negative(old(self)@.history) && (t.amount matches Some(a) ==> a.value()
                >= 0) ==> deposits_non_negative(final(self)@.history),
    {
        let ghost h0 = old(self)@.history;
        let entry = TransactionTruncated { kind: t.kind, amount: t.amount };
        let id = t.transaction_id;
        let mut v = match self.transactions.remove(&id) {
            Some(v) => v,
            None => Vec::new(),
        };
        let ghost prior = v@;
        assert(prior == (if h0.contains_key(id) { h0[id] } else { Seq::empty() }));
        v.push(entry);
        self.transactions.insert(id, v);
        assert(self@.history =~= h0.insert(id, prior.push(entry)));
    }

    /// Applies one transaction, following the dispute lifecycle.
    pub fn add_transaction(&mut self, new: Transaction) -> (r: Result<(), EngineError>)
        requires
            old(self).wf(),
            new.wf(),
        ensures
            final(self).wf(),
            match step(old(self)@, new) {
                Ok(l) => r is Ok && final(self)@ == l,
                Err(e) => r == Err::<(), EngineError>(e) && final(self)@ == old(self)@,
            },
    {
        match self.apply(new) {
            Ok(_) => Ok(()),
            Err(e) => Err(e),
        }
    }

    /// Applies one transaction, following the dispute lifecycle, and says
    /// what became of it.
    pub fn apply(&mut self, new: Transaction) -> (r: Result<Outcome, EngineError>)
        requires
            old(self).wf(),
            new.wf(),
        ensures
            final(self).wf(),
            match step(old(self)@, new) {
                Ok(l) => r == Ok::<Outcome, EngineError>(outcome_of(old(self)@, new))
                    && final(self)@ == l,
                Err(e) => r == Err::<Outcome, EngineError>(e) && final(self)@ == old(self)@,
            },
            non_negative_before(old(self)@, new) ==> final(self)@.held.value() >= 0
                && deposits_non_negative(final(self)@.history),
    {
        let ghost l0 = self@;
        let mut outcome = Outcome::Applied;
        match new.kind {
            Kind::Deposit => {
                let a = match new.amount {
                    None => return Err(EngineError::MissingAmount),
                    Some(a) => a,
                };
                match checked_sum(self.total, a) {
                    None => return Err(EngineError::Overflow),
                    Some(t) => self.total = t,
                }
            },
            Kind::Withdrawal => {
                let a = match new.amount {
                    None => return Err(EngineError::MissingAmount),
                    Some(a) => a,
                };
                let av = match self.available() {
                    None => return Err(EngineError::Overflow),
                    Some(av) => av,
                };
                if less_than(av, a) {
                    outcome = Outcome::InsufficientFunds;
                } else {
                    match checked_difference(self.total, a) {
                        None => return Err(EngineError::Overflow),
                        Some(t) => self.total = t,
                    }
                }
            },
            Kind::Dispute => {
                match get_first_transaction_by_kind(
                    &self.transactions,
                    new.transaction_id,
                    Kind::Deposit,
                ) {
                    None => outcome = Outcome::NoDepositToDispute,
                    Some(dep) => {
                        proof {
                            lemma_first_of_kind_wf(l0.history, new.transaction_id, Kind::Deposit);
                        }
                        let a = match dep.amount {
                            None => return Err(EngineError::MissingAmount),
                            Some(a) => a,
                        };
                        match checked_sum(self.held, a) {
                            None => return Err(EngineError::Overflow),
                            Some(h) => {
                                if less_than(self.total, h) {
                                    outcome = Outcome::HeldExceedsTotal;
                                }
                                self.held = h;
                            },
                        }
                    },
                }
            },
            Kind::Resolve | Kind::Chargeback => {
                let disputed = get_first_transaction_by_kind(
                    &self.transactions,
                    new.transaction_id,
                    Kind::Dispute,
                );
                if disputed.is_none() {
                    outcome = Outcome::NoDisputeToSettle;
                } else {
                    match get_first_transaction_by_kind(
                        &self.transactions,
                        new.transaction_id,
                        Kind::Deposit,
                    ) {
                        None => outcome = Outcome::NoDepositToSettle,
                        Some(dep) => {
                            proof {
                                lemma_first_of_kind_wf(
                                    l0.history,
                                    new.transaction_id,
                                    Kind::Deposit,
                                );
                            }
                            let a = match dep.amount {
                                None => return Err(EngineError::MissingAmount),
                                Some(a) => a,
                            };
                            let h = match checked_difference(self.held, a) {
                                None => return Err(EngineError::Overflow),
                                Some(h) => h,
                            };
                            if less_than(h, Amount::zero()) {
                                return Err(EngineError::HeldUnderflow);
                            }
                            if new.kind == Kind::Chargeback {
                                let t = match checked_difference(self.total, a) {
                                    None => return Err(EngineError::Overflow),
                                    Some(t) => t,
                                };
                                if less_than(t, Amount::zero()) {
                                    outcome = Outcome::TotalNegative;
                                }
                                self.total = t;
                                self.locked = Lock::Locked;
                            }
                            self.held = h;
                        },
                    }
                }
            },
        }
        self.record(&new);
        Ok(outcome)
    }

    /// This account's row of the snapshot.
    pub fn summary(&self, client: UserId) -> (r: UserSummary)
        requires
            self.wf(),
        ensures
            r == summary_of(client, self@),
    {
        UserSummary {
            client,
            available: self.available(),
            held: self.held,
            total: self.total,
            locked: self.locked,
        }
    }
}

#[verifier::external_type_specification]
#[verifier::external_body]
#[verifier::reject_recursive_types(K)]
#[verifier::reject_recursive_types(V)]
#[verifier::reject_recursive_types(S)]
pub struct ExDashMap<K, V, S>(DashMap<K, V, S>);

/// The concurrent map from client to account.
pub type Directory = DashMap<UserId, UserState>;

/// What the concurrent directory holds, by client.
pub uninterp spec fn directory_contents(m: Directory) -> Map<UserId, UserState>;

/// Relies on `DashMap::new`: a new map is empty.
#[verifier::external_body]
fn directory_new() -> (r: Directory)
    ensures
        forall|k: UserId| !(#[trigger] directory_contents(r).contains_key(k)),
{
    DashMap::new()
}

/// Relies on `DashMap::remove`: the entry of `k`, if any, leaves the map and
/// is handed back.
#[verifier::external_body]
fn directory_take(m: &mut Directory, k: UserId) -> (r: Option<UserState>)
    ensures
        directory_contents(*final(m)) == directory_contents(*old(m)).remove(k),
        r == (if directory_contents(*old(m)).contains_key(k) {
            Some(directory_contents(*old(m))[k])
        } else {
            None
        }),
{
    m.remove(&k).map(|(_, v)| v)
}

/// Relies on `DashMap::insert`: `k` maps to `v` afterwards, all else kept.
#[verifier::external_body]
fn directory_put(m: &mut Directory, k: UserId, v: UserState)
    ensures
        directory_contents(*final(m)) == directory_contents(*old(m)).insert(k, v),
{
    m.insert(k, v);
}

/// Relies on `DashMap::iter`: it visits each entry of the map exactly once,
/// in an order the map does not promise.
#[verifier::external_body]
fn directory_summaries(m: &Directory) -> (r: Vec<UserSummary>)
    requires
        forall|k: UserId| #[trigger]
            directory_contents(*m).contains_key(k) ==> directory_contents(*m)[k].wf(),
    ensures
        forall|i: int|
            0 <= i < r@.len() ==> #[trigger] directory_contents(*m).contains_key(r@[i].client)
                && r@[i] == summary_of(r@[i].client, directory_contents(*m)[r@[i].client]@),
        forall|k: UserId| #[trigger]
            directory_contents(*m).contains_key(k) ==> exists|i: int|
                0 <= i < r@.len() && r@[i].client == k,
        forall|i: int, j: int|
            0 <= i < j < r@.len() ==> #[trigger] r@[i].client != #[trigger] r@[j].client,
{
    m.iter().map(|e| e.value().summary(*e.key())).collect()
}

/// The ledger of `client`, or a fresh one where the client is new.
pub open spec fn ledger_or_fresh(m: Map<UserId, Ledger>, client: UserId) -> Ledger {
    if m.contains_key(client) {
        m[client]
    } else {
        fresh_ledger()
    }
}

/// The accounts of all clients, created on first reference.
pub struct TransactionEngine {
    user_states: Directory,
}

impl TransactionEngine {
    /// The ledger of each client seen so far.
    pub closed spec fn ledgers(&self) -> Map<UserId, Ledger> {
        directory_contents(self.user_states).map_values(|u: UserState| u@)
    }

    pub closed spec fn wf(&self) -> bool {
        forall|k: UserId| #[trigger]
            directory_contents(self.user_states).contains_key(k) ==> directory_contents(
                self.user_states,
            )[k].wf()
    }

    /// An engine with no accounts.
    pub fn new() -> (r: TransactionEngine)
        ensures
            r.wf(),
            r.ledgers() == Map::<UserId, Ledger>::empty(),
    {
        let r = TransactionEngine { user_states: directory_new() };
        assert(r.ledgers() =~= Map::<UserId, Ledger>::empty());
        r
    }

    /// Applies `new` to its client's account, creating the account first if
    /// the client is new. On a fatal error the account is left as it was.
    pub fn add_transaction(&mut self, new: Transaction) -> (r: Result<(), EngineError>)
        requires
            old(self).wf(),
            new.wf(),
        ensures
            final(self).wf(),
            ({
                let l0 = ledger_or_fresh(old(self).ledgers(), new.client);
                match step(l0, new) {
                    Ok(l) => r is Ok && final(self).ledgers() == old(self).ledgers().insert(
                        new.client,
                        l,
                    ),
                    Err(e) => r == Err::<(), EngineError>(e) && final(self).ledgers() == old(self).ledgers().insert(new.client, l0),
                }
            }),
    {
        match self.apply(new) {
            Ok(_) => Ok(()),
            Err(e) => Err(e),
        }
    }

    /// Applies `new` as `add_transaction` does, and says what became of it.
    pub fn apply(&mut self, new: Transaction) -> (r: Result<Outcome, EngineError>)
        requires
            old(self).wf(),
            new.wf(),
        ensures
            final(self).wf(),
            ({
                let l0 = ledger_or_fresh(old(self).ledgers(), new.client);
                match step(l0, new) {
                    Ok(l) => r == Ok::<Outcome, EngineError>(outcome_of(l0, new)) && final(self).ledgers() == old(self).ledgers().insert(new.client, l),
                    Err(e) => r == Err::<Outcome, EngineError>(e) && final(self).ledgers() == old(self).ledgers().insert(new.client, l0),
                }
            }),
            non_negative_before(ledger_or_fresh(old(self).ledgers(), new.client), new) ==> final(self).ledgers()[new.client].held.value() >= 0 && deposits_non_negative(
                final(self).ledgers()[new.client].history,
            ),
    {
        let ghost m0 = directory_contents(self.user_states);
        let mut user_state = match directory_take(&mut self.user_states, new.client) {
            Some(u) => u,
            None => UserState::new(),
        };
        assert(user_state@ == ledger_or_fresh(old(self).ledgers(), new.client));
        let r = user_state.apply(new);
        let ghost u = user_state;
        directory_put(&mut self.user_states, new.client, user_state);
        assert(directory_contents(self.user_states) =~= m0.insert(new.client, u));
        assert(self.ledgers() =~= old(self).ledgers().insert(new.client, u@));
        r
    }

    /// One row per account, in no particular order.
    pub fn current_account_states(&self) -> (r: Vec<UserSummary>)
        requires
            self.wf(),
        ensures
            forall|i: int|
                0 <= i < r@.len() ==> #[trigger] self.ledgers().contains_key(r@[i].client)
                    && r@[i] == summary_of(r@[i].client, self.ledgers()[r@[i].client]),
            forall|k: UserId| #[trigger]
                self.ledgers().contains_key(k) ==> exists|i: int|
                    0 <= i < r@.len() && r@[i].client == k,
            forall|i: int, j: int|
                0 <= i < j < r@.len() ==> #[trigger] r@[i].client != #[trigger] r@[j].client,
    {
        directory_summaries(&self.user_states)
    }
}

impl Default for TransactionEngine {
    fn default() -> (r: TransactionEngine)
        ensures
            r.wf(),
            r.ledgers() == Map::<UserId, Ledger>::empty(),
    {
        TransactionEngine::new()
    }
}

/// The entry found by kind in a well-formed history carries a decimal in range.
proof fn lemma_first_of_kind_wf(
    h: Map<TransactionId, Seq<TransactionTruncated>>,
    id: TransactionId,
    kind: Kind,
)
    requires
        history_wf(h),
    ensures
        lookup(h, id, kind) matches Some(e) ==> (e.amount matches Some(a) ==> a.wf()),
        lookup(h, id, kind) matches Some(e) ==> e.kind == kind,
        deposits_non_negative(h) && kind == Kind::Deposit ==> (lookup(h, id, kind) matches Some(e)
            ==> (e.amount matches Some(a) ==> a.value() >= 0)),
{
    if h.contains_key(id) {
        lemma_first_of_kind_in(h[id], kind);
        if let Some(e) = lookup(h, id, kind) {
            let i = choose|i: int| 0 <= i < h[id].len() && h[id][i] == e;
            assert(h[id][i] == e);
        }
    }
}

/// The entry found by kind is one of the sequence's entries, of that kind.
proof fn lemma_first_of_kind_in(s: Seq<TransactionTruncated>, kind: Kind)
    ensures
        first_of_kind(s, kind) matches Some(e) ==> (e.kind == kind && exists|i: int|
            0 <= i < s.len() && s[i] == e),
    decreases s.len(),
{
    if s.len() > 0 && s[0].kind != kind {
        lemma_first_of_kind_in(s.drop_first(), kind);
        if let Some(e) = first_of_kind(s, kind) {
            let i = choose|i: int| 0 <= i < s.drop_first().len() && s.drop_first()[i] == e;
            assert(s[i + 1] == e);
        }
    }
}

} // verus!

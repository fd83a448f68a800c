//! How transactions are spread over workers: the worker count and the shard
//! of each client, and why the outcome does not depend on either.

use crate::transaction::{Transaction, UserId};
use crate::transaction_engine::{fresh_ledger, ledger_or_fresh, step, EngineError, Ledger};
use vstd::prelude::*;

verus! {

/// The number of workers for a configured count `num_workers`, given the
/// parallelism the host offers: `0` takes all of it, a negative count takes
/// that many fewer (at least one), a positive count is taken as it is.
pub fn worker_count(system_parallelism: usize, num_workers: isize) -> (r: usize)
    requires
        system_parallelism >= 1,
        system_parallelism <= isize::MAX,
    ensures
        r >= 1,
        num_workers < 0 ==> r as int == if system_parallelism + num_workers >= 1 {
            system_parallelism + num_workers
        } else {
            1
        },
        num_workers == 0 ==> r == system_parallelism,
        num_workers > 0 ==> r == num_workers,
{
    if num_workers < 0 {
        let n = system_parallelism as isize + num_workers;
        if n >= 1 {
            n as usize
        } else {
            1
        }
    } else if num_workers == 0 {
        system_parallelism
    } else {
        num_workers as usize
    }
}

/// The worker that owns `client` among `parallelism` workers.
pub fn shard_of(client: UserId, parallelism: usize) -> (r: usize)
    requires
        parallelism >= 1,
    ensures
        r == client as usize % parallelism,
        r < parallelism,
{
    client as usize % parallelism
}

/// Applies `txs` in order to `l`, stopping at the first fatal error.
pub open spec fn run(l: Ledger, txs: Seq<Transaction>) -> Result<Ledger, EngineError>
    decreases txs.len(),
{
    if txs.len() == 0 {
        Ok(l)
    } else {
        match step(l, txs[0]) {
            Ok(l1) => run(l1, txs.drop_first()),
            Err(e) => Err(e),
        }
    }
}

/// The transactions of `client`, in input order.
pub open spec fn client_txs(txs: Seq<Transaction>, client: UserId) -> Seq<Transaction> {
    txs.filter(|t: Transaction| t.client == client)
}

/// The transactions routed to worker `w` of `workers`, in input order.
pub open spec fn shard_txs(txs: Seq<Transaction>, workers: nat, w: nat) -> Seq<Transaction> {
    txs.filter(|t: Transaction| (t.client as nat) % workers == w)
}

/// What the account of `client` ends as after `txs`.
pub open spec fn client_outcome(txs: Seq<Transaction>, client: UserId) -> Result<
    Ledger,
    EngineError,
> {
    run(fresh_ledger(), client_txs(txs, client))
}

/// Picking the transactions of one client out of its shard gives the same
/// sequence as picking them out of the whole input.
proof fn lemma_client_of_shard(txs: Seq<Transaction>, workers: nat, client: UserId)
    requires
        workers >= 1,
    ensures
        client_txs(shard_txs(txs, workers, (client as nat) % workers), client) == client_txs(
            txs,
            client,
        ),
    decreases txs.len(),
{
    reveal(Seq::filter);
    let w = (client as nat) % workers;
    if txs.len() > 0 {
        lemma_client_of_shard(txs.drop_last(), workers, client);
        let pc = |t: Transaction| t.client == client;
        let ps = |t: Transaction| (t.client as nat) % workers == w;
        let last = txs.last();
        let sh = txs.filter(ps);
        if ps(last) {
            assert(sh.drop_last() =~= txs.drop_last().filter(ps));
            assert(sh.last() == last);
        } else {
            assert(!pc(last));
        }
    }
}

/// Sharding does not change the outcome: for any number of workers, the
/// account of each client ends the same whether its shard alone or the whole
/// input is run, since a worker sees exactly its clients' transactions, in
/// input order.
pub proof fn lemma_sharding_deterministic(txs: Seq<Transaction>, workers: nat, client: UserId)
    requires
        workers >= 1,
    ensures
        client_outcome(shard_txs(txs, workers, (client as nat) % workers), client)
            == client_outcome(txs, client),
{
    lemma_client_of_shard(txs, workers, client);
}

/// The ledgers of all clients after `txs` are applied in order to `m`, one
/// `TransactionEngine::add_transaction` each, or the first fatal error.
pub open spec fn directory_run(m: Map<UserId, Ledger>, txs: Seq<Transaction>) -> Result<
    Map<UserId, Ledger>,
    EngineError,
>
    decreases txs.len(),
{
    if txs.len() == 0 {
        Ok(m)
    } else {
        match directory_run(m, txs.drop_last()) {
            Ok(m1) => {
                let t = txs.last();
                match step(ledger_or_fresh(m1, t.client), t) {
                    Ok(l) => Ok(m1.insert(t.client, l)),
                    Err(e) => Err(e),
                }
            },
            Err(e) => Err(e),
        }
    }
}

/// Running one more transaction is one more step.
proof fn lemma_run_push(l: Ledger, s: Seq<Transaction>, t: Transaction)
    ensures
        run(l, s.push(t)) == match run(l, s) {
            Ok(l1) => step(l1, t),
            Err(e) => Err(e),
        },
    decreases s.len(),
{
    if s.len() == 0 {
        assert(s.push(t).drop_first() =~= Seq::<Transaction>::empty());
        assert(s.push(t)[0] == t);
        if let Ok(l1) = step(l, t) {
            assert(run(l1, Seq::<Transaction>::empty()) == Ok::<Ledger, EngineError>(l1));
        }
    } else {
        assert(s.push(t)[0] == s[0]);
        assert(s.push(t).drop_first() =~= s.drop_first().push(t));
        match step(l, s[0]) {
            Ok(l1) => lemma_run_push(l1, s.drop_first(), t),
            Err(_) => {},
        }
    }
}

/// The whole directory's run succeeds exactly when every client's own run
/// does, and then holds, for each client that has transactions, what that
/// client's own run ends with.
pub proof fn lemma_directory_run_per_client(txs: Seq<Transaction>)
    ensures
        directory_run(Map::empty(), txs) is Ok <==> (forall|c: UserId|
            #[trigger] client_outcome(txs, c) is Ok),
        directory_run(Map::empty(), txs) matches Ok(m) ==> forall|c: UserId|
            #![trigger client_outcome(txs, c)]
            (m.contains_key(c) <==> client_txs(txs, c).len() > 0) && (m.contains_key(c)
                ==> client_outcome(txs, c) == Ok::<Ledger, EngineError>(m[c])),
    decreases txs.len(),
{
    reveal(Seq::filter);
    if txs.len() == 0 {
        assert forall|c: UserId| #[trigger] client_outcome(txs, c) is Ok by {
            assert(client_txs(txs, c).len() == 0);
            assert(run(fresh_ledger(), client_txs(txs, c)) is Ok);
        }
    } else {
        let s = txs.drop_last();
        let t = txs.last();
        let c0 = t.client;
        lemma_directory_run_per_client(s);
        assert forall|c: UserId| #[trigger]
            client_txs(txs, c) == (if c == c0 {
                client_txs(s, c).push(t)
            } else {
                client_txs(s, c)
            }) by {}
        assert forall|c: UserId| #[trigger]
            client_outcome(txs, c) == (if c == c0 {
                match client_outcome(s, c) {
                    Ok(l1) => step(l1, t),
                    Err(e) => Err(e),
                }
            } else {
                client_outcome(s, c)
            }) by {
            if c == c0 {
                lemma_run_push(fresh_ledger(), client_txs(s, c), t);
            }
        }
        match directory_run(Map::empty(), s) {
            Err(_) => {
                let c = choose|c: UserId| !(#[trigger] client_outcome(s, c) is Ok);
                assert(!(client_outcome(txs, c) is Ok));
            },
            Ok(m1) => {
                if !m1.contains_key(c0) {
                    assert(client_txs(s, c0).len() == 0);
                    assert(client_outcome(s, c0) == Ok::<Ledger, EngineError>(fresh_ledger()));
                } else {
                    assert(client_outcome(s, c0) == Ok::<Ledger, EngineError>(m1[c0]));
                }
                assert(ledger_or_fresh(m1, c0) == client_outcome(s, c0)->Ok_0);
                if !(directory_run(Map::empty(), txs) is Ok) {
                    assert(!(client_outcome(txs, c0) is Ok));
                }
                if let Ok(m) = directory_run(Map::empty(), txs) {
                    assert forall|c: UserId| #[trigger] client_outcome(txs, c) is Ok by {
                        if c != c0 {
                            assert(client_outcome(s, c) is Ok);
                        }
                    }
                    assert forall|c: UserId|
                        #![trigger client_outcome(txs, c)]
                        (m.contains_key(c) <==> client_txs(txs, c).len() > 0) && (m.contains_key(c)
                            ==> client_outcome(txs, c) == Ok::<Ledger, EngineError>(m[c])) by {
                        if c != c0 {
                            assert(client_outcome(s, c) is Ok);
                        }
                    }
                }
            },
        }
    }
}

/// The snapshot does not depend on the number of workers: for any number of
/// workers, the run fails exactly when some worker's shard fails, and
/// otherwise each worker ends with exactly the accounts of its own clients,
/// each as the run over the whole input leaves it.
pub proof fn lemma_snapshot_independent_of_workers(txs: Seq<Transaction>, workers: nat)
    requires
        workers >= 1,
    ensures
        directory_run(Map::empty(), txs) is Ok <==> (forall|w: nat|
            w < workers ==> #[trigger] directory_run(Map::empty(), shard_txs(txs, workers, w))
                is Ok),
        directory_run(Map::empty(), txs) matches Ok(m) ==> forall|w: nat, c: UserId|
            w < workers ==> #[trigger] directory_run(Map::empty(), shard_txs(txs, workers, w))->Ok_0.contains_key(c)
                == (m.contains_key(c) && (c as nat) % workers == w) && (m.contains_key(c) && (c as nat)
                % workers == w ==> directory_run(Map::empty(), shard_txs(txs, workers, w))->Ok_0[c]
                == m[c]),
{
    lemma_directory_run_per_client(txs);
    assert forall|w: nat| w < workers && directory_run(Map::empty(), txs) is Ok implies #[trigger] directory_run(
        Map::empty(),
        shard_txs(txs, workers, w),
    ) is Ok by {
        let sh = shard_txs(txs, workers, w);
        lemma_directory_run_per_client(sh);
        assert forall|c: UserId| #[trigger] client_outcome(sh, c) is Ok by {
            if (c as nat) % workers != w {
                lemma_client_outside_shard(txs, workers, w, c);
                assert(client_txs(sh, c).len() == 0);
            } else {
                lemma_client_of_shard(txs, workers, c);
                assert(client_outcome(txs, c) is Ok);
            }
        }
    }
    if !(directory_run(Map::empty(), txs) is Ok) {
        let c = choose|c: UserId| !(#[trigger] client_outcome(txs, c) is Ok);
        let w = (c as nat) % workers;
        let sh = shard_txs(txs, workers, w);
        lemma_directory_run_per_client(sh);
        lemma_client_of_shard(txs, workers, c);
        assert(client_outcome(sh, c) == client_outcome(txs, c));
        assert(!(directory_run(Map::empty(), sh) is Ok));
    }
    if let Ok(m) = directory_run(Map::empty(), txs) {
        assert forall|w: nat, c: UserId| w < workers implies #[trigger] directory_run(
            Map::empty(),
            shard_txs(txs, workers, w),
        )->Ok_0.contains_key(c) == (m.contains_key(c) && (c as nat) % workers == w) && (
        m.contains_key(c) && (c as nat) % workers == w ==> directory_run(
            Map::empty(),
            shard_txs(txs, workers, w),
        )->Ok_0[c] == m[c]) by {
            let sh = shard_txs(txs, workers, w);
            lemma_directory_run_per_client(sh);
            assert(client_outcome(txs, c) is Ok);
            assert(client_outcome(sh, c) is Ok);
            if (c as nat) % workers == w {
                lemma_client_of_shard(txs, workers, c);
            } else {
                lemma_client_outside_shard(txs, workers, w, c);
            }
        }
    }
}

/// A shard holds no transaction of a client routed elsewhere.
proof fn lemma_client_outside_shard(txs: Seq<Transaction>, workers: nat, w: nat, client: UserId)
    requires
        workers >= 1,
        (client as nat) % workers != w,
    ensures
        client_txs(shard_txs(txs, workers, w), client).len() == 0,
    decreases txs.len(),
{
    reveal(Seq::filter);
    if txs.len() > 0 {
        lemma_client_outside_shard(txs.drop_last(), workers, w, client);
        let ps = |t: Transaction| (t.client as nat) % workers == w;
        let sh = txs.filter(ps);
        if ps(txs.last()) {
            assert(sh.drop_last() =~= txs.drop_last().filter(ps));
            assert(sh.last() == txs.last());
        }
    }
}

} // verus!

use ledger_engine::amount::Amount;
use ledger_engine::dispatch::shard_of;
use ledger_engine::transaction::{Kind, Transaction};
use ledger_engine::transaction_engine::{Lock, TransactionEngine};

fn tx(kind: Kind, client: u16, transaction_id: u32, mantissa: Option<i128>) -> Transaction {
    Transaction {
        kind,
        client,
        transaction_id,
        amount: mantissa.map(|m| Amount::new(m, 2).unwrap()),
    }
}

fn snapshot(input: &[Transaction], workers: usize) -> Vec<(u16, Option<(i128, u32)>, (i128, u32), (i128, u32), bool)> {
    let mut engines: Vec<TransactionEngine> = (0..workers).map(|_| TransactionEngine::new()).collect();
    for t in input {
        let w = shard_of(t.client, workers);
        assert!(engines[w].add_transaction(*t).is_ok());
    }
    let mut rows = Vec::new();
    for e in &engines {
        for s in e.current_account_states() {
            rows.push((
                s.client,
                s.available.map(|a| (a.mantissa, a.scale)),
                (s.held.mantissa, s.held.scale),
                (s.total.mantissa, s.total.scale),
                s.locked == Lock::Locked,
            ));
        }
    }
    rows.sort();
    rows
}

#[test]
fn snapshot_is_the_same_for_any_worker_count() {
    let mut input = Vec::new();
    for i in 0..60u32 {
        let client = (i * 7 % 11) as u16;
        input.push(tx(Kind::Deposit, client, i, Some(100 + i as i128)));
    }
    input.push(tx(Kind::Withdrawal, 3, 100, Some(50)));
    input.push(tx(Kind::Dispute, 5, 5, None));
    input.push(tx(Kind::Dispute, 4, 2, None));
    input.push(tx(Kind::Chargeback, 4, 2, None));
    input.push(tx(Kind::Withdrawal, 9, 101, Some(1_000_000)));
    let one = snapshot(&input, 1);
    assert_eq!(one.len(), 11);
    for workers in 2..8 {
        assert_eq!(snapshot(&input, workers), one);
    }
}

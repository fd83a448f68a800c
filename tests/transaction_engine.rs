use ledger_engine::amount::Amount;
use ledger_engine::transaction::{Kind, Transaction};
use ledger_engine::transaction_engine::{
    EngineError, Lock, Outcome, TransactionEngine, UserState, UserSummary,
};
use rust_decimal::Decimal;

fn amount(d: Decimal) -> Amount {
    Amount::new(d.mantissa(), d.scale()).unwrap()
}

fn dec(a: Amount) -> Decimal {
    Decimal::from_i128_with_scale(a.mantissa, a.scale)
}

fn exact(s: &str) -> Decimal {
    Decimal::from_str_exact(s).unwrap()
}

fn tx(kind: Kind, client: u16, transaction_id: u32, value: Option<&str>) -> Transaction {
    Transaction {
        kind,
        client,
        transaction_id,
        amount: value.map(|v| amount(exact(v))),
    }
}

fn row(engine: &TransactionEngine, client: u16) -> UserSummary {
    let rows = engine.current_account_states();
    let found: Vec<UserSummary> = rows.into_iter().filter(|r| r.client == client).collect();
    assert_eq!(found.len(), 1);
    found[0]
}

fn assert_row(r: &UserSummary, available: &str, held: &str, total: &str, locked: Lock) {
    assert_eq!(dec(r.available.unwrap()), exact(available));
    assert_eq!(dec(r.held), exact(held));
    assert_eq!(dec(r.total), exact(total));
    assert_eq!(r.locked, locked);
}

#[test]
fn input_from_pdf() {
    let _input = r"
    type,         client,   tx,   amount
    deposit,           1,    1,      1.0
    deposit,           2,    2,      2.0
    deposit,           1,    3,      2.0
    withdrawal,        1,    4,      1.5
    withdrawal,        2,    5,      3.0
";
}

#[test]
fn parsed_input_from_pdf() -> Result<(), EngineError> {
    let mut engine = TransactionEngine::default();

    engine.add_transaction(Transaction {
        kind: Kind::Deposit,
        client: 1,
        transaction_id: 1,
        amount: Some(amount(Decimal::from(1))),
    })?;

    engine.add_transaction(Transaction {
        kind: Kind::Deposit,
        client: 2,
        transaction_id: 2,
        amount: Some(amount(Decimal::from(2))),
    })?;

    engine.add_transaction(Transaction {
        kind: Kind::Deposit,
        client: 1,
        transaction_id: 3,
        amount: Some(amount(Decimal::from(2))),
    })?;

    engine.add_transaction(Transaction {
        kind: Kind::Withdrawal,
        client: 1,
        transaction_id: 4,
        amount: Some(amount(Decimal::from_str_exact("1.5").unwrap())),
    })?;

    engine.add_transaction(Transaction {
        kind: Kind::Withdrawal,
        client: 2,
        transaction_id: 5,
        amount: Some(amount(Decimal::from(3))),
    })?;

    Ok(())
}

#[test]
fn simple_dispute() -> Result<(), EngineError> {
    let mut engine = TransactionEngine::default();
    engine.add_transaction(Transaction {
        kind: Kind::Deposit,
        client: 0,
        transaction_id: 0,
        amount: Some(amount(Decimal::from(2))),
    })?;

    engine.add_transaction(Transaction {
        kind: Kind::Dispute,
        client: 0,
        transaction_id: 0,
        amount: None,
    })?;

    Ok(())
}

#[test]
fn five_transactions_end_to_end() {
    let mut engine = TransactionEngine::default();
    let input = [
        tx(Kind::Deposit, 1, 1, Some("1.0")),
        tx(Kind::Deposit, 2, 2, Some("2.0")),
        tx(Kind::Deposit, 1, 3, Some("2.0")),
        tx(Kind::Withdrawal, 1, 4, Some("1.5")),
        tx(Kind::Withdrawal, 2, 5, Some("3.0")),
    ];
    for t in input {
        assert_eq!(engine.add_transaction(t), Ok(()));
    }
    assert_eq!(engine.current_account_states().len(), 2);
    assert_row(&row(&engine, 1), "1.5", "0", "1.5", Lock::Unlocked);
    assert_row(&row(&engine, 2), "2", "0", "2", Lock::Unlocked);
}

#[test]
fn chargeback_end_to_end() {
    let mut engine = TransactionEngine::default();
    assert_eq!(engine.add_transaction(tx(Kind::Deposit, 1, 1, Some("5.0"))), Ok(()));
    assert_eq!(engine.add_transaction(tx(Kind::Dispute, 1, 1, None)), Ok(()));
    assert_row(&row(&engine, 1), "0", "5", "5", Lock::Unlocked);
    assert_eq!(engine.add_transaction(tx(Kind::Chargeback, 1, 1, None)), Ok(()));
    assert_row(&row(&engine, 1), "0", "0", "0", Lock::Locked);
}

#[test]
fn deposits_add_up() {
    let mut engine = TransactionEngine::default();
    for (i, v) in ["1.25", "2", "0.0001", "10"].iter().enumerate() {
        assert_eq!(engine.add_transaction(tx(Kind::Deposit, 7, i as u32, Some(v))), Ok(()));
    }
    assert_row(&row(&engine, 7), "13.2501", "0", "13.2501", Lock::Unlocked);
}

#[test]
fn rejected_withdrawal_keeps_total() {
    let mut engine = TransactionEngine::default();
    assert_eq!(engine.add_transaction(tx(Kind::Deposit, 3, 1, Some("2"))), Ok(()));
    assert_eq!(engine.add_transaction(tx(Kind::Withdrawal, 3, 2, Some("2.5"))), Ok(()));
    assert_row(&row(&engine, 3), "2", "0", "2", Lock::Unlocked);
    assert_eq!(engine.add_transaction(tx(Kind::Withdrawal, 3, 3, Some("2"))), Ok(()));
    assert_row(&row(&engine, 3), "0", "0", "0", Lock::Unlocked);
}

#[test]
fn dispute_then_resolve_restores_held() {
    let mut engine = TransactionEngine::default();
    assert_eq!(engine.add_transaction(tx(Kind::Deposit, 4, 1, Some("3"))), Ok(()));
    assert_eq!(engine.add_transaction(tx(Kind::Deposit, 4, 2, Some("1.5"))), Ok(()));
    assert_eq!(engine.add_transaction(tx(Kind::Dispute, 4, 2, None)), Ok(()));
    assert_row(&row(&engine, 4), "3", "1.5", "4.5", Lock::Unlocked);
    assert_eq!(engine.add_transaction(tx(Kind::Resolve, 4, 2, None)), Ok(()));
    assert_row(&row(&engine, 4), "4.5", "0", "4.5", Lock::Unlocked);
}

#[test]
fn unknown_ids_change_nothing() {
    let mut engine = TransactionEngine::default();
    assert_eq!(engine.add_transaction(tx(Kind::Deposit, 5, 1, Some("1"))), Ok(()));
    assert_eq!(engine.add_transaction(tx(Kind::Dispute, 5, 9, None)), Ok(()));
    assert_eq!(engine.add_transaction(tx(Kind::Resolve, 5, 10, None)), Ok(()));
    assert_eq!(engine.add_transaction(tx(Kind::Chargeback, 5, 11, None)), Ok(()));
    assert_row(&row(&engine, 5), "1", "0", "1", Lock::Unlocked);
}

#[test]
fn resolve_without_dispute_is_ignored() {
    let mut engine = TransactionEngine::default();
    assert_eq!(engine.add_transaction(tx(Kind::Deposit, 6, 1, Some("1"))), Ok(()));
    assert_eq!(engine.add_transaction(tx(Kind::Resolve, 6, 1, None)), Ok(()));
    assert_eq!(engine.add_transaction(tx(Kind::Chargeback, 6, 1, None)), Ok(()));
    assert_row(&row(&engine, 6), "1", "0", "1", Lock::Unlocked);
}

#[test]
fn locked_account_still_takes_deposits() {
    let mut engine = TransactionEngine::default();
    assert_eq!(engine.add_transaction(tx(Kind::Deposit, 8, 1, Some("2"))), Ok(()));
    assert_eq!(engine.add_transaction(tx(Kind::Dispute, 8, 1, None)), Ok(()));
    assert_eq!(engine.add_transaction(tx(Kind::Chargeback, 8, 1, None)), Ok(()));
    assert_eq!(engine.add_transaction(tx(Kind::Deposit, 8, 2, Some("3"))), Ok(()));
    assert_row(&row(&engine, 8), "3", "0", "3", Lock::Locked);
}

#[test]
fn second_resolve_underflows_held() {
    let mut engine = TransactionEngine::default();
    assert_eq!(engine.add_transaction(tx(Kind::Deposit, 9, 1, Some("2"))), Ok(()));
    assert_eq!(engine.add_transaction(tx(Kind::Dispute, 9, 1, None)), Ok(()));
    assert_eq!(engine.add_transaction(tx(Kind::Resolve, 9, 1, None)), Ok(()));
    assert_eq!(
        engine.add_transaction(tx(Kind::Resolve, 9, 1, None)),
        Err(EngineError::HeldUnderflow)
    );
    assert_row(&row(&engine, 9), "2", "0", "2", Lock::Unlocked);
}

#[test]
fn missing_amount_is_fatal() {
    let mut engine = TransactionEngine::default();
    assert_eq!(
        engine.add_transaction(tx(Kind::Deposit, 1, 1, None)),
        Err(EngineError::MissingAmount)
    );
    assert_eq!(
        engine.add_transaction(tx(Kind::Withdrawal, 1, 2, None)),
        Err(EngineError::MissingAmount)
    );
    assert_row(&row(&engine, 1), "0", "0", "0", Lock::Unlocked);
}

#[test]
fn overflowing_deposit_is_fatal() {
    let mut engine = TransactionEngine::default();
    let max = Amount::new(79228162514264337593543950335, 0).unwrap();
    let deposit = |id: u32| Transaction {
        kind: Kind::Deposit,
        client: 2,
        transaction_id: id,
        amount: Some(max),
    };
    assert_eq!(engine.add_transaction(deposit(1)), Ok(()));
    assert_eq!(engine.add_transaction(deposit(2)), Err(EngineError::Overflow));
}

#[test]
fn account_level_state_machine() {
    let mut state = UserState::new();
    assert_eq!(state.add_transaction(tx(Kind::Deposit, 1, 1, Some("4"))), Ok(()));
    assert_eq!(state.add_transaction(tx(Kind::Withdrawal, 1, 2, Some("1.25"))), Ok(()));
    let s = state.summary(1);
    assert_eq!(s.client, 1);
    assert_row(&s, "2.75", "0", "2.75", Lock::Unlocked);
}

#[test]
fn outcomes_name_each_rejection() {
    let mut engine = TransactionEngine::default();
    assert_eq!(engine.apply(tx(Kind::Deposit, 1, 1, Some("2"))), Ok(Outcome::Applied));
    assert_eq!(
        engine.apply(tx(Kind::Withdrawal, 1, 2, Some("3"))),
        Ok(Outcome::InsufficientFunds)
    );
    assert_eq!(engine.apply(tx(Kind::Dispute, 1, 7, None)), Ok(Outcome::NoDepositToDispute));
    assert_eq!(engine.apply(tx(Kind::Resolve, 1, 1, None)), Ok(Outcome::NoDisputeToSettle));
    assert_eq!(engine.apply(tx(Kind::Dispute, 1, 8, None)), Ok(Outcome::NoDepositToDispute));
    assert_eq!(engine.apply(tx(Kind::Chargeback, 1, 8, None)), Ok(Outcome::NoDepositToSettle));
    assert_eq!(engine.apply(tx(Kind::Withdrawal, 1, 3, Some("1.5"))), Ok(Outcome::Applied));
    assert_eq!(engine.apply(tx(Kind::Dispute, 1, 1, None)), Ok(Outcome::HeldExceedsTotal));
    assert_eq!(engine.apply(tx(Kind::Chargeback, 1, 1, None)), Ok(Outcome::TotalNegative));
    assert_row(&row(&engine, 1), "0", "0", "-1.5", Lock::Locked);
}

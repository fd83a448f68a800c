use ledger_engine::amount::Amount;
use ledger_engine::csv::LikelyValidLine;
use ledger_engine::dispatch::{shard_of, worker_count};

#[test]
fn worker_count_follows_configuration() {
    assert_eq!(worker_count(8, 0), 8);
    assert_eq!(worker_count(8, 3), 3);
    assert_eq!(worker_count(8, -2), 6);
    assert_eq!(worker_count(8, -8), 1);
    assert_eq!(worker_count(8, -100), 1);
}

#[test]
fn shard_is_client_modulo_workers() {
    assert_eq!(shard_of(7, 3), 1);
    assert_eq!(shard_of(9, 3), 0);
    assert_eq!(shard_of(65535, 1), 0);
}

#[test]
fn only_ascii_non_empty_lines_pass() {
    assert!(LikelyValidLine::valid_line(String::new()).is_none());
    assert!(LikelyValidLine::valid_line(String::from("dépôt,1,1,1.0")).is_none());
    let line = LikelyValidLine::valid_line(String::from("deposit,1,1,1.0")).unwrap();
    assert_eq!(line.into_string(), "deposit,1,1,1.0");
}

#[test]
fn amounts_stay_in_decimal_range() {
    assert!(Amount::new(79228162514264337593543950335, 28).is_some());
    assert!(Amount::new(79228162514264337593543950336, 0).is_none());
    assert!(Amount::new(1, 29).is_none());
    let z = Amount::zero();
    assert_eq!((z.mantissa, z.scale), (0, 0));
}

#[test]
fn second_setup_reports_installed_logger() {
    let _ = ledger_engine::setup::setup();
    assert_eq!(
        ledger_engine::setup::setup(),
        Err(ledger_engine::setup::SetupError::LoggerAlreadySet)
    );
}

#[test]
fn blank_lines_are_skipped() {
    assert!(LikelyValidLine::valid_line(String::from("  ")).is_none());
    assert!(LikelyValidLine::valid_line(String::from(" \t\r\n")).is_none());
    let line = LikelyValidLine::valid_line(String::from("  x ")).unwrap();
    assert_eq!(line.into_string(), "  x ");
}

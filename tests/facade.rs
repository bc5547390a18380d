use txn_pipeline::facade::{
    decimal_string, get_accounts_balances, get_timings, get_user_info, make_transaction_id,
    prepare_transaction, process_transaction, update_timing, validate_user_id, FacadeError,
};
use txn_pipeline::logging::TransactionLog;
use txn_pipeline::messages::{self, LedgerStore};
use txn_pipeline::models::{Metrics, ServiceKind, TransactionMessage, TransactionResponse};

fn msg(user: &str, amount: i64) -> TransactionMessage {
    TransactionMessage { user_id: user.to_string(), amount }
}

#[test]
fn empty_user_is_refused_before_any_call() {
    let r = prepare_transaction(msg("", 10), 5);
    assert!(matches!(r, Err(FacadeError::Validation)));
    assert_eq!(validate_user_id(&String::new()), Err(FacadeError::Validation));
    assert_eq!(validate_user_id(&"bob".to_string()), Ok(()));
}

#[test]
fn prepared_command_carries_request_and_fresh_id() {
    let a = prepare_transaction(msg("alice", 10), 1234).unwrap();
    let b = prepare_transaction(msg("alice", 10), 1234).unwrap();
    assert_eq!(a.user_id, "alice");
    assert_eq!(a.amount, 10);
    assert_eq!(a.transaction_id.len(), 41);
    assert!(a.transaction_id.ends_with("-1234"));
    assert_ne!(a.transaction_id, b.transaction_id);
}

#[test]
fn transaction_id_format() {
    assert_eq!(make_transaction_id(&"abc".to_string(), 0), "abc-0");
    assert_eq!(make_transaction_id(&"x".to_string(), 1700000000123456789), "x-1700000000123456789");
    assert_eq!(decimal_string(u128::MAX), u128::MAX.to_string());
    assert_eq!(decimal_string(907), "907");
}

#[test]
fn submit_against_working_backends() {
    let mut metrics = Metrics::new();
    let mut ledger = LedgerStore::new();
    let mut log = TransactionLog::new();
    let mut balances = Vec::new();
    for amount in [10i64, 15] {
        let cmd = prepare_transaction(msg("alice", amount), 1).unwrap();
        let reply = messages::process_transaction(&mut ledger, &cmd).ok();
        let same = txn_pipeline::models::TransactionCommand {
            transaction_id: cmd.transaction_id.clone(),
            user_id: cmd.user_id.clone(),
            amount: cmd.amount,
        };
        let logged = txn_pipeline::logging::process_transaction(&mut log, same).is_ok();
        let resp = process_transaction(&mut metrics, 3, 4, reply, logged).unwrap();
        balances.push(resp.balance);
    }
    assert_eq!(balances, vec![10, 25]);
    assert_eq!(log.get_user_transactions(&"alice".to_string()).unwrap(), vec![10, 15]);
    let t = get_timings(&metrics);
    assert_eq!(t.counter_time, 6);
    assert_eq!(t.logging_time, 8);
}

#[test]
fn ledger_failure_fails_whatever_the_log_did() {
    let mut metrics = Metrics::new();
    assert!(matches!(process_transaction(&mut metrics, 2, 3, None, true), Err(FacadeError::Upstream)));
    assert!(matches!(process_transaction(&mut metrics, 2, 3, None, false), Err(FacadeError::Upstream)));
    let ok = TransactionResponse { user_id: "u".to_string(), balance: 9 };
    let r = process_transaction(&mut metrics, 2, 3, Some(ok), false).unwrap();
    assert_eq!(r.balance, 9);
    assert_eq!(metrics.counter_time, 6);
    assert_eq!(metrics.logging_time, 9);
}

#[test]
fn user_info_with_log_down() {
    let mut metrics = Metrics::new();
    let info = get_user_info(&mut metrics, 5, 6, Some(42), None);
    assert_eq!(info.balance, 42);
    assert!(info.transactions.is_empty());
    let info = get_user_info(&mut metrics, 5, 6, None, Some(vec![1, 2]));
    assert_eq!(info.balance, 0);
    assert_eq!(info.transactions, vec![1, 2]);
    assert_eq!(metrics.counter_time, 10);
    assert_eq!(metrics.logging_time, 12);
}

#[test]
fn timings_positive_after_two_dispatches() {
    let mut metrics = Metrics::new();
    assert_eq!(get_timings(&metrics), Metrics { counter_time: 0, logging_time: 0 });
    let _ = process_transaction(&mut metrics, 17, 1, None, false);
    let _ = get_user_info(&mut metrics, 1, 29, None, None);
    let t = get_timings(&metrics);
    assert!(t.counter_time > 0 && t.logging_time > 0);
    assert_eq!(t, Metrics { counter_time: 18, logging_time: 30 });
}

#[test]
fn snapshots_between_recordings_are_consistent() {
    let mut metrics = Metrics::new();
    for k in 1..=500u128 {
        update_timing(&mut metrics, ServiceKind::Counter, 1);
        update_timing(&mut metrics, ServiceKind::Logging, 2);
        let t = get_timings(&metrics);
        assert_eq!(t.counter_time, k);
        assert_eq!(t.logging_time, 2 * t.counter_time);
    }
}

#[test]
fn timing_saturates() {
    let mut metrics = Metrics { counter_time: u128::MAX - 1, logging_time: 0 };
    update_timing(&mut metrics, ServiceKind::Counter, 5);
    assert_eq!(metrics.counter_time, u128::MAX);
    assert_eq!(metrics.logging_time, 0);
}

#[test]
fn account_balances_pass_through_or_fail() {
    let mut metrics = Metrics::new();
    let v = vec![("a".to_string(), 3i64)];
    assert_eq!(get_accounts_balances(&mut metrics, 4, Some(v.clone())), Ok(v));
    assert_eq!(get_accounts_balances(&mut metrics, 4, None), Err(FacadeError::Upstream));
    assert_eq!(metrics.counter_time, 8);
    assert_eq!(metrics.logging_time, 0);
}

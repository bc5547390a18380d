use txn_pipeline::messages::{get_user_balance, get_user_balances, process_transaction, LedgerStore};
use txn_pipeline::models::{StoreError, TransactionCommand};

fn cmd(id: &str, user: &str, amount: i64) -> TransactionCommand {
    TransactionCommand { transaction_id: id.to_string(), user_id: user.to_string(), amount }
}

#[test]
fn apply_then_balance_is_sum() {
    let mut store = LedgerStore::new();
    let amounts = [7i64, -3, 12, 0, 5];
    let mut sum = 0i64;
    for (i, a) in amounts.iter().enumerate() {
        sum += a;
        let r = store.apply(&cmd(&format!("t{}", i), "u", *a)).unwrap();
        assert_eq!(r, sum);
        assert_eq!(store.get_balance(&"u".to_string()).unwrap(), sum);
    }
}

#[test]
fn split_and_joined_sequences_agree() {
    let mut split = LedgerStore::new();
    split.apply(&cmd("a", "U", 5)).unwrap();
    split.apply(&cmd("b", "U", 3)).unwrap();
    split.apply(&cmd("c", "U", -2)).unwrap();
    let mut joined = LedgerStore::new();
    for (i, a) in [5i64, 3, -2].iter().enumerate() {
        joined.apply(&cmd(&format!("j{}", i), "U", *a)).unwrap();
    }
    assert_eq!(split.get_balance(&"U".to_string()).unwrap(), 6);
    assert_eq!(joined.get_balance(&"U".to_string()).unwrap(), 6);
}

#[test]
fn interleaved_users_do_not_interfere() {
    let mut store = LedgerStore::new();
    store.apply(&cmd("1", "a", 4)).unwrap();
    store.apply(&cmd("2", "b", 10)).unwrap();
    store.apply(&cmd("3", "a", -1)).unwrap();
    store.apply(&cmd("4", "b", 2)).unwrap();
    let mut other = LedgerStore::new();
    other.apply(&cmd("4", "b", 2)).unwrap();
    other.apply(&cmd("3", "a", -1)).unwrap();
    other.apply(&cmd("1", "a", 4)).unwrap();
    other.apply(&cmd("2", "b", 10)).unwrap();
    assert_eq!(store.get_balance(&"a".to_string()).unwrap(), 3);
    assert_eq!(store.get_balance(&"b".to_string()).unwrap(), 12);
    assert_eq!(other.get_balance(&"a".to_string()).unwrap(), 3);
    assert_eq!(other.get_balance(&"b".to_string()).unwrap(), 12);
}

#[test]
fn every_interleaving_gives_the_exact_sum() {
    let amounts: Vec<i64> = (0..40i64).map(|k| (k * 37) % 23 - 11).collect();
    let expected: i64 = amounts.iter().sum();
    let mut seed: u64 = 12345;
    for _round in 0..20 {
        let mut order: Vec<usize> = (0..amounts.len()).collect();
        for i in (1..order.len()).rev() {
            seed = seed.wrapping_mul(6364136223846793005).wrapping_add(1442695040888963407);
            let j = (seed >> 33) as usize % (i + 1);
            order.swap(i, j);
        }
        let mut store = LedgerStore::new();
        for (n, idx) in order.iter().enumerate() {
            store.apply(&cmd(&format!("t{}", n), "same", amounts[*idx])).unwrap();
            store.apply(&cmd(&format!("o{}", n), "other", 1)).unwrap();
        }
        assert_eq!(store.get_balance(&"same".to_string()).unwrap(), expected);
        assert_eq!(store.get_balance(&"other".to_string()).unwrap(), amounts.len() as i64);
    }
}

#[test]
fn apply_rejects_empty_ids() {
    let mut store = LedgerStore::new();
    assert_eq!(store.apply(&cmd("t", "", 1)), Err(StoreError::Validation));
    assert_eq!(store.apply(&cmd("", "u", 1)), Err(StoreError::Validation));
    assert!(get_user_balances(&store).is_empty());
}

#[test]
fn apply_reports_overflow_and_keeps_balance() {
    let mut store = LedgerStore::new();
    store.apply(&cmd("t1", "u", i64::MAX)).unwrap();
    assert_eq!(store.apply(&cmd("t2", "u", 1)), Err(StoreError::Overflow));
    assert_eq!(store.get_balance(&"u".to_string()).unwrap(), i64::MAX);
}

#[test]
fn process_transaction_replies_with_user_and_balance() {
    let mut store = LedgerStore::new();
    let r = process_transaction(&mut store, &cmd("t1", "alice", 10)).unwrap();
    assert_eq!(r.user_id, "alice");
    assert_eq!(r.balance, 10);
    let r = process_transaction(&mut store, &cmd("t2", "alice", 15)).unwrap();
    assert_eq!(r.balance, 25);
}

#[test]
fn reading_unknown_user_creates_zero_row() {
    let mut store = LedgerStore::new();
    assert!(get_user_balances(&store).is_empty());
    assert_eq!(get_user_balance(&mut store, &"ghost".to_string()), Ok(0));
    let all = get_user_balances(&store);
    assert_eq!(all.len(), 1);
    assert_eq!(all[0].0, "ghost");
    assert_eq!(all[0].1, 0);
    assert_eq!(get_user_balance(&mut store, &String::new()), Err(StoreError::Validation));
}

#[test]
fn all_balances_lists_each_user_once() {
    let mut store = LedgerStore::new();
    store.apply(&cmd("1", "x", 1)).unwrap();
    store.apply(&cmd("2", "y", 2)).unwrap();
    store.apply(&cmd("3", "x", 3)).unwrap();
    let mut all = get_user_balances(&store);
    all.sort();
    assert_eq!(all, vec![("x".to_string(), 4), ("y".to_string(), 2)]);
}

use payments_engine::process::{
    handle_chargeback, handle_deposit, handle_dispute, handle_resolve, handle_withdrawal,
    process_transaction, run, Accounts, TxCache,
};
use payments_engine::types::{Account, CachedTx, Transaction, TransactionType};

const ONE: i64 = 10000;

fn record(kind: TransactionType, client: u16, tx: u32, amount: Option<i64>) -> Transaction {
    Transaction { kind, client, tx, amount }
}

fn deposit_one() -> Transaction {
    record(TransactionType::Deposit, 1, 1, Some(ONE))
}

#[test]
fn handle_deposit_creates_account() {
    let mut accounts = Accounts::new();
    let mut tx_cache = TxCache::new();
    handle_deposit(&mut accounts, &mut tx_cache, deposit_one());
    assert_eq!(accounts.len(), 1);
    assert_eq!(tx_cache.len(), 1);
}

#[test]
fn handle_deposit_adds_to_existing_account() {
    let mut accounts = Accounts::new();
    let mut tx_cache = TxCache::new();
    let mut deposit2 = deposit_one();
    deposit2.tx = 2;
    handle_deposit(&mut accounts, &mut tx_cache, deposit_one());
    handle_deposit(&mut accounts, &mut tx_cache, deposit2);
    assert_eq!(accounts.len(), 1);
    assert_eq!(tx_cache.len(), 2);
    assert_eq!(accounts.get(&1).map_or(-10, |x| x.total), 2 * ONE);
}

#[test]
fn handle_withdrawal_subtracts_from_account() {
    let mut accounts = Accounts::new();
    let mut tx_cache = TxCache::new();
    handle_deposit(&mut accounts, &mut tx_cache, deposit_one());
    handle_withdrawal(&mut accounts, deposit_one());
    assert_eq!(accounts.len(), 1);
    assert_eq!(tx_cache.len(), 1);
    assert_eq!(accounts[&1].total, 0);
}

#[test]
fn cant_withdraw_more_than_available() {
    let mut accounts = Accounts::new();
    let mut tx_cache = TxCache::new();
    let mut withdrawal = deposit_one();
    withdrawal.amount = Some(2 * ONE);
    handle_deposit(&mut accounts, &mut tx_cache, deposit_one());
    handle_withdrawal(&mut accounts, withdrawal);
    assert_eq!(accounts.get(&1).map_or(-10, |x| x.total), ONE);
}

#[test]
fn handle_withdrawal_doesnt_create_unseen_account() {
    let mut accounts = Accounts::new();
    handle_withdrawal(&mut accounts, deposit_one());
    assert_eq!(accounts.len(), 0);
}

#[test]
fn handle_dispute_marks_funds_correctly() {
    let mut accounts = Accounts::new();
    let mut tx_cache = TxCache::new();
    handle_deposit(&mut accounts, &mut tx_cache, deposit_one());
    handle_dispute(&mut accounts, &mut tx_cache, deposit_one());
    assert_eq!(accounts.get(&1).map_or(-10, |x| x.held), ONE);
    assert!(tx_cache.get(&1).map_or(false, |x| x.disputed));
}

#[test]
fn handle_dispute_doesnt_effect_wrong_client() {
    let mut accounts = Accounts::new();
    let mut tx_cache = TxCache::new();
    let mut dispute = deposit_one();
    dispute.client = 2;
    handle_deposit(&mut accounts, &mut tx_cache, deposit_one());
    handle_dispute(&mut accounts, &mut tx_cache, dispute);
    assert_eq!(accounts.get(&1).map_or(-10, |x| x.held), 0);
    assert!(!tx_cache.get(&1).map_or(true, |x| x.disputed));
}

#[test]
fn total_funds_go_negative() {
    let mut accounts = Accounts::new();
    let mut tx_cache = TxCache::new();
    handle_deposit(&mut accounts, &mut tx_cache, deposit_one());
    handle_withdrawal(&mut accounts, deposit_one());
    handle_dispute(&mut accounts, &mut tx_cache, deposit_one());
    handle_chargeback(&mut accounts, &mut tx_cache, deposit_one());
    assert_eq!(accounts.get(&1).map_or(-10, |x| x.total), -ONE);
    assert!(accounts.get(&1).map_or(false, |x| x.locked));
}

#[test]
fn resolve_releases_held_funds() {
    let mut accounts = Accounts::new();
    let mut tx_cache = TxCache::new();
    handle_deposit(&mut accounts, &mut tx_cache, deposit_one());
    handle_dispute(&mut accounts, &mut tx_cache, deposit_one());
    handle_resolve(&mut accounts, &mut tx_cache, deposit_one());
    assert_eq!(accounts[&1], Account { held: 0, total: ONE, locked: false });
    assert!(!tx_cache[&1].disputed);
    // a second resolve finds nothing disputed
    handle_resolve(&mut accounts, &mut tx_cache, deposit_one());
    assert_eq!(accounts[&1].held, 0);
}

#[test]
fn double_dispute_holds_once() {
    let mut accounts = Accounts::new();
    let mut tx_cache = TxCache::new();
    handle_deposit(&mut accounts, &mut tx_cache, deposit_one());
    handle_dispute(&mut accounts, &mut tx_cache, deposit_one());
    handle_dispute(&mut accounts, &mut tx_cache, deposit_one());
    assert_eq!(accounts[&1].held, ONE);
}

#[test]
fn chargeback_without_dispute_is_ignored() {
    let mut accounts = Accounts::new();
    let mut tx_cache = TxCache::new();
    handle_deposit(&mut accounts, &mut tx_cache, deposit_one());
    handle_chargeback(&mut accounts, &mut tx_cache, deposit_one());
    assert_eq!(accounts[&1], Account { held: 0, total: ONE, locked: false });
}

#[test]
fn duplicate_deposit_is_ignored() {
    let mut accounts = Accounts::new();
    let mut tx_cache = TxCache::new();
    process_transaction(&mut accounts, &mut tx_cache, deposit_one());
    let after_first = accounts[&1];
    let mut again = deposit_one();
    again.amount = Some(5 * ONE);
    process_transaction(&mut accounts, &mut tx_cache, again);
    assert_eq!(accounts[&1], after_first);
    assert_eq!(tx_cache[&1].amount, ONE);
}

#[test]
fn locked_account_ignores_everything() {
    let ts = vec![
        record(TransactionType::Deposit, 1, 1, Some(2 * ONE)),
        record(TransactionType::Dispute, 1, 1, None),
        record(TransactionType::Chargeback, 1, 1, None),
        record(TransactionType::Deposit, 1, 2, Some(ONE)),
        record(TransactionType::Withdrawal, 1, 3, Some(ONE)),
        record(TransactionType::Dispute, 1, 1, None),
    ];
    let accounts = run(&ts);
    assert_eq!(accounts[&1], Account { held: 0, total: 0, locked: true });
}

#[test]
fn available_is_total_minus_held() {
    let a = Account { held: 3 * ONE, total: ONE, locked: false };
    assert_eq!(a.available(), -2 * ONE);
}

#[test]
fn missing_amount_counts_as_zero() {
    assert_eq!(record(TransactionType::Dispute, 1, 1, None).amount(), 0);
    assert_eq!(deposit_one().amount(), ONE);
    assert_eq!(CachedTx::new(ONE, 4), CachedTx { amount: ONE, client: 4, disputed: false });
    assert_eq!(Account::new_deposit(ONE), Account { held: 0, total: ONE, locked: false });
}

#[test]
fn overflowing_deposit_is_dropped() {
    let ts = vec![
        record(TransactionType::Deposit, 1, 1, Some(i64::MAX)),
        record(TransactionType::Deposit, 1, 2, Some(1)),
    ];
    let accounts = run(&ts);
    assert_eq!(accounts[&1].total, i64::MAX);
}

// From a deposit of 1.0, through a withdrawal, a dispute and a chargeback.
fn scenario_stores(steps: usize) -> (Accounts, TxCache) {
    let ts = [
        record(TransactionType::Deposit, 1, 1, Some(ONE)),
        record(TransactionType::Withdrawal, 1, 2, Some(ONE)),
        record(TransactionType::Dispute, 1, 1, None),
        record(TransactionType::Chargeback, 1, 1, None),
    ];
    let mut accounts = Accounts::new();
    let mut tx_cache = TxCache::new();
    for t in ts.iter().take(steps) {
        process_transaction(&mut accounts, &mut tx_cache, *t);
    }
    (accounts, tx_cache)
}

#[test]
fn scenario_deposit() {
    let (accounts, tx_cache) = scenario_stores(1);
    let a = accounts[&1];
    assert_eq!(a, Account { held: 0, total: ONE, locked: false });
    assert_eq!(a.available(), ONE);
    assert_eq!(tx_cache[&1], CachedTx { amount: ONE, client: 1, disputed: false });
}

#[test]
fn scenario_withdrawal_too_large() {
    let (mut accounts, mut tx_cache) = scenario_stores(1);
    process_transaction(
        &mut accounts,
        &mut tx_cache,
        record(TransactionType::Withdrawal, 1, 2, Some(2 * ONE)),
    );
    assert_eq!(accounts[&1], Account { held: 0, total: ONE, locked: false });
}

#[test]
fn scenario_withdrawal_accepted() {
    let (accounts, _) = scenario_stores(2);
    assert_eq!(accounts[&1], Account { held: 0, total: 0, locked: false });
}

#[test]
fn scenario_dispute_after_withdrawal() {
    let (accounts, tx_cache) = scenario_stores(3);
    let a = accounts[&1];
    assert_eq!(a, Account { held: ONE, total: 0, locked: false });
    assert_eq!(a.available(), -ONE);
    assert!(tx_cache[&1].disputed);
}

#[test]
fn scenario_chargeback_locks() {
    let (accounts, tx_cache) = scenario_stores(4);
    let a = accounts[&1];
    assert_eq!(a, Account { held: 0, total: -ONE, locked: true });
    assert_eq!(a.available(), -ONE);
    assert!(!tx_cache[&1].disputed);
}

#[test]
fn scenario_dispute_from_wrong_client() {
    let mut accounts = Accounts::new();
    let mut tx_cache = TxCache::new();
    process_transaction(&mut accounts, &mut tx_cache, record(TransactionType::Deposit, 9, 5, Some(ONE)));
    process_transaction(&mut accounts, &mut tx_cache, record(TransactionType::Dispute, 7, 5, None));
    assert_eq!(accounts[&9], Account { held: 0, total: ONE, locked: false });
    assert!(!tx_cache[&5].disputed);
    assert!(!accounts.contains_key(&7));
    assert_eq!(accounts.len(), 1);
}

//! The transaction processor: applies one record at a time to the account store and the
//! cache of disputable deposits.

use std::collections::HashMap;
use vstd::prelude::*;

use crate::types::{balances_fit, Account, CachedTx, ClientId, Transaction, TransactionId, TransactionType};

verus! {

broadcast use vstd::std_specs::hash::group_hash_axioms;

/// Maps client ids to their accounts.
pub type Accounts = HashMap<ClientId, Account>;

/// Accepted deposits, by transaction id, for handling disputes.
pub type TxCache = HashMap<TransactionId, CachedTx>;

/// The mathematical state of the two stores: accounts and cached deposits.
pub type Stores = (Map<ClientId, Account>, Map<TransactionId, CachedTx>);

/// Every account's balances are representable.
pub open spec fn accounts_wf(accounts: Map<ClientId, Account>) -> bool {
    forall|c: ClientId| #[trigger] accounts.contains_key(c) ==> accounts[c].wf()
}

/// Whether a dispute-family record finds an account for its client and a deposit of that
/// same client under its transaction id.
pub open spec fn lookup_ok(s: Stores, t: Transaction) -> bool {
    &&& s.0.contains_key(t.client)
    &&& s.1.contains_key(t.tx)
    &&& s.1[t.tx].client == t.client
}

pub open spec fn deposit_step(s: Stores, t: Transaction) -> Stores {
    let entry = CachedTx { amount: t.spec_amount() as i64, client: t.client, disputed: false };
    if s.1.contains_key(t.tx) {
        s
    } else if s.0.contains_key(t.client) {
        let acc = s.0[t.client];
        let total = acc.total + t.spec_amount();
        if balances_fit(total, acc.held as int) {
            (s.0.insert(t.client, Account { total: total as i64, ..acc }), s.1.insert(t.tx, entry))
        } else {
            s
        }
    } else {
        (
            s.0.insert(t.client, Account { held: 0, total: t.spec_amount() as i64, locked: false }),
            s.1.insert(t.tx, entry),
        )
    }
}

/// The accounts after a withdrawal; withdrawals never touch the cache.
pub open spec fn withdraw_from(accounts: Map<ClientId, Account>, t: Transaction) -> Map<
    ClientId,
    Account,
> {
    if accounts.contains_key(t.client) {
        let acc = accounts[t.client];
        let total = acc.total - t.spec_amount();
        if acc.spec_available() >= t.spec_amount() && balances_fit(total, acc.held as int) {
            accounts.insert(t.client, Account { total: total as i64, ..acc })
        } else {
            accounts
        }
    } else {
        accounts
    }
}

pub open spec fn withdrawal_step(s: Stores, t: Transaction) -> Stores {
    (withdraw_from(s.0, t), s.1)
}

pub open spec fn dispute_step(s: Stores, t: Transaction) -> Stores {
    if lookup_ok(s, t) {
        let acc = s.0[t.client];
        let cached = s.1[t.tx];
        let held = acc.held + cached.amount;
        if !cached.disputed && balances_fit(acc.total as int, held) {
            (
                s.0.insert(t.client, Account { held: held as i64, ..acc }),
                s.1.insert(t.tx, CachedTx { disputed: true, ..cached }),
            )
        } else {
            s
        }
    } else {
        s
    }
}

pub open spec fn resolve_step(s: Stores, t: Transaction) -> Stores {
    if lookup_ok(s, t) {
        let acc = s.0[t.client];
        let cached = s.1[t.tx];
        let held = acc.held - cached.amount;
        if cached.disputed && balances_fit(acc.total as int, held) {
            (
                s.0.insert(t.client, Account { held: held as i64, ..acc }),
                s.1.insert(t.tx, CachedTx { disputed: false, ..cached }),
            )
        } else {
            s
        }
    } else {
        s
    }
}

pub open spec fn chargeback_step(s: Stores, t: Transaction) -> Stores {
    if lookup_ok(s, t) {
        let acc = s.0[t.client];
        let cached = s.1[t.tx];
        let held = acc.held - cached.amount;
        let total = acc.total - cached.amount;
        if cached.disputed && balances_fit(total, held) {
            (
                s.0.insert(t.client, Account { held: held as i64, total: total as i64, locked: true }),
                s.1.insert(t.tx, CachedTx { disputed: false, ..cached }),
            )
        } else {
            s
        }
    } else {
        s
    }
}

/// The effect of one record: nothing for a locked client, else its kind's handler.
pub open spec fn apply(s: Stores, t: Transaction) -> Stores {
    if s.0.contains_key(t.client) && s.0[t.client].locked {
        s
    } else {
        match t.kind {
            TransactionType::Deposit => deposit_step(s, t),
            TransactionType::Withdrawal => withdrawal_step(s, t),
            TransactionType::Dispute => dispute_step(s, t),
            TransactionType::Resolve => resolve_step(s, t),
            TransactionType::Chargeback => chargeback_step(s, t),
        }
    }
}

/// The effect of a sequence of records, applied in order.
pub open spec fn replay(s: Stores, ts: Seq<Transaction>) -> Stores
    decreases ts.len(),
{
    if ts.len() == 0 {
        s
    } else {
        apply(replay(s, ts.drop_last()), ts.last())
    }
}

/// Two empty stores.
pub open spec fn empty_stores() -> Stores {
    (Map::empty(), Map::empty())
}

/// Tests whether the balances `total` and `held` can be stored in an account.
fn balances_fit_exec(total: i128, held: i128) -> (r: bool)
    ensures
        r == balances_fit(total as int, held as int),
{
    let lo = i64::MIN as i128;
    let hi = i64::MAX as i128;
    lo <= total && total <= hi && lo <= held && held <= hi && lo <= total - held && total - held <= hi
}

/// Adds a deposit's amount to its client's account, creating the account if needed, and
/// caches the deposit. A repeated transaction id is ignored.
pub fn handle_deposit(accounts: &mut Accounts, tx_cache: &mut TxCache, transaction: Transaction)
    requires
        accounts_wf(old(accounts)@),
    ensures
        accounts_wf(final(accounts)@),
        (final(accounts)@, final(tx_cache)@) == deposit_step(
            (old(accounts)@, old(tx_cache)@),
            transaction,
        ),
{
    if tx_cache.contains_key(&transaction.tx) {
        return ;
    }
    let amount = transaction.amount();
    match accounts.get(&transaction.client) {
        Some(account) => {
            let acc = *account;
            let total = acc.total as i128 + amount as i128;
            if !balances_fit_exec(total, acc.held as i128) {
                return ;
            }
            accounts.insert(transaction.client, Account { total: total as i64, ..acc });
        },
        None => {
            accounts.insert(transaction.client, Account::new_deposit(amount));
        },
    }
    tx_cache.insert(transaction.tx, CachedTx::new(amount, transaction.client));
}

/// Takes a withdrawal's amount from its client's account where the available funds cover it.
/// Withdrawals are never cached.
pub fn handle_withdrawal(accounts: &mut Accounts, transaction: Transaction)
    requires
        accounts_wf(old(accounts)@),
    ensures
        accounts_wf(final(accounts)@),
        final(accounts)@ == withdraw_from(old(accounts)@, transaction),
{
    let amount = transaction.amount();
    match accounts.get(&transaction.client) {
        Some(account) => {
            let acc = *account;
            let total = acc.total as i128 - amount as i128;
            if acc.available() >= amount && balances_fit_exec(total, acc.held as i128) {
                accounts.insert(transaction.client, Account { total: total as i64, ..acc });
            }
        },
        None => {},
    }
}

/// Finds the client's account and the cached deposit that a dispute-family record names,
/// where both exist and the deposit belongs to that client.
pub fn get_existing(accounts: &Accounts, tx_cache: &TxCache, transaction: &Transaction) -> (r:
    Option<(Account, CachedTx)>)
    ensures
        r == if lookup_ok((accounts@, tx_cache@), *transaction) {
            Some((accounts@[transaction.client], tx_cache@[transaction.tx]))
        } else {
            None
        },
{
    match accounts.get(&transaction.client) {
        Some(account) => match tx_cache.get(&transaction.tx) {
            Some(cached) => {
                if cached.client == transaction.client {
                    Some((*account, *cached))
                } else {
                    None
                }
            },
            None => None,
        },
        None => None,
    }
}

/// Holds the funds of a deposit of the same client that is not yet disputed.
pub fn handle_dispute(accounts: &mut Accounts, tx_cache: &mut TxCache, transaction: Transaction)
    requires
        accounts_wf(old(accounts)@),
    ensures
        accounts_wf(final(accounts)@),
        (final(accounts)@, final(tx_cache)@) == dispute_step(
            (old(accounts)@, old(tx_cache)@),
            transaction,
        ),
{
    if let Some((acc, cached)) = get_existing(accounts, tx_cache, &transaction) {
        let held = acc.held as i128 + cached.amount as i128;
        if !cached.disputed && balances_fit_exec(acc.total as i128, held) {
            accounts.insert(transaction.client, Account { held: held as i64, ..acc });
            tx_cache.insert(transaction.tx, CachedTx { disputed: true, ..cached });
        }
    }
}

/// Releases the held funds of a disputed deposit of the same client.
pub fn handle_resolve(accounts: &mut Accounts, tx_cache: &mut TxCache, transaction: Transaction)
    requires
        accounts_wf(old(accounts)@),
    ensures
        accounts_wf(final(accounts)@),
        (final(accounts)@, final(tx_cache)@) == resolve_step(
            (old(accounts)@, old(tx_cache)@),
            transaction,
        ),
{
    if let Some((acc, cached)) = get_existing(accounts, tx_cache, &transaction) {
        let held = acc.held as i128 - cached.amount as i128;
        if cached.disputed && balances_fit_exec(acc.total as i128, held) {
            accounts.insert(transaction.client, Account { held: held as i64, ..acc });
            tx_cache.insert(transaction.tx, CachedTx { disputed: false, ..cached });
        }
    }
}

/// Removes a disputed deposit's funds from its client's account and locks the account.
pub fn handle_chargeback(accounts: &mut Accounts, tx_cache: &mut TxCache, transaction: Transaction)
    requires
        accounts_wf(old(accounts)@),
    ensures
        accounts_wf(final(accounts)@),
        (final(accounts)@, final(tx_cache)@) == chargeback_step(
            (old(accounts)@, old(tx_cache)@),
            transaction,
        ),
{
    if let Some((acc, cached)) = get_existing(accounts, tx_cache, &transaction) {
        let held = acc.held as i128 - cached.amount as i128;
        let total = acc.total as i128 - cached.amount as i128;
        if cached.disputed && balances_fit_exec(total, held) {
            accounts.insert(
                transaction.client,
                Account { held: held as i64, total: total as i64, locked: true },
            );
            tx_cache.insert(transaction.tx, CachedTx { disputed: false, ..cached });
        }
    }
}

/// Applies one record: a record for a locked account is dropped, any other goes to the
/// handler of its kind.
pub fn process_transaction(accounts: &mut Accounts, tx_cache: &mut TxCache, transaction: Transaction)
    requires
        accounts_wf(old(accounts)@),
    ensures
        accounts_wf(final(accounts)@),
        (final(accounts)@, final(tx_cache)@) == apply((old(accounts)@, old(tx_cache)@), transaction),
{
    if let Some(account) = accounts.get(&transaction.client) {
        if account.locked {
            return ;
        }
    }
    match transaction.kind {
        TransactionType::Deposit => handle_deposit(accounts, tx_cache, transaction),
        TransactionType::Withdrawal => handle_withdrawal(accounts, transaction),
        TransactionType::Dispute => handle_dispute(accounts, tx_cache, transaction),
        TransactionType::Resolve => handle_resolve(accounts, tx_cache, transaction),
        TransactionType::Chargeback => handle_chargeback(accounts, tx_cache, transaction),
    }
}

/// Applies the records in order.
pub fn process_transactions(
    accounts: &mut Accounts,
    tx_cache: &mut TxCache,
    transactions: &Vec<Transaction>,
)
    requires
        accounts_wf(old(accounts)@),
    ensures
        accounts_wf(final(accounts)@),
        (final(accounts)@, final(tx_cache)@) == replay(
            (old(accounts)@, old(tx_cache)@),
            transactions@,
        ),
{
    let ghost start = (accounts@, tx_cache@);
    let mut i: usize = 0;
    while i < transactions.len()
        invariant
            i <= transactions@.len(),
            accounts_wf(accounts@),
            start == (old(accounts)@, old(tx_cache)@),
            (accounts@, tx_cache@) == replay(start, transactions@.take(i as int)),
        decreases transactions@.len() - i,
    {
        let t = transactions[i];
        process_transaction(accounts, tx_cache, t);
        proof {
            let next = transactions@.take(i + 1);
            assert(next.drop_last() == transactions@.take(i as int));
            assert(next.last() == t);
        }
        i = i + 1;
    }
    proof {
        assert(transactions@.take(i as int) == transactions@);
    }
}

/// Replays all records against empty stores and returns the final accounts.
pub fn run(transactions: &Vec<Transaction>) -> (r: Accounts)
    ensures
        accounts_wf(r@),
        r@ == replay(empty_stores(), transactions@).0,
{
    let mut accounts = Accounts::new();
    let mut tx_cache = TxCache::new();
    process_transactions(&mut accounts, &mut tx_cache, transactions);
    accounts
}

} // verus!

//! The ledger's data model.

use vstd::prelude::*;

verus! {

/// A quantity of money, in ten-thousandths of a currency unit.
pub type Amount = i64;

pub type ClientId = u16;

pub type TransactionId = u32;

#[derive(Debug, Clone, Copy, PartialEq, Eq, Structural)]
pub enum TransactionType {
    Deposit,
    Withdrawal,
    Dispute,
    Resolve,
    Chargeback,
}

/// One client's balances. `available` is derived from `total` and `held`.
#[derive(Debug, Clone, Copy, PartialEq, Eq, Structural)]
pub struct Account {
    pub held: Amount,
    pub total: Amount,
    pub locked: bool,
}

/// What is kept of an accepted deposit, so that it can later be disputed.
#[derive(Debug, Clone, Copy, PartialEq, Eq, Structural)]
pub struct CachedTx {
    pub amount: Amount,
    pub client: ClientId,
    pub disputed: bool,
}

/// One input record.
#[derive(Debug, Clone, Copy, PartialEq, Eq, Structural)]
pub struct Transaction {
    pub kind: TransactionType,
    pub client: ClientId,
    pub tx: TransactionId,
    pub amount: Option<Amount>,
}

/// Whether balances `total` and `held` can be stored, with `total - held` representable too.
pub open spec fn balances_fit(total: int, held: int) -> bool {
    &&& i64::MIN <= total <= i64::MAX
    &&& i64::MIN <= held <= i64::MAX
    &&& i64::MIN <= total - held <= i64::MAX
}

impl Account {
    /// Funds that can be withdrawn.
    pub open spec fn spec_available(self) -> int {
        self.total - self.held
    }

    /// The account's available funds are representable.
    pub open spec fn wf(self) -> bool {
        balances_fit(self.total as int, self.held as int)
    }

    pub fn new_deposit(amount: Amount) -> (r: Account)
        ensures
            r == (Account { held: 0, total: amount, locked: false }),
            r.wf(),
    {
        Account { held: 0, total: amount, locked: false }
    }

    pub fn available(&self) -> (r: Amount)
        requires
            self.wf(),
        ensures
            r == self.spec_available(),
    {
        self.total - self.held
    }
}

impl Transaction {
    /// The record's amount, zero where it has none.
    pub open spec fn spec_amount(self) -> int {
        match self.amount {
            Some(x) => x as int,
            None => 0,
        }
    }

    pub fn amount(&self) -> (r: Amount)
        ensures
            r == self.spec_amount(),
    {
        match self.amount {
            Some(x) => x,
            None => 0,
        }
    }
}

impl CachedTx {
    pub fn new(amount: Amount, client: ClientId) -> (r: CachedTx)
        ensures
            r == (CachedTx { amount, client, disputed: false }),
    {
        CachedTx { amount, client, disputed: false }
    }
}

} // verus!

//! Facts that hold of every run of the processor.

use vstd::prelude::*;

use crate::process::{accounts_wf, apply, empty_stores, replay, Stores};
use crate::types::{ClientId, Transaction, TransactionId, TransactionType};

verus! {

/// A deposit whose id is already cached, or that follows an accepted deposit with the same
/// id, changes nothing, whatever its client or amount: the state stays as the first
/// application left it.
pub proof fn lemma_repeated_deposit_ignored(s: Stores, first: Transaction, again: Transaction)
    requires
        first.kind == TransactionType::Deposit,
        again.kind == TransactionType::Deposit,
        again.tx == first.tx,
        apply(s, first) != s || s.1.contains_key(first.tx),
    ensures
        apply(apply(s, first), again) == apply(s, first),
{
}

/// One record keeps every account's available funds representable, so that
/// `available == total - held` can always be computed.
pub proof fn lemma_apply_keeps_accounts_wf(s: Stores, t: Transaction)
    requires
        accounts_wf(s.0),
    ensures
        accounts_wf(apply(s, t).0),
{
    let r = apply(s, t).0;
    assert forall|c: ClientId| #[trigger] r.contains_key(c) implies r[c].wf() by {
        if s.0.contains_key(c) {
            assert(s.0[c].wf());
        }
    }
}

/// At every point of a run, every account's available funds are `total - held` and
/// representable.
pub proof fn lemma_replay_keeps_accounts_wf(s: Stores, ts: Seq<Transaction>)
    requires
        accounts_wf(s.0),
    ensures
        accounts_wf(replay(s, ts).0),
    decreases ts.len(),
{
    if ts.len() > 0 {
        lemma_replay_keeps_accounts_wf(s, ts.drop_last());
        lemma_apply_keeps_accounts_wf(replay(s, ts.drop_last()), ts.last());
    }
}

/// Once an account is locked, no later record of any kind or client changes it.
pub proof fn lemma_locked_account_frozen(s: Stores, ts: Seq<Transaction>, client: ClientId)
    requires
        s.0.contains_key(client),
        s.0[client].locked,
    ensures
        replay(s, ts).0.contains_key(client),
        replay(s, ts).0[client] == s.0[client],
    decreases ts.len(),
{
    if ts.len() > 0 {
        lemma_locked_account_frozen(s, ts.drop_last(), client);
    }
}

/// A dispute, resolve or chargeback naming a deposit cached under another client changes
/// neither store.
pub proof fn lemma_foreign_dispute_ignored(s: Stores, t: Transaction)
    requires
        t.kind == TransactionType::Dispute || t.kind == TransactionType::Resolve || t.kind
            == TransactionType::Chargeback,
        s.1.contains_key(t.tx),
        s.1[t.tx].client != t.client,
    ensures
        apply(s, t) == s,
{
}

/// Withdrawals never enter the cache of disputable deposits.
pub proof fn lemma_withdrawal_not_cached(s: Stores, t: Transaction)
    requires
        t.kind == TransactionType::Withdrawal,
    ensures
        apply(s, t).1 == s.1,
{
}

/// Every cached deposit belongs to a client that has an account.
pub open spec fn cache_owned(s: Stores) -> bool {
    forall|tx: TransactionId| #[trigger] s.1.contains_key(tx) ==> s.0.contains_key(s.1[tx].client)
}

/// One record keeps every cached deposit's client in the account store.
pub proof fn lemma_apply_keeps_cache_owned(s: Stores, t: Transaction)
    requires
        cache_owned(s),
    ensures
        cache_owned(apply(s, t)),
{
    let r = apply(s, t);
    assert forall|tx: TransactionId| #[trigger] r.1.contains_key(tx) implies r.0.contains_key(
        r.1[tx].client,
    ) by {
        if s.1.contains_key(tx) {
            assert(s.0.contains_key(s.1[tx].client));
        }
    }
}

/// From empty stores, every cached deposit's client has an account, at every point of a run.
pub proof fn lemma_replay_keeps_cache_owned(ts: Seq<Transaction>)
    ensures
        cache_owned(replay(empty_stores(), ts)),
    decreases ts.len(),
{
    if ts.len() > 0 {
        lemma_replay_keeps_cache_owned(ts.drop_last());
        lemma_apply_keeps_cache_owned(replay(empty_stores(), ts.drop_last()), ts.last());
    }
}

} // verus!

//! The engine's laws, proved over the transition relations that the
//! engine's contracts are stated with.
//!
//! Each law quantifies over engine states related by `spec_create_job`,
//! `spec_complete` or `spec_step`; since every mutating engine method
//! ensures one of those relations (or leaves the state unchanged), the laws
//! hold of every sequence of engine calls, however calls from concurrent
//! tasks are interleaved around the caller's lock.

use vstd::prelude::*;

use crate::engine::{spec_complete, spec_create_job, spec_status, spec_step, Engine};
use crate::job::JobStatus;

verus! {

/// Uniqueness of allocation: a job creation assigns the pre-state counter
/// as the new index, advances the counter by one, and the new index is
/// strictly above every index assigned before — indices are never reused.
pub proof fn lemma_allocation_index_fresh(
    pre: Engine,
    post: Engine,
    key: Seq<char>,
    account: u32,
    deposit: Seq<char>,
    amount: u64,
    price_milli: u64,
)
    requires
        pre.wf(),
        spec_create_job(pre, post, key, account, deposit, amount, price_milli),
    ensures
        post.contracts_view().contains_key(key),
        post.contracts_view()[key].index == pre.counter(),
        post.counter() == pre.counter() + 1,
        forall|k: Seq<char>|
            #[trigger] pre.contracts_view().contains_key(k) ==> (pre.contracts_view()[k].index
                as int) < post.contracts_view()[key].index as int,
{
    assert(post.contracts_view()[key].index == pre.counter());
    assert forall|k: Seq<char>| #[trigger] pre.contracts_view().contains_key(k) implies (pre
        .contracts_view()[k].index as int) < post.contracts_view()[key].index as int by {
        assert((pre.contracts_view()[k].index as int) < pre.counter() as int);
    }
}

/// In every well-formed state, no two contract keys share a derivation
/// index: allocated indices are pairwise distinct.
pub proof fn lemma_indices_pairwise_distinct(e: Engine, k1: Seq<char>, k2: Seq<char>)
    requires
        e.wf(),
        e.contracts_view().contains_key(k1),
        e.contracts_view().contains_key(k2),
        k1 != k2,
    ensures
        e.contracts_view()[k1].index != e.contracts_view()[k2].index,
{
}

/// Contiguity of allocation: two consecutive job creations claim the
/// counter value and its successor — distinct, contiguous, increasing.
pub proof fn lemma_allocation_contiguous(
    s0: Engine,
    s1: Engine,
    s2: Engine,
    key1: Seq<char>,
    key2: Seq<char>,
    account1: u32,
    account2: u32,
    deposit1: Seq<char>,
    deposit2: Seq<char>,
    amount1: u64,
    amount2: u64,
    price1: u64,
    price2: u64,
)
    requires
        s0.wf(),
        spec_create_job(s0, s1, key1, account1, deposit1, amount1, price1),
        spec_create_job(s1, s2, key2, account2, deposit2, amount2, price2),
    ensures
        key1 != key2,
        s2.contracts_view().contains_key(key1),
        s2.contracts_view().contains_key(key2),
        s2.contracts_view()[key1].index == s0.counter(),
        s2.contracts_view()[key2].index == s0.counter() + 1,
{
}

/// A creation transition for `key`, with the identity, address and amounts
/// left open.
pub open spec fn creates_some_job(pre: Engine, post: Engine, key: Seq<char>) -> bool {
    exists|account: u32, deposit: Seq<char>, amount: u64, price_milli: u64|
        #[trigger] spec_create_job(pre, post, key, account, deposit, amount, price_milli)
}

/// `states` is a run of consecutive job creations: each state follows from
/// the one before it by the creation transition for the matching key.
pub open spec fn creation_run(states: Seq<Engine>, keys: Seq<Seq<char>>) -> bool {
    &&& states.len() == keys.len() + 1
    &&& forall|i: int|
        0 <= i < keys.len() ==> #[trigger] creates_some_job(states[i], states[i + 1], keys[i])
}

/// Along a run of creations the counter counts the creations.
pub proof fn lemma_run_counter(states: Seq<Engine>, keys: Seq<Seq<char>>, j: int)
    requires
        creation_run(states, keys),
        0 <= j <= keys.len(),
    ensures
        states[j].counter() as int == states[0].counter() as int + j,
    decreases j,
{
    if j > 0 {
        let jm = j - 1;
        lemma_run_counter(states, keys, jm);
        assert(creates_some_job(states[jm], states[jm + 1], keys[jm]));
        let (a, d, m, p) = choose|a: u32, d: Seq<char>, m: u64, p: u64|
            #[trigger] spec_create_job(states[jm], states[jm + 1], keys[jm], a, d, m, p);
        assert(states[j] == states[jm + 1]);
    }
}

/// After step `i` of a run, the `i`-th key stays mapped to the index the
/// starting counter plus `i`, whatever later creations do.
pub proof fn lemma_run_index_assigned(states: Seq<Engine>, keys: Seq<Seq<char>>, i: int, j: int)
    requires
        creation_run(states, keys),
        0 <= i < j <= keys.len(),
    ensures
        states[j].contracts_view().contains_key(keys[i]),
        states[j].contracts_view()[keys[i]].index as int == states[0].counter() as int + i,
    decreases j - i,
{
    if j == i + 1 {
        lemma_run_counter(states, keys, i);
        assert(creates_some_job(states[i], states[i + 1], keys[i]));
        let (a, d, m, p) = choose|a: u32, d: Seq<char>, m: u64, p: u64|
            #[trigger] spec_create_job(states[i], states[i + 1], keys[i], a, d, m, p);
    } else {
        let jm = j - 1;
        lemma_run_index_assigned(states, keys, i, jm);
        assert(creates_some_job(states[jm], states[jm + 1], keys[jm]));
        let (a, d, m, p) = choose|a: u32, d: Seq<char>, m: u64, p: u64|
            #[trigger] spec_create_job(states[jm], states[jm + 1], keys[jm], a, d, m, p);
        assert(states[j] == states[jm + 1]);
        assert(keys[i] != keys[jm]);
    }
}

/// Uniqueness over whole runs: however many jobs a run of creations makes,
/// the recorded derivation indices are the contiguous increasing sequence
/// that starts at the first state's counter — pairwise distinct and never
/// reused.
pub proof fn lemma_run_indices_unique(states: Seq<Engine>, keys: Seq<Seq<char>>, i: int, j: int)
    requires
        creation_run(states, keys),
        0 <= i < j < keys.len(),
    ensures
        states.last().contracts_view().contains_key(keys[i]),
        states.last().contracts_view().contains_key(keys[j]),
        states.last().contracts_view()[keys[i]].index as int == states[0].counter() as int + i,
        states.last().contracts_view()[keys[j]].index as int == states[0].counter() as int + j,
        states.last().contracts_view()[keys[i]].index
            < states.last().contracts_view()[keys[j]].index,
{
    lemma_run_index_assigned(states, keys, i, keys.len() as int);
    lemma_run_index_assigned(states, keys, j, keys.len() as int);
    assert(states.last() == states[keys.len() as int]);
}

/// No double allocation: once a creation for `key` has happened, no further
/// creation transition for the same key exists, so a second `create_job`
/// call can only answer `Conflict`.
pub proof fn lemma_no_double_create(
    s0: Engine,
    s1: Engine,
    key: Seq<char>,
    account: u32,
    deposit: Seq<char>,
    amount: u64,
    price_milli: u64,
)
    requires
        s0.wf(),
        spec_create_job(s0, s1, key, account, deposit, amount, price_milli),
    ensures
        s1.jobs_view().contains_key(key),
        s1.contracts_view().contains_key(key),
        forall|s2: Engine, a2: u32, d2: Seq<char>, m2: u64, p2: u64|
            !#[trigger] spec_create_job(s1, s2, key, a2, d2, m2, p2),
{
    assert(s1.jobs_view().dom().contains(key));
}

/// At-most-once completion: after a completion transition for `key`, the
/// job is completed and no further completion transition for it exists, so
/// only the one `complete` call that flipped the status performs the
/// transfer and the notification.
pub proof fn lemma_at_most_once_completion(s0: Engine, s1: Engine, key: Seq<char>)
    requires
        spec_complete(s0, s1, key),
    ensures
        s1.jobs_view().contains_key(key),
        s1.jobs_view()[key].status == JobStatus::Completed,
        forall|s2: Engine| !#[trigger] spec_complete(s1, s2, key),
{
    assert(s1.jobs_view().dom().contains(key));
}

/// Monotonic transition: no engine step takes a completed job back to
/// pending, or drops it from the store.
pub proof fn lemma_completed_is_monotonic(pre: Engine, post: Engine, key: Seq<char>)
    requires
        spec_step(pre, post),
        pre.jobs_view().contains_key(key),
        pre.jobs_view()[key].status == JobStatus::Completed,
    ensures
        post.jobs_view().contains_key(key),
        post.jobs_view()[key].status == JobStatus::Completed,
{
    if pre == post {
    } else if exists|k: Seq<char>, a: u32, d: Seq<char>, m: u64, p: u64|
        #[trigger] spec_create_job(pre, post, k, a, d, m, p) {
        let (k, a, d, m, p) = choose|k: Seq<char>, a: u32, d: Seq<char>, m: u64, p: u64|
            spec_create_job(pre, post, k, a, d, m, p);
        assert(k != key);
        assert(post.jobs_view().dom() == pre.jobs_view().dom().insert(k));
        assert(post.jobs_view().dom().contains(key));
    } else {
        let k = choose|k: Seq<char>| spec_complete(pre, post, k);
        if k == key {
        } else {
            assert(post.jobs_view().dom().contains(key));
        }
    }
}

/// Idempotent status query: the reported status is a function of the
/// engine state alone, and once it is `Completed` it stays `Completed`
/// under every further engine step — a reader never sees the job pending
/// again.
pub proof fn lemma_status_query_stable(pre: Engine, post: Engine, key: Seq<char>)
    requires
        spec_step(pre, post),
        spec_status(pre, key) == Some(JobStatus::Completed),
    ensures
        spec_status(post, key) == Some(JobStatus::Completed),
{
    lemma_completed_is_monotonic(pre, post, key);
}

} // verus!

//! The job-lifecycle engine: identity allocation, the job store, the
//! per-job balance-watch step and the completion coordinator.
//!
//! The engine is a sequential state machine.  A caller that shares it
//! between tasks must make each method call atomic (one lock around the
//! engine); every interleaving of calls is then a sequence of the
//! transitions specified here, so the laws in `laws` cover concurrent use.
//! Calls into the wallet, the price oracle, the clock or the network are
//! the caller's: the engine only consumes their results as plain values.

use vstd::prelude::*;

use crate::job::{AccountInfo, EngineError, Job, JobStatus};
use crate::kvmap::KvMap;

verus! {

/// State of one balance watcher.  `Done` is terminal: it is entered exactly
/// once and never left.
#[derive(Clone, Copy, Debug, PartialEq, Eq, Structural)]
pub enum WatchState {
    Watching,
    Done,
}

/// What one balance-watch tick decided.
pub enum WatchStep {
    /// Balance unknown or still insufficient: keep watching.
    Wait,
    /// The job is not in the store: stop silently.
    Vanished,
    /// First sufficient observation: the job was just completed, and the
    /// caller now owes one transfer of `amount` from the identity
    /// `account`/`index` to the holding identity, and one notification.
    Complete { account: u32, index: u32, amount: u64 },
    /// Sufficient balance, but another path already completed the job:
    /// stop without transferring or notifying.
    AlreadyDone,
}

/// Outcome of the completion coordinator.
pub enum CompleteOutcome {
    /// This call performed the transition; the caller owes one transfer of
    /// `amount` from `account`/`index` to the holding identity and one
    /// notification.
    Performed { account: u32, index: u32, amount: u64 },
    /// The job was already completed: nothing to do.
    AlreadyCompleted,
    /// No job exists for the key.
    UnknownJob,
}

/// The engine's shared state: the job store, the identity mapping and the
/// derivation-index counter.
pub struct Engine {
    jobs: KvMap<Job>,
    contracts: KvMap<AccountInfo>,
    hd_index: u32,
}

/// The contract key under which the holding identity (index 0) is recorded.
pub open spec fn holding_key() -> Seq<char> {
    "default"@
}

/// The holding identity's contract key, for callers that need to name it.
pub fn holding_key_string() -> (r: String)
    ensures
        r@ == holding_key(),
{
    "default".to_owned()
}

/// `j` is the job such a creation writes: pending, with the given amounts
/// and addresses.
pub open spec fn job_fields(
    j: Job,
    status: JobStatus,
    amount: u64,
    price_milli: u64,
    deposit: Seq<char>,
    key: Seq<char>,
) -> bool {
    &&& j.status == status
    &&& j.amount == amount
    &&& j.price_milli == price_milli
    &&& j.deposit_address@ == deposit
    &&& j.contract_address@ == key
}

/// The job-creation transition: `key` is fresh, a new identity is recorded
/// at the pre-state counter, the counter advances by one, and a pending job
/// with the given fields is inserted.  Nothing else changes.
pub open spec fn spec_create_job(
    pre: Engine,
    post: Engine,
    key: Seq<char>,
    account: u32,
    deposit: Seq<char>,
    amount: u64,
    price_milli: u64,
) -> bool {
    &&& !pre.jobs_view().contains_key(key)
    &&& !pre.contracts_view().contains_key(key)
    &&& pre.counter() < u32::MAX
    &&& post.contracts_view() == pre.contracts_view().insert(
        key,
        (AccountInfo { account, index: pre.counter() }),
    )
    &&& post.counter() == pre.counter() + 1
    &&& post.jobs_view().dom() == pre.jobs_view().dom().insert(key)
    &&& job_fields(post.jobs_view()[key], JobStatus::Pending, amount, price_milli, deposit, key)
    &&& forall|k: Seq<char>|
        #[trigger] pre.jobs_view().contains_key(k) && k != key ==> post.jobs_view()[k]
            == pre.jobs_view()[k]
}

/// The completion transition: the job for `key` was pending and is now
/// completed; every other field, every other job, the identity mapping and
/// the counter are unchanged.
pub open spec fn spec_complete(pre: Engine, post: Engine, key: Seq<char>) -> bool {
    &&& pre.jobs_view().contains_key(key)
    &&& pre.jobs_view()[key].status == JobStatus::Pending
    &&& post.jobs_view().dom() == pre.jobs_view().dom()
    &&& job_fields(
        post.jobs_view()[key],
        JobStatus::Completed,
        pre.jobs_view()[key].amount,
        pre.jobs_view()[key].price_milli,
        pre.jobs_view()[key].deposit_address@,
        pre.jobs_view()[key].contract_address@,
    )
    &&& forall|k: Seq<char>|
        #[trigger] pre.jobs_view().contains_key(k) && k != key ==> post.jobs_view()[k]
            == pre.jobs_view()[k]
    &&& post.contracts_view() == pre.contracts_view()
    &&& post.counter() == pre.counter()
}

/// Any engine transition: stutter, a job creation, or a completion.
pub open spec fn spec_step(pre: Engine, post: Engine) -> bool {
    ||| pre == post
    ||| exists|key: Seq<char>, account: u32, deposit: Seq<char>, amount: u64, price_milli: u64|
        #[trigger] spec_create_job(pre, post, key, account, deposit, amount, price_milli)
    ||| exists|key: Seq<char>| #[trigger] spec_complete(pre, post, key)
}

/// The status the engine reports for `key`: the stored status, or nothing
/// for an unknown key.
pub open spec fn spec_status(e: Engine, key: Seq<char>) -> Option<JobStatus> {
    if e.jobs_view().contains_key(key) {
        Some(e.jobs_view()[key].status)
    } else {
        None
    }
}

impl Engine {
    /// Abstract job store: contract key to job.
    pub closed spec fn jobs_view(&self) -> Map<Seq<char>, Job> {
        self.jobs@
    }

    /// Abstract identity mapping: contract key to receiving identity.
    pub closed spec fn contracts_view(&self) -> Map<Seq<char>, AccountInfo> {
        self.contracts@
    }

    /// The next derivation index to hand out.
    pub closed spec fn counter(&self) -> u32 {
        self.hd_index
    }

    /// The two tables keep their own invariant (pairwise-distinct keys).
    pub closed spec fn tables_wf(&self) -> bool {
        self.jobs.wf() && self.contracts.wf()
    }

    /// The engine's invariant: tables well formed, every job has an
    /// identity, every assigned index lies below the counter, and no index
    /// is assigned twice.
    pub open spec fn wf(&self) -> bool {
        &&& self.tables_wf()
        &&& self.counter() >= 1
        &&& forall|k: Seq<char>|
            #[trigger] self.jobs_view().contains_key(k) ==> self.contracts_view().contains_key(k)
        &&& forall|k: Seq<char>|
            #[trigger] self.contracts_view().contains_key(k) ==> (self.contracts_view()[k].index
                as int) < self.counter() as int
        &&& forall|k1: Seq<char>, k2: Seq<char>|
            #[trigger] self.contracts_view().contains_key(k1)
                && #[trigger] self.contracts_view().contains_key(k2) && k1 != k2
                ==> self.contracts_view()[k1].index != self.contracts_view()[k2].index
    }

    /// A fresh engine: counter at 1, no jobs, and the holding identity
    /// (index 0) recorded under the well-known holding key.
    pub fn new(holding_account: u32) -> (r: Engine)
        ensures
            r.wf(),
            r.jobs_view() == Map::<Seq<char>, Job>::empty(),
            r.contracts_view() == Map::<Seq<char>, AccountInfo>::empty().insert(
                holding_key(),
                (AccountInfo { account: holding_account, index: 0 }),
            ),
            r.counter() == 1,
    {
        let mut contracts: KvMap<AccountInfo> = KvMap::new();
        contracts.insert(holding_key_string(), AccountInfo { account: holding_account, index: 0 });
        Engine { jobs: KvMap::new(), contracts, hd_index: 1 }
    }

    /// The derivation index the next allocation will claim.
    pub fn next_index(&self) -> (r: u32)
        ensures
            r == self.counter(),
    {
        self.hd_index
    }

    /// First half of allocation: under the caller's critical section, check
    /// the key is free and read the index to create the new identity at.
    /// `Conflict` exactly when the key is already taken — or on the
    /// unreachable exhaustion of the index counter, which must never be
    /// reused.
    pub fn allocate_index(&self, key: &String) -> (r: Result<u32, EngineError>)
        requires
            self.wf(),
        ensures
            match r {
                Ok(i) => {
                    &&& !self.jobs_view().contains_key(key@)
                    &&& !self.contracts_view().contains_key(key@)
                    &&& i == self.counter()
                    &&& self.counter() < u32::MAX
                },
                Err(e) => {
                    &&& e == EngineError::Conflict
                    &&& (self.jobs_view().contains_key(key@) || self.contracts_view().contains_key(
                        key@,
                    ) || self.counter() == u32::MAX)
                },
            },
    {
        if self.jobs.contains(key) {
            return Err(EngineError::Conflict);
        }
        if self.contracts.contains(key) {
            return Err(EngineError::Conflict);
        }
        if self.hd_index == u32::MAX {
            return Err(EngineError::Conflict);
        }
        Ok(self.hd_index)
    }

    /// Second half of allocation, still inside the same critical section:
    /// record the identity the wallet created at `index`, advance the
    /// counter, and insert the pending job.  All of it happens, or — on a
    /// conflicting key — none of it.
    pub fn create_job(
        &mut self,
        key: String,
        account: u32,
        index: u32,
        deposit_address: String,
        amount: u64,
        price_milli: u64,
    ) -> (r: Result<(), EngineError>)
        requires
            old(self).wf(),
            index == old(self).counter(),
            old(self).counter() < u32::MAX,
        ensures
            final(self).wf(),
            spec_step(*old(self), *final(self)),
            match r {
                Ok(_) => spec_create_job(
                    *old(self),
                    *final(self),
                    key@,
                    account,
                    deposit_address@,
                    amount,
                    price_milli,
                ),
                Err(e) => {
                    &&& e == EngineError::Conflict
                    &&& (old(self).jobs_view().contains_key(key@) || old(
                        self,
                    ).contracts_view().contains_key(key@))
                    &&& *final(self) == *old(self)
                },
            },
    {
        let ghost kv = key@;
        let ghost dv = deposit_address@;
        if self.jobs.contains(&key) {
            return Err(EngineError::Conflict);
        }
        if self.contracts.contains(&key) {
            return Err(EngineError::Conflict);
        }
        self.contracts.insert(key.clone(), AccountInfo { account, index });
        self.hd_index = self.hd_index + 1;
        let job = Job {
            status: JobStatus::Pending,
            amount,
            price_milli,
            deposit_address,
            contract_address: key.clone(),
        };
        self.jobs.insert(key, job);
        proof {
            assert forall|k: Seq<char>| #[trigger] self.jobs_view().contains_key(k) implies self
                .contracts_view().contains_key(k) by {
                if k != kv {
                    assert(old(self).jobs_view().contains_key(k));
                }
            }
            assert forall|k: Seq<char>| #[trigger] self.contracts_view().contains_key(
                k,
            ) implies (self.contracts_view()[k].index as int) < self.counter() as int by {
                if k != kv {
                    assert(old(self).contracts_view().contains_key(k));
                }
            }
            assert forall|k1: Seq<char>, k2: Seq<char>|
                #[trigger] self.contracts_view().contains_key(k1)
                    && #[trigger] self.contracts_view().contains_key(k2) && k1 != k2 implies self
                .contracts_view()[k1].index != self.contracts_view()[k2].index by {
                if k1 != kv && k2 != kv {
                    assert(old(self).contracts_view().contains_key(k1));
                    assert(old(self).contracts_view().contains_key(k2));
                } else if k1 == kv {
                    assert(old(self).contracts_view().contains_key(k2));
                    assert((old(self).contracts_view()[k2].index as int) < old(
                        self,
                    ).counter() as int);
                } else {
                    assert(old(self).contracts_view().contains_key(k1));
                    assert((old(self).contracts_view()[k1].index as int) < old(
                        self,
                    ).counter() as int);
                }
            }
            assert(spec_create_job(*old(self), *self, kv, account, dv, amount, price_milli));
        }
        Ok(())
    }

    /// The identity recorded for a contract key.
    pub fn lookup_account(&self, key: &String) -> (r: Result<AccountInfo, EngineError>)
        requires
            self.wf(),
        ensures
            match r {
                Ok(info) => self.contracts_view().contains_key(key@) && info
                    == self.contracts_view()[key@],
                Err(e) => !self.contracts_view().contains_key(key@) && e == EngineError::NotFound,
            },
    {
        match self.contracts.get(key) {
            Some(info) => Ok(*info),
            None => Err(EngineError::NotFound),
        }
    }

    /// The job stored for a contract key.
    pub fn get_job(&self, key: &String) -> (r: Option<&Job>)
        requires
            self.wf(),
        ensures
            match r {
                Some(j) => self.jobs_view().contains_key(key@) && *j == self.jobs_view()[key@],
                None => !self.jobs_view().contains_key(key@),
            },
    {
        self.jobs.get(key)
    }

    /// Status query.  An unknown key is reported as `NotFound`, never as a
    /// default pending job.
    pub fn job_status(&self, key: &String) -> (r: Result<JobStatus, EngineError>)
        requires
            self.wf(),
        ensures
            match r {
                Ok(s) => spec_status(*self, key@) == Some(s),
                Err(e) => spec_status(*self, key@) is None && e == EngineError::NotFound,
            },
    {
        match self.jobs.get(key) {
            Some(j) => Ok(j.status),
            None => Err(EngineError::NotFound),
        }
    }

    /// Compare-and-swap on the job's status: flips `Pending` to
    /// `Completed` and reports whether this call did the flip.  This is the
    /// only mutator of a job's status.
    pub fn mark_completed(&mut self, key: &String) -> (r: bool)
        requires
            old(self).wf(),
        ensures
            final(self).wf(),
            spec_step(*old(self), *final(self)),
            r == (old(self).jobs_view().contains_key(key@) && old(self).jobs_view()[key@].status
                == JobStatus::Pending),
            r ==> spec_complete(*old(self), *final(self), key@),
            !r ==> *final(self) == *old(self),
    {
        let updated = match self.jobs.get(key) {
            Some(job) => {
                match job.status {
                    JobStatus::Pending => Some(
                        Job {
                            status: JobStatus::Completed,
                            amount: job.amount,
                            price_milli: job.price_milli,
                            deposit_address: job.deposit_address.clone(),
                            contract_address: job.contract_address.clone(),
                        },
                    ),
                    JobStatus::Completed => None,
                }
            },
            None => None,
        };
        match updated {
            Some(job) => {
                self.jobs.set(key, job);
                proof {
                    assert(self.jobs@.dom() =~= old(self).jobs@.dom());
                    assert(spec_complete(*old(self), *self, key@));
                }
                true
            },
            None => false,
        }
    }

    /// The completion coordinator.  At most one call per job ever returns
    /// `Performed`; that call alone makes the caller transfer the job's
    /// required amount to the holding identity and send the one
    /// notification.  The status flip is committed here, before the caller
    /// attempts either side effect, so a failed transfer or notification
    /// never reopens the job.
    pub fn complete(&mut self, key: &String) -> (r: CompleteOutcome)
        requires
            old(self).wf(),
        ensures
            final(self).wf(),
            spec_step(*old(self), *final(self)),
            match r {
                CompleteOutcome::Performed { account, index, amount } => {
                    &&& spec_complete(*old(self), *final(self), key@)
                    &&& amount == old(self).jobs_view()[key@].amount
                    &&& old(self).contracts_view().contains_key(key@)
                    &&& (AccountInfo { account, index }) == old(self).contracts_view()[key@]
                },
                CompleteOutcome::AlreadyCompleted => {
                    &&& spec_status(*old(self), key@) == Some(JobStatus::Completed)
                    &&& *final(self) == *old(self)
                },
                CompleteOutcome::UnknownJob => {
                    &&& spec_status(*old(self), key@) is None
                    &&& *final(self) == *old(self)
                },
            },
    {
        let flipped = self.mark_completed(key);
        if !flipped {
            match self.jobs.get(key) {
                Some(_) => CompleteOutcome::AlreadyCompleted,
                None => CompleteOutcome::UnknownJob,
            }
        } else {
            let amount = match self.jobs.get(key) {
                Some(job) => job.amount,
                None => vstd::pervasive::unreached(),
            };
            match self.contracts.get(key) {
                Some(info) => CompleteOutcome::Performed {
                    account: info.account,
                    index: info.index,
                    amount,
                },
                None => vstd::pervasive::unreached(),
            }
        }
    }

    /// One balance-watch tick for the job under `key`, fed the result of
    /// the caller's balance query (`None` when the query failed).  A failed
    /// query is retried by the next tick; a vanished job stops the watcher;
    /// the first sufficient observation completes the job and hands the
    /// caller its transfer and notification duties — for the job's required
    /// amount, not the observed balance.
    pub fn watch_tick(&mut self, key: &String, observed: Option<u64>) -> (r: WatchStep)
        requires
            old(self).wf(),
        ensures
            final(self).wf(),
            spec_step(*old(self), *final(self)),
            match r {
                WatchStep::Wait => {
                    &&& *final(self) == *old(self)
                    &&& (observed is None || (observed matches Some(b)
                        && old(self).jobs_view().contains_key(key@) && b < old(
                        self,
                    ).jobs_view()[key@].amount))
                },
                WatchStep::Vanished => {
                    &&& *final(self) == *old(self)
                    &&& observed is Some
                    &&& !old(self).jobs_view().contains_key(key@)
                },
                WatchStep::Complete { account, index, amount } => {
                    &&& observed matches Some(b) && b >= amount
                    &&& amount == old(self).jobs_view()[key@].amount
                    &&& spec_complete(*old(self), *final(self), key@)
                    &&& old(self).contracts_view().contains_key(key@)
                    &&& (AccountInfo { account, index }) == old(self).contracts_view()[key@]
                },
                WatchStep::AlreadyDone => {
                    &&& *final(self) == *old(self)
                    &&& observed matches Some(b) && old(self).jobs_view().contains_key(key@) && b
                        >= old(self).jobs_view()[key@].amount
                    &&& old(self).jobs_view()[key@].status == JobStatus::Completed
                },
            },
    {
        let balance = match observed {
            Some(b) => b,
            None => {
                return WatchStep::Wait;
            },
        };
        let sufficient = match self.jobs.get(key) {
            Some(job) => balance >= job.amount,
            None => {
                return WatchStep::Vanished;
            },
        };
        if !sufficient {
            return WatchStep::Wait;
        }
        match self.complete(key) {
            CompleteOutcome::Performed { account, index, amount } => WatchStep::Complete {
                account,
                index,
                amount,
            },
            CompleteOutcome::AlreadyCompleted => WatchStep::AlreadyDone,
            CompleteOutcome::UnknownJob => vstd::pervasive::unreached(),
        }
    }
}

/// One per-job balance watcher: the two-state machine of the watch loop.
/// It starts `Watching` right after job creation and enters the terminal
/// `Done` state exactly once.
pub struct Watcher {
    key: String,
    state: WatchState,
}

impl Watcher {
    /// The contract key this watcher observes.
    pub closed spec fn key_view(&self) -> Seq<char> {
        self.key@
    }

    /// The watcher's current state.
    pub closed spec fn state(&self) -> WatchState {
        self.state
    }

    /// The watcher's current state, for callers that track their tasks.
    pub fn current_state(&self) -> (r: WatchState)
        ensures
            r == self.state(),
    {
        self.state
    }

    /// A watcher for the job under `key`, in its initial state.
    pub fn new(key: String) -> (r: Watcher)
        ensures
            r.key_view() == key@,
            r.state() == WatchState::Watching,
    {
        Watcher { key, state: WatchState::Watching }
    }

    /// Drive the watcher by one tick.  It leaves `Watching` exactly when
    /// the step is not `Wait`, and then never runs again.
    pub fn tick(&mut self, engine: &mut Engine, observed: Option<u64>) -> (r: WatchStep)
        requires
            old(self).state() == WatchState::Watching,
            old(engine).wf(),
        ensures
            final(engine).wf(),
            spec_step(*old(engine), *final(engine)),
            final(self).key_view() == old(self).key_view(),
            final(self).state() == (if r is Wait {
                WatchState::Watching
            } else {
                WatchState::Done
            }),
            match r {
                WatchStep::Wait => {
                    &&& *final(engine) == *old(engine)
                    &&& (observed is None || (observed matches Some(b)
                        && old(engine).jobs_view().contains_key(old(self).key_view()) && b < old(
                        engine,
                    ).jobs_view()[old(self).key_view()].amount))
                },
                WatchStep::Vanished => {
                    &&& *final(engine) == *old(engine)
                    &&& observed is Some
                    &&& !old(engine).jobs_view().contains_key(old(self).key_view())
                },
                WatchStep::Complete { account, index, amount } => {
                    &&& observed matches Some(b) && b >= amount
                    &&& amount == old(engine).jobs_view()[old(self).key_view()].amount
                    &&& spec_complete(*old(engine), *final(engine), old(self).key_view())
                    &&& old(engine).contracts_view().contains_key(old(self).key_view())
                    &&& (AccountInfo { account, index }) == old(engine).contracts_view()[old(
                        self,
                    ).key_view()]
                },
                WatchStep::AlreadyDone => {
                    &&& *final(engine) == *old(engine)
                    &&& observed matches Some(b) && old(engine).jobs_view().contains_key(
                        old(self).key_view(),
                    ) && b >= old(engine).jobs_view()[old(self).key_view()].amount
                    &&& old(engine).jobs_view()[old(self).key_view()].status
                        == JobStatus::Completed
                },
            },
    {
        let step = engine.watch_tick(&self.key, observed);
        let stop = match step {
            WatchStep::Wait => false,
            WatchStep::Vanished => true,
            WatchStep::Complete { .. } => true,
            WatchStep::AlreadyDone => true,
        };
        if stop {
            self.state = WatchState::Done;
        }
        step
    }
}

} // verus!

use zcash_client::engine::{CompleteOutcome, Engine, WatchStep};
use zcash_client::job::{AccountInfo, EngineError, JobStatus};

fn key(s: &str) -> String {
    s.to_string()
}

#[test]
fn fresh_engine_holds_only_the_holding_identity() {
    let e = Engine::new(1);
    assert_eq!(
        e.lookup_account(&key("default")),
        Ok(AccountInfo { account: 1, index: 0 })
    );
    assert_eq!(e.job_status(&key("default")), Err(EngineError::NotFound));
    assert_eq!(e.next_index(), 1);
}

#[test]
fn scenario_create_job_records_required_amount_and_address() {
    // A requested value of 100 at an oracle price of 50.000 demands
    // 2 * 10^18 smallest units.
    let required = zcash_client::amount::required_amount(100, 50_000).unwrap();
    assert_eq!(required, 2_000_000_000_000_000_000);

    let mut e = Engine::new(1);
    let k = key("c1");
    let idx = e.allocate_index(&k).unwrap();
    assert_eq!(idx, 1);
    e.create_job(k.clone(), 2, idx, key("dep-addr-1"), required, 50_000)
        .unwrap();

    let job = e.get_job(&k).unwrap();
    assert_eq!(job.status, JobStatus::Pending);
    assert_eq!(job.amount, required);
    assert_eq!(job.price_milli, 50_000);
    assert_eq!(job.deposit_address, "dep-addr-1");
    assert_eq!(job.contract_address, "c1");
    // The deposit identity is a fresh one, not the holding identity.
    let holding = e.lookup_account(&key("default")).unwrap();
    let deposit = e.lookup_account(&k).unwrap();
    assert_ne!(deposit, holding);
    assert_eq!(deposit, AccountInfo { account: 2, index: 1 });
}

#[test]
fn scenario_second_create_for_same_key_conflicts() {
    let mut e = Engine::new(1);
    let k = key("c1");
    let idx = e.allocate_index(&k).unwrap();
    e.create_job(k.clone(), 2, idx, key("addr1"), 100, 50_000)
        .unwrap();

    // The second creation attempt observes the conflict at both steps.
    assert_eq!(e.allocate_index(&k), Err(EngineError::Conflict));
    assert_eq!(
        e.create_job(k.clone(), 3, e.next_index(), key("addr2"), 100, 50_000),
        Err(EngineError::Conflict)
    );
    // Only the first entry exists: the stored job is unchanged.
    let job = e.get_job(&k).unwrap();
    assert_eq!(job.deposit_address, "addr1");
    assert_eq!(e.lookup_account(&k), Ok(AccountInfo { account: 2, index: 1 }));
}

#[test]
fn scenario_watcher_completes_only_at_threshold() {
    let mut e = Engine::new(1);
    let k = key("c1");
    let idx = e.allocate_index(&k).unwrap();
    e.create_job(k.clone(), 2, idx, key("addr"), 100, 50_000)
        .unwrap();

    assert!(matches!(e.watch_tick(&k, Some(0)), WatchStep::Wait));
    assert_eq!(e.job_status(&k), Ok(JobStatus::Pending));
    assert!(matches!(e.watch_tick(&k, Some(40)), WatchStep::Wait));
    assert_eq!(e.job_status(&k), Ok(JobStatus::Pending));
    match e.watch_tick(&k, Some(120)) {
        WatchStep::Complete {
            account,
            index,
            amount,
        } => {
            // The transfer is for the required amount, not the observed one.
            assert_eq!(amount, 100);
            assert_eq!(account, 2);
            assert_eq!(index, 1);
        }
        _ => panic!("third observation must complete the job"),
    }
    assert_eq!(e.job_status(&k), Ok(JobStatus::Completed));
    // A duplicate tick performs no second transfer.
    assert!(matches!(e.watch_tick(&k, Some(120)), WatchStep::AlreadyDone));
}

#[test]
fn scenario_status_stays_completed_when_transfer_fails() {
    let mut e = Engine::new(1);
    let k = key("c1");
    let idx = e.allocate_index(&k).unwrap();
    e.create_job(k.clone(), 2, idx, key("addr"), 100, 50_000)
        .unwrap();

    // The coordinator commits the status before the caller attempts the
    // transfer, so a failed transfer leaves the job completed and the
    // notification duty still stands with the one Performed outcome.
    match e.complete(&k) {
        CompleteOutcome::Performed { amount, .. } => assert_eq!(amount, 100),
        _ => panic!("first completion must be performed"),
    }
    // ... the caller's transfer fails here; the engine state is unaffected.
    assert_eq!(e.job_status(&k), Ok(JobStatus::Completed));
}

#[test]
fn scenario_status_of_unknown_key_is_not_found() {
    let e = Engine::new(1);
    assert_eq!(e.job_status(&key("nope")), Err(EngineError::NotFound));
    assert_eq!(e.lookup_account(&key("nope")), Err(EngineError::NotFound));
}

#[test]
fn allocation_indices_are_distinct_and_contiguous() {
    let mut e = Engine::new(1);
    let mut seen = Vec::new();
    for name in ["a", "b", "c", "d"] {
        let k = key(name);
        let idx = e.allocate_index(&k).unwrap();
        e.create_job(k, 10 + idx, idx, key("addr"), 50, 1_000)
            .unwrap();
        seen.push(idx);
    }
    assert_eq!(seen, vec![1, 2, 3, 4]);
    for (i, a) in seen.iter().enumerate() {
        for b in seen.iter().skip(i + 1) {
            assert_ne!(a, b);
        }
    }
    assert_eq!(e.next_index(), 5);
}

#[test]
fn creating_under_the_holding_key_conflicts() {
    let mut e = Engine::new(1);
    // The holding identity's sentinel key is reserved.
    assert_eq!(e.allocate_index(&key("default")), Err(EngineError::Conflict));
}

#[test]
fn mark_completed_is_a_compare_and_swap() {
    let mut e = Engine::new(1);
    let k = key("c1");
    let idx = e.allocate_index(&k).unwrap();
    e.create_job(k.clone(), 2, idx, key("addr"), 100, 50_000)
        .unwrap();

    assert!(e.mark_completed(&k));
    assert!(!e.mark_completed(&k));
    assert!(!e.mark_completed(&key("unknown")));
    assert_eq!(e.job_status(&k), Ok(JobStatus::Completed));
}

#[test]
fn completion_happens_at_most_once() {
    let mut e = Engine::new(1);
    let k = key("c1");
    let idx = e.allocate_index(&k).unwrap();
    e.create_job(k.clone(), 2, idx, key("addr"), 100, 50_000)
        .unwrap();

    let mut performed = 0;
    for _ in 0..5 {
        if let CompleteOutcome::Performed { .. } = e.complete(&k) {
            performed += 1;
        }
    }
    assert_eq!(performed, 1);
    assert_eq!(e.job_status(&k), Ok(JobStatus::Completed));
}

#[test]
fn completing_an_unknown_job_reports_unknown() {
    let mut e = Engine::new(1);
    assert!(matches!(
        e.complete(&key("missing")),
        CompleteOutcome::UnknownJob
    ));
}

#[test]
fn status_query_is_idempotent_after_completion() {
    let mut e = Engine::new(1);
    let k = key("c1");
    let idx = e.allocate_index(&k).unwrap();
    e.create_job(k.clone(), 2, idx, key("addr"), 100, 50_000)
        .unwrap();
    e.complete(&k);

    for _ in 0..10 {
        assert_eq!(e.job_status(&k), Ok(JobStatus::Completed));
    }
    // Interleaving other work never reverts the status.
    let other = key("c2");
    let idx2 = e.allocate_index(&other).unwrap();
    e.create_job(other.clone(), 3, idx2, key("addr2"), 10, 1_000)
        .unwrap();
    e.watch_tick(&other, Some(5));
    assert_eq!(e.job_status(&k), Ok(JobStatus::Completed));
}

#[test]
fn completion_changes_nothing_but_the_status() {
    let mut e = Engine::new(1);
    let k = key("c1");
    let idx = e.allocate_index(&k).unwrap();
    e.create_job(k.clone(), 2, idx, key("addr"), 100, 50_000)
        .unwrap();
    e.complete(&k);

    let job = e.get_job(&k).unwrap();
    assert_eq!(job.status, JobStatus::Completed);
    assert_eq!(job.amount, 100);
    assert_eq!(job.price_milli, 50_000);
    assert_eq!(job.deposit_address, "addr");
    assert_eq!(job.contract_address, "c1");
}

#[test]
fn completing_one_job_leaves_others_pending() {
    let mut e = Engine::new(1);
    for name in ["c1", "c2"] {
        let k = key(name);
        let idx = e.allocate_index(&k).unwrap();
        e.create_job(k, 10, idx, key("addr"), 100, 50_000).unwrap();
    }
    assert!(matches!(
        e.complete(&key("c1")),
        CompleteOutcome::Performed { .. }
    ));
    assert_eq!(e.job_status(&key("c1")), Ok(JobStatus::Completed));
    assert_eq!(e.job_status(&key("c2")), Ok(JobStatus::Pending));
}

#[test]
fn watcher_keeps_waiting_on_failed_balance_queries() {
    let mut e = Engine::new(1);
    let k = key("c1");
    let idx = e.allocate_index(&k).unwrap();
    e.create_job(k.clone(), 2, idx, key("addr"), 100, 50_000)
        .unwrap();

    // A failed query is not fatal: the next tick retries.
    assert!(matches!(e.watch_tick(&k, None), WatchStep::Wait));
    assert_eq!(e.job_status(&k), Ok(JobStatus::Pending));
}

#[test]
fn watcher_stops_when_the_job_is_missing() {
    let mut e = Engine::new(1);
    assert!(matches!(
        e.watch_tick(&key("ghost"), Some(5)),
        WatchStep::Vanished
    ));
}

use jobpool::jobs::{
    payload_outcome, EchoPayload, JobPoolState, JobSubmission, SleepPayload, State,
};

fn sleep_submission(ms: u32) -> JobSubmission {
    JobSubmission::Sleep(SleepPayload { milliseconds: ms })
}

fn echo_submission(msg: &str) -> JobSubmission {
    JobSubmission::Echo(EchoPayload { message: msg.to_string() })
}

// Four long-running jobs saturate the pool; a fifth is rejected outright
// while the first four stay active.
#[test]
fn fifth_submission_overflows_a_pool_of_four() {
    let mut p = JobPoolState::new(4);
    for expect in 0..4 {
        assert_eq!(p.handle_new_job(&sleep_submission(60_000)), Some(expect));
    }
    assert_eq!(p.handle_new_job(&sleep_submission(1)), None);

    let records = p.get_jobs();
    assert_eq!(records.len(), 5);
    for rec in records.iter().take(4) {
        assert!(rec.state == State::QUEUED || rec.state == State::RUNNING);
    }
    let rejected = &records[4];
    assert_eq!(rejected.state, State::FAILED);
    assert_eq!(rejected.result, "pool full: job never queued");
    // The count of simultaneously active jobs never exceeded the ceiling.
    let active = records
        .iter()
        .filter(|r| r.state == State::QUEUED || r.state == State::RUNNING)
        .count();
    assert!(active <= 4);
}

// One echo job runs to SUCCEEDED; its result is the message and its log
// holds the started and finished lines.
#[test]
fn echo_job_succeeds_with_its_message() {
    let mut p = JobPoolState::new(4);
    let idx = p.handle_new_job(&echo_submission("hello")).unwrap();
    let sub = p.start_job(idx);
    let outcome = payload_outcome(&sub);
    p.complete_job(idx, outcome);

    let records = p.get_jobs();
    assert_eq!(records.len(), 1);
    let rec = &records[0];
    assert_eq!(rec.state, State::SUCCEEDED);
    assert_eq!(rec.result, "hello");
    assert!(rec.log_text.starts_with("[INFO] queued at "));
    assert!(rec.log_text.contains("[INFO] job started\n"));
    assert!(rec.log_text.contains("[INFO] job finished\n"));
}

// After a running job completes and its slot is reclaimed, the next
// submission is assigned that same slot index.
#[test]
fn reclaimed_slot_is_reused() {
    let mut p = JobPoolState::new(4);
    for expect in 0..4 {
        assert_eq!(p.handle_new_job(&sleep_submission(60_000)), Some(expect));
    }
    // Drive the job in slot 1 to completion and reclaim its slot.
    let sub = p.start_job(1);
    p.complete_job(1, payload_outcome(&sub));
    p.finish_job(1);

    assert_eq!(p.handle_new_job(&echo_submission("again")), Some(1));
}

// Two consecutive queries with no intervening mutation return identical
// snapshots.
#[test]
fn consecutive_queries_are_identical() {
    let mut p = JobPoolState::new(4);
    p.handle_new_job(&echo_submission("one")).unwrap();
    let idx = p.handle_new_job(&sleep_submission(5)).unwrap();
    let sub = p.start_job(idx);
    p.complete_job(idx, payload_outcome(&sub));
    p.handle_new_job(&echo_submission("three")).unwrap();

    let first = p.get_jobs();
    let second = p.get_jobs();
    assert_eq!(first, second);
}

// The snapshot reports slot jobs in slot order, then archived jobs.
#[test]
fn snapshot_lists_slots_then_archive() {
    let mut p = JobPoolState::new(2);
    let a = p.handle_new_job(&echo_submission("first")).unwrap();
    p.handle_new_job(&sleep_submission(60_000)).unwrap();
    let sub = p.start_job(a);
    p.complete_job(a, payload_outcome(&sub));
    p.finish_job(a);

    let records = p.get_jobs();
    assert_eq!(records.len(), 2);
    // Slot `a` is Empty now; the remaining slot job comes first, the
    // archived echo job after it.
    assert_eq!(records[0].state, State::QUEUED);
    assert_eq!(records[1].state, State::SUCCEEDED);
    assert_eq!(records[1].result, "first");
}

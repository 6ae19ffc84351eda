use jobpool::api_error::ApiError;
use jobpool::jobs::{
    payload_outcome, EchoPayload, Job, JobCell, JobPoolState, JobSubmission, SleepPayload, State,
};

fn sleep_submission(ms: u32) -> JobSubmission {
    JobSubmission::Sleep(SleepPayload { milliseconds: ms })
}

fn echo_submission(msg: &str) -> JobSubmission {
    JobSubmission::Echo(EchoPayload { message: msg.to_string() })
}

#[test]
fn new_job_starts_in_init() {
    let j = Job::new(&echo_submission("x"));
    assert_eq!(j.state, State::INIT);
    assert!(j.started_at.is_none());
    assert!(j.finished_at.is_none());
    assert_eq!(j.result, "");
    assert_eq!(j.log.len(), 0);
}

#[test]
fn find_slot_grows_until_capacity() {
    let mut p = JobPoolState::new(2);
    assert_eq!(p.find_slot(), Some(0));
    assert_eq!(p.find_slot(), Some(1));
    // At capacity both slots are still Empty, so the first-fit scan
    // returns the first one instead of growing further.
    assert_eq!(p.find_slot(), Some(0));
    assert_eq!(p.jobs.len(), 2);
}

#[test]
fn accepted_job_is_queued_and_checked_out() {
    let mut p = JobPoolState::new(4);
    let idx = p.handle_new_job(&sleep_submission(10));
    assert_eq!(idx, Some(0));
    match &p.jobs[0] {
        JobCell::InFlight(j) => {
            assert_eq!(j.state, State::QUEUED);
            assert!(j.started_at.is_none());
            assert!(j.finished_at.is_none());
            assert_eq!(j.result, "");
            let text = j.log.render();
            assert!(text.starts_with("[INFO] queued at "));
            assert!(text.ends_with("\n"));
        }
        _ => panic!("slot 0 should hold the checked-out job"),
    }
    assert_eq!(p.completed.len(), 0);
}

#[test]
fn rejected_job_is_failed_without_ever_queueing() {
    let mut p = JobPoolState::new(1);
    assert_eq!(p.handle_new_job(&sleep_submission(1000)), Some(0));
    let r = p.handle_new_job(&echo_submission("late"));
    assert_eq!(r, None);
    assert_eq!(p.completed.len(), 1);
    let rejected = &p.completed[0];
    assert_eq!(rejected.state, State::FAILED);
    assert_eq!(rejected.result, "pool full: job never queued");
    assert!(rejected.started_at.is_none());
    assert!(rejected.finished_at.is_some());
    assert_eq!(rejected.log.len(), 0);
}

#[test]
fn worker_phases_drive_the_lifecycle() {
    let mut p = JobPoolState::new(4);
    let idx = p.handle_new_job(&echo_submission("hi")).unwrap();
    let sub = p.start_job(idx);
    match &p.jobs[idx] {
        JobCell::InFlight(j) => {
            assert_eq!(j.state, State::RUNNING);
            assert!(j.started_at.is_some());
            assert!(j.finished_at.is_none());
        }
        _ => panic!("slot should stay checked out while running"),
    }
    let outcome = payload_outcome(&sub);
    p.complete_job(idx, outcome);
    match &p.jobs[idx] {
        JobCell::InFlight(j) => {
            assert_eq!(j.state, State::SUCCEEDED);
            assert_eq!(j.result, "hi");
            assert!(j.finished_at.is_some());
        }
        _ => panic!("slot should stay checked out until the signal is handled"),
    }
    p.finish_job(idx);
    assert!(matches!(p.jobs[idx], JobCell::Empty));
    assert_eq!(p.completed.len(), 1);
    assert_eq!(p.completed[0].state, State::SUCCEEDED);
}

#[test]
fn failed_payload_is_recorded_with_its_message() {
    let mut p = JobPoolState::new(4);
    let idx = p.handle_new_job(&sleep_submission(1)).unwrap();
    p.start_job(idx);
    p.complete_job(idx, Err("payload exploded".to_string()));
    match &p.jobs[idx] {
        JobCell::InFlight(j) => {
            assert_eq!(j.state, State::FAILED);
            assert_eq!(j.result, "payload exploded");
            assert!(j.finished_at.is_some());
        }
        _ => panic!("slot should hold the failed job"),
    }
    p.finish_job(idx);
    assert_eq!(p.completed[0].state, State::FAILED);
}

#[test]
fn payload_outcomes_follow_the_submission() {
    match payload_outcome(&echo_submission("hello")) {
        Ok(s) => assert_eq!(s, "hello"),
        Err(_) => panic!("echo cannot fail"),
    }
    match payload_outcome(&sleep_submission(25)) {
        Ok(s) => assert_eq!(s, ""),
        Err(_) => panic!("sleep cannot fail"),
    }
}

#[test]
fn duplicate_submission_is_equal_in_content() {
    let sub = echo_submission("copy me");
    match (sub.duplicate(), sub) {
        (JobSubmission::Echo(a), JobSubmission::Echo(b)) => assert_eq!(a.message, b.message),
        _ => panic!("tag must be preserved"),
    }
    let sleep = sleep_submission(77);
    match (sleep.duplicate(), sleep) {
        (JobSubmission::Sleep(a), JobSubmission::Sleep(b)) => {
            assert_eq!(a.milliseconds, b.milliseconds)
        }
        _ => panic!("tag must be preserved"),
    }
}

#[test]
fn state_names_are_lowercase() {
    assert_eq!(State::INIT.name(), "init");
    assert_eq!(State::QUEUED.name(), "queued");
    assert_eq!(State::RUNNING.name(), "running");
    assert_eq!(State::SUCCEEDED.name(), "succeeded");
    assert_eq!(State::FAILED.name(), "failed");
}

#[test]
fn api_errors_map_to_their_status_codes() {
    assert_eq!(ApiError::JobQueueClosed.status_code(), 503);
    assert_eq!(ApiError::InternalError("boom".to_string()).status_code(), 500);
}

#[test]
fn api_errors_carry_their_messages() {
    assert_eq!(ApiError::JobQueueClosed.message(), "job queue closed or unavailable");
    assert_eq!(
        ApiError::InternalError("lock poisoned".to_string()).message(),
        "internal error: lock poisoned"
    );
}

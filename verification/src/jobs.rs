//! The job pool: submissions, the job lifecycle record, the fixed-capacity
//! slot table and the archive of terminal jobs.
//!
//! The slot table is mutated only through the methods of [`JobPoolState`],
//! which an embedding program drives from a single coordinating loop: a
//! submission is handled by [`JobPoolState::handle_new_job`], a dispatched
//! worker's two phases by [`JobPoolState::start_job`] and
//! [`JobPoolState::complete_job`], and a completion signal by
//! [`JobPoolState::finish_job`]. Queries take a consistent snapshot through
//! [`JobPoolState::get_jobs`].

use crate::decimal::{dec_chars, format_i64};
use crate::logs::{empty_log, log_model, LogBuffer, LogLevel};
use vstd::prelude::*;
use vstd::utf8::{decode_utf8, valid_utf8};

verus! {

/// The default pool capacity.
pub const DEFAULT_MAX_JOBS: usize = 4;

/// Lifecycle state of one job.
#[derive(Copy, Clone, Debug, PartialEq, Eq, Structural)]
pub enum State {
    INIT,
    QUEUED,
    RUNNING,
    SUCCEEDED,
    FAILED,
}

impl State {
    /// A state no transition may leave.
    pub open spec fn is_terminal(self) -> bool {
        self == State::SUCCEEDED || self == State::FAILED
    }

    /// The legal lifecycle transitions: INIT to QUEUED, INIT to FAILED
    /// (pool full), QUEUED to RUNNING, RUNNING to SUCCEEDED and RUNNING to
    /// FAILED. No transition leaves a terminal state and no state is
    /// skipped.
    pub open spec fn step_allowed(self, post: State) -> bool {
        ||| (self == State::INIT && post == State::QUEUED)
        ||| (self == State::INIT && post == State::FAILED)
        ||| (self == State::QUEUED && post == State::RUNNING)
        ||| (self == State::RUNNING && post == State::SUCCEEDED)
        ||| (self == State::RUNNING && post == State::FAILED)
    }

    /// The lower-case name of the state.
    pub open spec fn name_chars(self) -> Seq<char> {
        match self {
            State::INIT => "init"@,
            State::QUEUED => "queued"@,
            State::RUNNING => "running"@,
            State::SUCCEEDED => "succeeded"@,
            State::FAILED => "failed"@,
        }
    }

    /// The lower-case name of the state, e.g. `"queued"`.
    pub fn name(&self) -> (s: &'static str)
        ensures
            s@ == self.name_chars(),
    {
        match self {
            State::INIT => "init",
            State::QUEUED => "queued",
            State::RUNNING => "running",
            State::SUCCEEDED => "succeeded",
            State::FAILED => "failed",
        }
    }
}

/// Payload of an echo job: its message becomes the job's result.
#[derive(Debug)]
pub struct EchoPayload {
    pub message: String,
}

impl EchoPayload {
    /// A copy with the same message.
    pub fn duplicate(&self) -> (r: EchoPayload)
        ensures
            r == *self,
    {
        EchoPayload { message: self.message.clone() }
    }
}

/// Payload of a sleep job: the worker blocks for this many milliseconds.
#[derive(Debug)]
pub struct SleepPayload {
    pub milliseconds: u32,
}

impl SleepPayload {
    /// A copy with the same duration.
    pub fn duplicate(&self) -> (r: SleepPayload)
        ensures
            r == *self,
    {
        SleepPayload { milliseconds: self.milliseconds }
    }
}

/// A work submission: an immutable tagged payload.
#[derive(Debug)]
pub enum JobSubmission {
    Echo(EchoPayload),
    Sleep(SleepPayload),
}

impl JobSubmission {
    /// A copy with the same tag and payload.
    pub fn duplicate(&self) -> (r: JobSubmission)
        ensures
            r == *self,
    {
        match self {
            JobSubmission::Echo(p) => JobSubmission::Echo(p.duplicate()),
            JobSubmission::Sleep(p) => JobSubmission::Sleep(p.duplicate()),
        }
    }
}

/// The message of the log line a job receives when it is queued.
pub open spec fn queued_msg_chars(t: int) -> Seq<char> {
    "queued at "@ + dec_chars(t)
}

/// Lifecycle record of one job: submission, state, timestamps, result text
/// and captured log.
pub struct Job {
    pub id: u128,
    pub submission: JobSubmission,
    pub state: State,
    pub created_at: i64,
    pub started_at: Option<i64>,
    pub finished_at: Option<i64>,
    pub result: String,
    pub log: LogBuffer,
}

impl Job {
    /// Field coherence along the lifecycle: timestamps and result appear
    /// exactly when the state says they must, and the log stays bounded
    /// valid text.
    pub open spec fn wf(&self) -> bool {
        &&& self.log.wf()
        &&& valid_utf8(self.log@.bytes)
        &&& match self.state {
            State::INIT => {
                &&& self.started_at is None
                &&& self.finished_at is None
                &&& self.result@.len() == 0
            },
            State::QUEUED => {
                &&& self.started_at is None
                &&& self.finished_at is None
                &&& self.result@.len() == 0
            },
            State::RUNNING => {
                &&& self.started_at is Some
                &&& self.finished_at is None
                &&& self.result@.len() == 0
            },
            State::SUCCEEDED => self.started_at is Some && self.finished_at is Some,
            State::FAILED => self.finished_at is Some,
        }
    }

    /// A fresh job for a submission: state INIT, a new identifier and
    /// creation time, no timestamps, empty result and empty log.
    pub fn new(job_submission: &JobSubmission) -> (j: Job)
        ensures
            j.wf(),
            j.state == State::INIT,
            j.submission == *job_submission,
            j.started_at is None,
            j.finished_at is None,
            j.result@.len() == 0,
            j.log@ == empty_log(),
    {
        Job {
            id: fresh_job_id(),
            submission: job_submission.duplicate(),
            state: State::INIT,
            created_at: now_millis(),
            started_at: None,
            finished_at: None,
            result: String::new(),
            log: LogBuffer::new(),
        }
    }
}

/// The fields shared by a job and its successor along any transition.
pub open spec fn same_identity(pre: Job, post: Job) -> bool {
    &&& post.id == pre.id
    &&& post.submission == pre.submission
    &&& post.created_at == pre.created_at
}

/// One slot of the table. A job is `Occupied` while only the table holds
/// it and `InFlight` while it is checked out to a worker; both are distinct
/// from `Empty`, a slot never or no longer allocated to a job.
pub enum JobCell {
    Empty,
    Occupied(Job),
    InFlight(Job),
}

/// The job a non-empty cell holds.
pub open spec fn cell_job(c: JobCell) -> Job
    recommends
        !(c is Empty),
{
    match c {
        JobCell::Empty => vstd::pervasive::arbitrary(),
        JobCell::Occupied(j) => j,
        JobCell::InFlight(j) => j,
    }
}

impl JobCell {
    /// Slot coherence: a held job is well formed and past INIT.
    pub open spec fn wf(&self) -> bool {
        match self {
            JobCell::Empty => true,
            JobCell::Occupied(j) => j.wf() && j.state == State::QUEUED,
            JobCell::InFlight(j) => j.wf() && j.state != State::INIT,
        }
    }
}

/// The first `Empty` slot at or after position `i`, scanning in index
/// order.
pub open spec fn first_empty_from(s: Seq<JobCell>, i: int) -> Option<int>
    decreases s.len() - i,
{
    if i < 0 || i >= s.len() {
        None
    } else if s[i] is Empty {
        Some(i)
    } else {
        first_empty_from(s, i + 1)
    }
}

/// The first `Empty` slot of the table, if any.
pub open spec fn first_empty(s: Seq<JobCell>) -> Option<int> {
    first_empty_from(s, 0)
}

/// The slot table: an ordered fixed-capacity sequence of slots plus the
/// unordered archive of terminal jobs.
pub struct JobPoolState {
    pub jobs: Vec<JobCell>,
    pub max_jobs: usize,
    pub completed: Vec<Job>,
}

impl JobPoolState {
    /// Table invariant: never more slots than `max_jobs`, every slot
    /// coherent, and every archived job terminal.
    pub open spec fn wf(&self) -> bool {
        &&& self.max_jobs >= 1
        &&& self.jobs@.len() <= self.max_jobs
        &&& forall|i: int| 0 <= i < self.jobs@.len() ==> (#[trigger] self.jobs@[i]).wf()
        &&& forall|i: int|
            0 <= i < self.completed@.len() ==> (#[trigger] self.completed@[i]).wf()
                && self.completed@[i].state.is_terminal()
    }

    /// The slot index the next submission would be assigned, if any: a new
    /// slot while fewer than `max_jobs` exist, else the first `Empty` slot.
    pub open spec fn spec_find_slot(self) -> Option<int> {
        if self.jobs@.len() < self.max_jobs {
            Some(self.jobs@.len() as int)
        } else {
            first_empty(self.jobs@)
        }
    }

    /// An empty pool with the given capacity.
    pub fn new(max_jobs: usize) -> (p: JobPoolState)
        requires
            max_jobs > 0,
        ensures
            p.wf(),
            p.max_jobs == max_jobs,
            p.jobs@.len() == 0,
            p.completed@.len() == 0,
    {
        JobPoolState { max_jobs, jobs: Vec::new(), completed: Vec::new() }
    }

    /// Finds a slot for a new job. While fewer than `max_jobs` slots exist
    /// a new `Empty` slot is appended and its index returned; otherwise a
    /// linear index-ordered scan returns the first `Empty` slot, skipping
    /// `Occupied` and `InFlight` ones, and none when no slot is free. The
    /// scan is a deliberate bounded first-fit over at most `max_jobs`
    /// slots.
    pub fn find_slot(&mut self) -> (r: Option<usize>)
        requires
            old(self).wf(),
        ensures
            final(self).wf(),
            final(self).max_jobs == old(self).max_jobs,
            final(self).completed@ == old(self).completed@,
            final(self).jobs@ == if old(self).jobs@.len() < old(self).max_jobs {
                old(self).jobs@.push(JobCell::Empty)
            } else {
                old(self).jobs@
            },
            r matches Some(i) ==> old(self).spec_find_slot() == Some(i as int) && i
                < final(self).jobs@.len() && final(self).jobs@[i as int] is Empty,
            r is None ==> old(self).spec_find_slot() is None,
    {
        if self.jobs.len() < self.max_jobs {
            self.jobs.push(JobCell::Empty);
            return Some(self.jobs.len() - 1);
        }
        let ghost s = self.jobs@;
        let mut i: usize = 0;
        while i < self.jobs.len()
            invariant
                self.jobs@ == old(self).jobs@,
                self.max_jobs == old(self).max_jobs,
                self.completed@ == old(self).completed@,
                old(self).wf(),
                old(self).jobs@.len() >= old(self).max_jobs,
                s == self.jobs@,
                0 <= i <= s.len(),
                forall|k: int| 0 <= k < i ==> !((#[trigger] s[k]) is Empty),
            decreases s.len() - i,
        {
            let is_empty = match &self.jobs[i] {
                JobCell::Empty => true,
                _ => false,
            };
            if is_empty {
                proof {
                    lemma_first_empty_prefix(s, i as int);
                }
                return Some(i);
            }
            i = i + 1;
        }
        proof {
            lemma_first_empty_prefix(s, s.len() as int);
        }
        None
    }
}

/// How a job recorded FAILED for want of a slot relates to its submission:
/// it never passed through QUEUED or RUNNING, so it carries no timestamps
/// of either and an empty log.
pub open spec fn rejected_job(j: Job, s: JobSubmission) -> bool {
    &&& j.submission == s
    &&& j.state == State::FAILED
    &&& j.started_at is None
    &&& j.finished_at is Some
    &&& j.result@ == "pool full: job never queued"@
    &&& j.log@ == empty_log()
}

/// How a freshly accepted job relates to its submission: QUEUED, untouched
/// timestamps and result, and a log holding exactly its queue-time line.
pub open spec fn accepted_job(j: Job, s: JobSubmission) -> bool {
    &&& j.submission == s
    &&& j.state == State::QUEUED
    &&& j.started_at is None
    &&& j.finished_at is None
    &&& j.result@.len() == 0
    &&& j.log@ == log_model(empty_log(), LogLevel::INFO, queued_msg_chars(j.created_at as int))
}

/// The INIT to QUEUED step: identity kept, queue-time line appended.
pub open spec fn queued_version(pre: Job, post: Job) -> bool {
    &&& same_identity(pre, post)
    &&& post.state == State::QUEUED
    &&& post.started_at is None
    &&& post.finished_at is None
    &&& post.result@ == pre.result@
    &&& post.log@ == log_model(pre.log@, LogLevel::INFO, queued_msg_chars(pre.created_at as int))
}

/// The QUEUED to RUNNING step: identity kept, started_at stamped, a
/// "job started" line appended.
pub open spec fn started_version(pre: Job, post: Job) -> bool {
    &&& same_identity(pre, post)
    &&& post.state == State::RUNNING
    &&& post.started_at is Some
    &&& post.finished_at is None
    &&& post.result@ == pre.result@
    &&& post.log@ == log_model(pre.log@, LogLevel::INFO, "job started"@)
}

/// The RUNNING to terminal step: identity and started_at kept, the outcome
/// recorded as state and result, finished_at stamped, a "job finished"
/// line appended.
pub open spec fn completed_version(pre: Job, outcome: Result<String, String>, post: Job) -> bool {
    &&& same_identity(pre, post)
    &&& post.started_at == pre.started_at
    &&& post.finished_at is Some
    &&& post.state == if outcome is Ok {
        State::SUCCEEDED
    } else {
        State::FAILED
    }
    &&& post.result@ == match outcome {
        Ok(s) => s@,
        Err(e) => e@,
    }
    &&& post.log@ == log_model(pre.log@, LogLevel::INFO, "job finished"@)
}

/// The FAILED record made of a job that is abandoned with a reason:
/// identity and log kept, finished_at stamped.
pub open spec fn failed_version(pre: Job, reason: Seq<char>, post: Job) -> bool {
    &&& same_identity(pre, post)
    &&& post.state == State::FAILED
    &&& post.result@ == reason
    &&& post.started_at == pre.started_at
    &&& post.finished_at is Some
    &&& post.log@ == pre.log@
}

impl JobPoolState {
    /// Fails a job with the given reason and moves it into the archive.
    fn fail_and_complete_job(&mut self, job: Job, reason: &str)
        requires
            old(self).wf(),
            job.wf(),
        ensures
            final(self).wf(),
            final(self).max_jobs == old(self).max_jobs,
            final(self).jobs@ == old(self).jobs@,
            final(self).completed@.len() == old(self).completed@.len() + 1,
            final(self).completed@.subrange(0, old(self).completed@.len() as int) == old(
                self,
            ).completed@,
            failed_version(job, reason@, final(self).completed@.last()),
    {
        let mut job = job;
        job.state = State::FAILED;
        job.result = String::from_str(reason);
        job.finished_at = Some(now_millis());
        self.completed.push(job);
        proof {
            assert(self.completed@.subrange(0, old(self).completed@.len() as int)
                =~= old(self).completed@);
        }
    }

    /// Queues a job into the Empty slot at `index`, appends its queue-time
    /// log line, stores it and immediately checks it out: the caller is to
    /// dispatch exactly one worker for this slot.
    pub fn run_job(&mut self, job: Job, index: usize)
        requires
            old(self).wf(),
            job.wf(),
            job.state == State::INIT,
            index < old(self).jobs@.len(),
            old(self).jobs@[index as int] is Empty,
        ensures
            final(self).wf(),
            final(self).max_jobs == old(self).max_jobs,
            final(self).completed@ == old(self).completed@,
            final(self).jobs@.len() == old(self).jobs@.len(),
            forall|k: int|
                0 <= k < old(self).jobs@.len() && k != index ==> final(self).jobs@[k] == old(
                    self,
                ).jobs@[k],
            final(self).jobs@[index as int] matches JobCell::InFlight(j) && queued_version(job, j),
    {
        let mut job = job;
        job.state = State::QUEUED;
        let t = format_i64(job.created_at);
        let mut msg = String::from_str("queued at ");
        msg.append(t.as_str());
        proof {
            assert(msg@ =~= queued_msg_chars(job.created_at as int));
            crate::logs::lemma_log_model_valid_utf8(job.log@, LogLevel::INFO, msg@);
        }
        job.log.logf(LogLevel::INFO, msg.as_str());
        self.jobs.set(index, JobCell::InFlight(job));
        proof {
            assert forall|k: int| 0 <= k < self.jobs@.len() implies (#[trigger] self.jobs@[k]).wf() by {
                if k != index {
                    assert(self.jobs@[k] == old(self).jobs@[k]);
                }
            }
        }
    }

    /// Handles one submission: a fresh job is queued and checked out, or,
    /// with no slot free, recorded FAILED in the archive without ever
    /// being queued. Returns the slot index the caller is to dispatch a
    /// worker for, or none on rejection.
    pub fn handle_new_job(&mut self, job_submission: &JobSubmission) -> (r: Option<usize>)
        requires
            old(self).wf(),
        ensures
            final(self).wf(),
            final(self).max_jobs == old(self).max_jobs,
            r is Some <==> old(self).spec_find_slot() is Some,
            r matches Some(i) ==> {
                &&& old(self).spec_find_slot() == Some(i as int)
                &&& final(self).completed@ == old(self).completed@
                &&& final(self).jobs@.len() == if old(self).jobs@.len() < old(self).max_jobs {
                    old(self).jobs@.len() + 1
                } else {
                    old(self).jobs@.len()
                }
                &&& i < final(self).jobs@.len()
                &&& forall|k: int|
                    0 <= k < final(self).jobs@.len() && k != i ==> #[trigger] final(self).jobs@[k]
                        == if k < old(self).jobs@.len() {
                        old(self).jobs@[k]
                    } else {
                        JobCell::Empty
                    }
                &&& final(self).jobs@[i as int] matches JobCell::InFlight(j) && accepted_job(
                    j,
                    *job_submission,
                )
            },
            r is None ==> {
                &&& final(self).jobs@ == old(self).jobs@
                &&& final(self).completed@.len() == old(self).completed@.len() + 1
                &&& final(self).completed@.subrange(0, old(self).completed@.len() as int) == old(
                    self,
                ).completed@
                &&& rejected_job(final(self).completed@.last(), *job_submission)
            },
    {
        let newjob = Job::new(job_submission);
        match self.find_slot() {
            None => {
                self.fail_and_complete_job(newjob, "pool full: job never queued");
                None
            },
            Some(i) => {
                self.run_job(newjob, i);
                Some(i)
            },
        }
    }

    /// The worker's first phase for the job checked out at `index`: marks
    /// it RUNNING, stamps started_at, logs "job started" and hands back
    /// the submission whose payload the worker is to perform.
    pub fn start_job(&mut self, index: usize) -> (r: JobSubmission)
        requires
            old(self).wf(),
            index < old(self).jobs@.len(),
            old(self).jobs@[index as int] matches JobCell::InFlight(j) && j.state == State::QUEUED,
        ensures
            final(self).wf(),
            final(self).max_jobs == old(self).max_jobs,
            final(self).completed@ == old(self).completed@,
            final(self).jobs@.len() == old(self).jobs@.len(),
            forall|k: int|
                0 <= k < old(self).jobs@.len() && k != index ==> final(self).jobs@[k] == old(
                    self,
                ).jobs@[k],
            final(self).jobs@[index as int] matches JobCell::InFlight(j2) && started_version(
                cell_job(old(self).jobs@[index as int]),
                j2,
            ),
            r == cell_job(old(self).jobs@[index as int]).submission,
    {
        let mut cell = JobCell::Empty;
        self.jobs.set_and_swap(index, &mut cell);
        match cell {
            JobCell::InFlight(mut job) => {
                job.state = State::RUNNING;
                job.started_at = Some(now_millis());
                proof {
                    crate::logs::lemma_log_model_valid_utf8(job.log@, LogLevel::INFO, "job started"@);
                }
                job.log.log(LogLevel::INFO, "job started");
                let sub = job.submission.duplicate();
                self.jobs.set(index, JobCell::InFlight(job));
                proof {
                    assert forall|k: int|
                        0 <= k < self.jobs@.len() implies (#[trigger] self.jobs@[k]).wf() by {
                        if k != index {
                            assert(self.jobs@[k] == old(self).jobs@[k]);
                        }
                    }
                }
                sub
            },
            _ => {
                proof {
                    assert(false);
                }
                vstd::pervasive::unreached()
            },
        }
    }

    /// The worker's second phase: records the payload outcome - SUCCEEDED
    /// with its result text, or FAILED with a descriptive message - stamps
    /// finished_at and logs "job finished". The slot stays checked out
    /// until the completion signal is handled by finish_job.
    pub fn complete_job(&mut self, index: usize, outcome: Result<String, String>)
        requires
            old(self).wf(),
            index < old(self).jobs@.len(),
            old(self).jobs@[index as int] matches JobCell::InFlight(j) && j.state == State::RUNNING,
        ensures
            final(self).wf(),
            final(self).max_jobs == old(self).max_jobs,
            final(self).completed@ == old(self).completed@,
            final(self).jobs@.len() == old(self).jobs@.len(),
            forall|k: int|
                0 <= k < old(self).jobs@.len() && k != index ==> final(self).jobs@[k] == old(
                    self,
                ).jobs@[k],
            final(self).jobs@[index as int] matches JobCell::InFlight(j2) && completed_version(
                cell_job(old(self).jobs@[index as int]),
                outcome,
                j2,
            ),
    {
        let mut cell = JobCell::Empty;
        self.jobs.set_and_swap(index, &mut cell);
        match cell {
            JobCell::InFlight(mut job) => {
                match &outcome {
                    Ok(_) => {
                        job.state = State::SUCCEEDED;
                    },
                    Err(_) => {
                        job.state = State::FAILED;
                    },
                }
                job.result = match outcome {
                    Ok(s) => s,
                    Err(e) => e,
                };
                job.finished_at = Some(now_millis());
                proof {
                    crate::logs::lemma_log_model_valid_utf8(
                        job.log@,
                        LogLevel::INFO,
                        "job finished"@,
                    );
                }
                job.log.log(LogLevel::INFO, "job finished");
                self.jobs.set(index, JobCell::InFlight(job));
                proof {
                    assert forall|k: int|
                        0 <= k < self.jobs@.len() implies (#[trigger] self.jobs@[k]).wf() by {
                        if k != index {
                            assert(self.jobs@[k] == old(self).jobs@[k]);
                        }
                    }
                }
            },
            _ => {
                proof {
                    assert(false);
                }
            },
        }
    }

    /// Handles a worker's completion signal for `job_index`: the slot is
    /// restored to Empty so the first-fit scan can reuse it, and the
    /// finished job moves into the archive. Restoring the slot here is
    /// what keeps completions from leaking capacity: a slot left checked
    /// out would never be found Empty again.
    pub fn finish_job(&mut self, job_index: usize)
        requires
            old(self).wf(),
            job_index < old(self).jobs@.len(),
            old(self).jobs@[job_index as int] matches JobCell::InFlight(j)
                && j.state.is_terminal(),
        ensures
            final(self).wf(),
            final(self).max_jobs == old(self).max_jobs,
            final(self).jobs@ == old(self).jobs@.update(job_index as int, JobCell::Empty),
            final(self).completed@.len() == old(self).completed@.len() + 1,
            final(self).completed@.subrange(0, old(self).completed@.len() as int) == old(
                self,
            ).completed@,
            final(self).completed@.last() == cell_job(old(self).jobs@[job_index as int]),
    {
        let mut cell = JobCell::Empty;
        self.jobs.set_and_swap(job_index, &mut cell);
        match cell {
            JobCell::InFlight(job) => {
                self.completed.push(job);
                proof {
                    assert(self.completed@.subrange(0, old(self).completed@.len() as int)
                        =~= old(self).completed@);
                    assert forall|k: int|
                        0 <= k < self.jobs@.len() implies (#[trigger] self.jobs@[k]).wf() by {
                        if k != job_index {
                            assert(self.jobs@[k] == old(self).jobs@[k]);
                        }
                    }
                }
            },
            _ => {
                proof {
                    assert(false);
                }
            },
        }
    }
}

/// The outcome a worker records once its payload work is done: an echo's
/// message is its result; a sleep produces empty result text. Neither
/// payload can fail.
pub fn payload_outcome(submission: &JobSubmission) -> (r: Result<String, String>)
    ensures
        r is Ok,
        *submission matches JobSubmission::Echo(p) ==> r matches Ok(s) && s@ == p.message@,
        *submission matches JobSubmission::Sleep(_) ==> r matches Ok(s) && s@.len() == 0,
{
    match submission {
        JobSubmission::Echo(p) => Ok(p.message.clone()),
        JobSubmission::Sleep(_) => Ok(String::new()),
    }
}

/// The first-fit scan can start at any position whose prefix holds no
/// `Empty` slot without changing its answer.
proof fn lemma_first_empty_prefix(s: Seq<JobCell>, i: int)
    requires
        0 <= i <= s.len(),
        forall|k: int| 0 <= k < i ==> !((#[trigger] s[k]) is Empty),
    ensures
        first_empty(s) == first_empty_from(s, i),
    decreases i,
{
    if i > 0 {
        lemma_first_empty_prefix_step(s, i - 1);
        lemma_first_empty_prefix(s, i - 1);
    }
}

proof fn lemma_first_empty_prefix_step(s: Seq<JobCell>, i: int)
    requires
        0 <= i < s.len(),
        !(s[i] is Empty),
    ensures
        first_empty_from(s, i) == first_empty_from(s, i + 1),
{
}

/// The jobs one slot contributes to a snapshot.
pub open spec fn cell_jobs(c: JobCell) -> Seq<Job> {
    match c {
        JobCell::Empty => Seq::empty(),
        JobCell::Occupied(j) => seq![j],
        JobCell::InFlight(j) => seq![j],
    }
}

/// The jobs held in slots, in slot order.
pub open spec fn slot_jobs(s: Seq<JobCell>) -> Seq<Job>
    decreases s.len(),
{
    if s.len() == 0 {
        Seq::empty()
    } else {
        slot_jobs(s.drop_last()) + cell_jobs(s.last())
    }
}

/// Every job the pool tracks: the jobs held in slots, in slot order,
/// followed by the archive, in arrival order.
pub open spec fn tracked_jobs(p: JobPoolState) -> Seq<Job> {
    slot_jobs(p.jobs@) + p.completed@
}

/// The boundary form of one tracked job.
#[derive(Debug, PartialEq, Eq)]
pub struct JobRecord {
    pub id: u128,
    pub state: State,
    pub created_at: i64,
    pub result: String,
    pub log_text: String,
}

/// How a record reports a job: its identity, state and result, and the
/// rendered text of its log.
pub open spec fn record_matches(r: JobRecord, j: Job) -> bool {
    &&& r.id == j.id
    &&& r.state == j.state
    &&& r.created_at == j.created_at
    &&& r.result@ == j.result@
    &&& r.log_text@ == decode_utf8(j.log@.bytes)
}

/// A snapshot reports a job sequence record for record, in order.
pub open spec fn snapshot_matches(rs: Seq<JobRecord>, js: Seq<Job>) -> bool {
    &&& rs.len() == js.len()
    &&& forall|k: int| 0 <= k < js.len() ==> record_matches(#[trigger] rs[k], js[k])
}

/// Two records that carry the same data, compared through their views.
pub open spec fn record_views_equal(a: JobRecord, b: JobRecord) -> bool {
    &&& a.id == b.id
    &&& a.state == b.state
    &&& a.created_at == b.created_at
    &&& a.result@ == b.result@
    &&& a.log_text@ == b.log_text@
}

fn job_record(j: &Job) -> (r: JobRecord)
    requires
        j.wf(),
    ensures
        record_matches(r, *j),
{
    JobRecord {
        id: j.id,
        state: j.state,
        created_at: j.created_at,
        result: j.result.clone(),
        log_text: j.log.render(),
    }
}

proof fn lemma_slot_jobs_take_step(s: Seq<JobCell>, i: int)
    requires
        0 <= i < s.len(),
    ensures
        slot_jobs(s.take(i + 1)) == slot_jobs(s.take(i)) + cell_jobs(s[i]),
{
    assert(s.take(i + 1).drop_last() =~= s.take(i));
    assert(s.take(i + 1).last() == s[i]);
}

impl JobPoolState {
    /// A consistent snapshot of all tracked jobs, taken in one piece: the
    /// jobs held in slots, in slot order, then the archive, in arrival
    /// order. The result is a function of the pool state alone.
    pub fn get_jobs(&self) -> (r: Vec<JobRecord>)
        requires
            self.wf(),
        ensures
            snapshot_matches(r@, tracked_jobs(*self)),
    {
        let mut records: Vec<JobRecord> = Vec::new();
        let mut i: usize = 0;
        while i < self.jobs.len()
            invariant
                self.wf(),
                0 <= i <= self.jobs@.len(),
                snapshot_matches(records@, slot_jobs(self.jobs@.take(i as int))),
            decreases self.jobs@.len() - i,
        {
            proof {
                lemma_slot_jobs_take_step(self.jobs@, i as int);
            }
            match &self.jobs[i] {
                JobCell::Empty => {},
                JobCell::Occupied(j) => {
                    records.push(job_record(j));
                },
                JobCell::InFlight(j) => {
                    records.push(job_record(j));
                },
            }
            i = i + 1;
        }
        proof {
            assert(self.jobs@.take(self.jobs@.len() as int) =~= self.jobs@);
        }
        let mut k: usize = 0;
        while k < self.completed.len()
            invariant
                self.wf(),
                0 <= k <= self.completed@.len(),
                snapshot_matches(
                    records@,
                    slot_jobs(self.jobs@) + self.completed@.take(k as int),
                ),
            decreases self.completed@.len() - k,
        {
            records.push(job_record(&self.completed[k]));
            proof {
                assert(self.completed@.take(k as int + 1) =~= self.completed@.take(
                    k as int,
                ).push(self.completed@[k as int]));
            }
            k = k + 1;
        }
        proof {
            assert(self.completed@.take(self.completed@.len() as int) =~= self.completed@);
        }
        records
    }
}

/// Whether a job currently holds one of the concurrency slots' budget.
pub open spec fn is_active(j: Job) -> bool {
    j.state == State::QUEUED || j.state == State::RUNNING
}

/// How many jobs of a sequence are QUEUED or RUNNING.
pub open spec fn active_count(js: Seq<Job>) -> int
    decreases js.len(),
{
    if js.len() == 0 {
        0
    } else {
        active_count(js.drop_last()) + if is_active(js.last()) {
            1int
        } else {
            0int
        }
    }
}

proof fn lemma_active_count_concat(a: Seq<Job>, b: Seq<Job>)
    ensures
        active_count(a + b) == active_count(a) + active_count(b),
    decreases b.len(),
{
    if b.len() == 0 {
        assert(a + b =~= a);
    } else {
        assert((a + b).drop_last() =~= a + b.drop_last());
        assert((a + b).last() == b.last());
        lemma_active_count_concat(a, b.drop_last());
    }
}

proof fn lemma_active_count_of_terminal(js: Seq<Job>)
    requires
        forall|i: int| 0 <= i < js.len() ==> (#[trigger] js[i]).state.is_terminal(),
    ensures
        active_count(js) == 0,
    decreases js.len(),
{
    if js.len() > 0 {
        assert(js[js.len() - 1].state.is_terminal());
        lemma_active_count_of_terminal(js.drop_last());
    }
}

proof fn lemma_active_count_single(j: Job)
    ensures
        active_count(seq![j]) == if is_active(j) {
            1int
        } else {
            0int
        },
{
    assert(seq![j].drop_last() =~= Seq::<Job>::empty());
    assert(active_count(Seq::<Job>::empty()) == 0);
    assert(seq![j].last() == j);
}

proof fn lemma_active_count_slots(s: Seq<JobCell>)
    ensures
        0 <= active_count(slot_jobs(s)) <= s.len(),
    decreases s.len(),
{
    if s.len() > 0 {
        lemma_active_count_slots(s.drop_last());
        lemma_active_count_concat(slot_jobs(s.drop_last()), cell_jobs(s.last()));
        match s.last() {
            JobCell::Empty => {
                assert(cell_jobs(s.last()) =~= Seq::empty());
                assert(active_count(cell_jobs(s.last())) == 0);
            },
            JobCell::Occupied(j) => {
                lemma_active_count_single(j);
                assert(cell_jobs(s.last()) == seq![j]);
            },
            JobCell::InFlight(j) => {
                lemma_active_count_single(j);
                assert(cell_jobs(s.last()) == seq![j]);
            },
        }
        assert(0 <= active_count(cell_jobs(s.last())) <= 1);
    }
}

/// For every well-formed pool state, the number of simultaneously QUEUED
/// or RUNNING jobs among all tracked jobs never exceeds the capacity
/// ceiling `max_jobs`.
pub proof fn lemma_active_jobs_bounded(p: JobPoolState)
    requires
        p.wf(),
    ensures
        0 <= active_count(tracked_jobs(p)) <= p.max_jobs,
{
    lemma_active_count_concat(slot_jobs(p.jobs@), p.completed@);
    lemma_active_count_of_terminal(p.completed@);
    lemma_active_count_slots(p.jobs@);
}

/// With the table at capacity and every slot Occupied or InFlight, no
/// slot is found: the next submission is rejected outright, recorded
/// FAILED in the archive without ever being queued.
pub proof fn lemma_full_pool_finds_no_slot(p: JobPoolState)
    requires
        p.wf(),
        p.jobs@.len() == p.max_jobs,
        forall|i: int| 0 <= i < p.jobs@.len() ==> !((#[trigger] p.jobs@[i]) is Empty),
    ensures
        p.spec_find_slot() is None,
{
    lemma_first_empty_prefix(p.jobs@, p.jobs@.len() as int);
}

/// Once a slot has been reclaimed, the first-fit scan assigns exactly that
/// slot to the next submission: here, slot `i` is the first Empty one of a
/// table at capacity.
pub proof fn lemma_reclaimed_slot_reused(p: JobPoolState, i: int)
    requires
        p.wf(),
        p.jobs@.len() == p.max_jobs,
        0 <= i < p.jobs@.len(),
        p.jobs@[i] is Empty,
        forall|k: int| 0 <= k < i ==> !((#[trigger] p.jobs@[k]) is Empty),
    ensures
        p.spec_find_slot() == Some(i),
{
    lemma_first_empty_prefix(p.jobs@, i);
}

/// The state histories a job can exhibit: every prefix of
/// INIT, QUEUED, RUNNING ending in SUCCEEDED or FAILED, and the direct
/// rejection INIT, FAILED.
pub open spec fn is_lifecycle_prefix(h: Seq<State>) -> bool {
    ||| h =~= seq![State::INIT]
    ||| h =~= seq![State::INIT, State::QUEUED]
    ||| h =~= seq![State::INIT, State::FAILED]
    ||| h =~= seq![State::INIT, State::QUEUED, State::RUNNING]
    ||| h =~= seq![State::INIT, State::QUEUED, State::RUNNING, State::SUCCEEDED]
    ||| h =~= seq![State::INIT, State::QUEUED, State::RUNNING, State::FAILED]
}

/// Every state history that starts at INIT and takes only allowed steps is
/// one of the lifecycle prefixes: no state is skipped and no transition
/// leaves a terminal state.
pub proof fn lemma_lifecycle_prefix(h: Seq<State>)
    requires
        h.len() >= 1,
        h[0] == State::INIT,
        forall|i: int| 0 <= i < h.len() - 1 ==> (#[trigger] h[i]).step_allowed(h[i + 1]),
    ensures
        is_lifecycle_prefix(h),
    decreases h.len(),
{
    if h.len() == 1 {
        assert(h =~= seq![State::INIT]);
    } else {
        let g = h.drop_last();
        let n = h.len() - 1;
        assert forall|i: int| 0 <= i < g.len() - 1 implies (#[trigger] g[i]).step_allowed(
            g[i + 1],
        ) by {
            assert(g[i] == h[i]);
            assert(g[i + 1] == h[i + 1]);
            assert(h[i].step_allowed(h[i + 1]));
        }
        lemma_lifecycle_prefix(g);
        assert(h[n - 1].step_allowed(h[n]));
        assert(h =~= g.push(h[n]));
        if g =~= seq![State::INIT] {
            assert(h[n - 1] == State::INIT);
        } else if g =~= seq![State::INIT, State::QUEUED] {
            assert(h[n - 1] == State::QUEUED);
        } else if g =~= seq![State::INIT, State::FAILED] {
            assert(h[n - 1] == State::FAILED);
        } else if g =~= seq![State::INIT, State::QUEUED, State::RUNNING] {
            assert(h[n - 1] == State::RUNNING);
        } else if g =~= seq![State::INIT, State::QUEUED, State::RUNNING, State::SUCCEEDED] {
            assert(h[n - 1] == State::SUCCEEDED);
        } else {
            assert(g =~= seq![State::INIT, State::QUEUED, State::RUNNING, State::FAILED]);
            assert(h[n - 1] == State::FAILED);
        }
    }
}

/// Snapshots are deterministic: two snapshots of the same pool state agree
/// record for record, so consecutive queries with no intervening mutation
/// return identical results.
pub proof fn lemma_snapshot_deterministic(
    rs1: Seq<JobRecord>,
    rs2: Seq<JobRecord>,
    p: JobPoolState,
)
    requires
        snapshot_matches(rs1, tracked_jobs(p)),
        snapshot_matches(rs2, tracked_jobs(p)),
    ensures
        rs1.len() == rs2.len(),
        forall|k: int| 0 <= k < rs1.len() ==> record_views_equal(#[trigger] rs1[k], rs2[k]),
{
    assert forall|k: int| 0 <= k < rs1.len() implies record_views_equal(
        #[trigger] rs1[k],
        rs2[k],
    ) by {
        assert(record_matches(rs1[k], tracked_jobs(p)[k]));
        assert(record_matches(rs2[k], tracked_jobs(p)[k]));
    }
}

/// Relies on ulid::Ulid::generate: a fresh, time-sortable 128-bit
/// identifier drawn from the clock and a random source; nothing is assumed
/// of its value.
#[verifier::external_body]
fn fresh_job_id() -> u128 {
    ulid::Ulid::generate().0
}

/// Relies on chrono::Utc::now and DateTime::timestamp_millis: the current
/// wall-clock time as milliseconds since the Unix epoch; nothing is
/// assumed of its value.
#[verifier::external_body]
fn now_millis() -> i64 {
    chrono::Utc::now().timestamp_millis()
}

} // verus!

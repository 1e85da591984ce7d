use vstd::prelude::*;

verus! {

/// Lifecycle of a whole transcoding job.
#[derive(Debug, Clone, Copy, PartialEq, Eq, Structural)]
pub enum JobStatus {
    Pending,
    Queued,
    InProgress,
    Completed,
    Failed,
    Cancelled,
    Deleted,
}

/// Lifecycle of the transcoding of one fragment under a job.
#[derive(Debug, Clone, Copy, PartialEq, Eq, Structural)]
pub enum FragmentJobStatus {
    Pending,
    Queued,
    Reserved,
    InProgress,
    Completed,
    Failed,
    Cancelled,
    Deleted,
}

/// What can happen to a job.
#[derive(Debug, Clone, Copy, PartialEq, Eq, Structural)]
pub enum JobEvent {
    /// Submitted for processing.
    Queue,
    /// A worker claimed one of its fragment jobs.
    Start,
    Complete,
    Fail,
    /// Operator action.
    Cancel,
    /// Operator action.
    Delete,
}

/// What can happen to a fragment job.
#[derive(Debug, Clone, Copy, PartialEq, Eq, Structural)]
pub enum FragmentJobEvent {
    Queue,
    /// Operator action.
    Reserve,
    /// A worker won the conditional update from `Queued`.
    Claim,
    Complete,
    Fail,
    /// Operator action.
    Cancel,
    /// Operator action.
    Delete,
}

/// A transition that the state machine does not have.
#[derive(Debug, Clone, Copy, PartialEq, Eq, Structural)]
pub enum TransitionError {
    Job { job_status: JobStatus, job_event: JobEvent },
    FragmentJob { fragment_job_status: FragmentJobStatus, fragment_job_event: FragmentJobEvent },
}

/// The job transition table; `None` where the event is not allowed.
pub open spec fn job_next(s: JobStatus, e: JobEvent) -> Option<JobStatus> {
    match (s, e) {
        (JobStatus::Pending, JobEvent::Queue) => Some(JobStatus::Queued),
        (JobStatus::Queued, JobEvent::Start) => Some(JobStatus::InProgress),
        (JobStatus::InProgress, JobEvent::Complete) => Some(JobStatus::Completed),
        (JobStatus::InProgress, JobEvent::Fail) => Some(JobStatus::Failed),
        (JobStatus::Pending, JobEvent::Cancel) => Some(JobStatus::Cancelled),
        (JobStatus::Queued, JobEvent::Cancel) => Some(JobStatus::Cancelled),
        (JobStatus::InProgress, JobEvent::Cancel) => Some(JobStatus::Cancelled),
        (JobStatus::Pending, JobEvent::Delete) => Some(JobStatus::Deleted),
        (JobStatus::Queued, JobEvent::Delete) => Some(JobStatus::Deleted),
        (JobStatus::InProgress, JobEvent::Delete) => Some(JobStatus::Deleted),
        _ => None,
    }
}

/// The fragment job transition table; `None` where the event is not allowed.
pub open spec fn fragment_job_next(s: FragmentJobStatus, e: FragmentJobEvent) -> Option<
    FragmentJobStatus,
> {
    match (s, e) {
        (FragmentJobStatus::Pending, FragmentJobEvent::Queue) => Some(FragmentJobStatus::Queued),
        (FragmentJobStatus::Queued, FragmentJobEvent::Claim) => Some(
            FragmentJobStatus::InProgress,
        ),
        (FragmentJobStatus::InProgress, FragmentJobEvent::Complete) => Some(
            FragmentJobStatus::Completed,
        ),
        (FragmentJobStatus::InProgress, FragmentJobEvent::Fail) => Some(FragmentJobStatus::Failed),
        (FragmentJobStatus::Pending, FragmentJobEvent::Reserve) => Some(
            FragmentJobStatus::Reserved,
        ),
        (FragmentJobStatus::Queued, FragmentJobEvent::Reserve) => Some(
            FragmentJobStatus::Reserved,
        ),
        (FragmentJobStatus::Pending, FragmentJobEvent::Cancel) => Some(
            FragmentJobStatus::Cancelled,
        ),
        (FragmentJobStatus::Queued, FragmentJobEvent::Cancel) => Some(
            FragmentJobStatus::Cancelled,
        ),
        (FragmentJobStatus::Pending, FragmentJobEvent::Delete) => Some(FragmentJobStatus::Deleted),
        (FragmentJobStatus::Queued, FragmentJobEvent::Delete) => Some(FragmentJobStatus::Deleted),
        _ => None,
    }
}

/// Position of a job status along the lifecycle; terminal states share the last one.
pub open spec fn job_rank(s: JobStatus) -> int {
    match s {
        JobStatus::Pending => 0,
        JobStatus::Queued => 1,
        JobStatus::InProgress => 2,
        _ => 3,
    }
}

/// Position of a fragment job status along the lifecycle.
pub open spec fn fragment_job_rank(s: FragmentJobStatus) -> int {
    match s {
        FragmentJobStatus::Pending => 0,
        FragmentJobStatus::Queued => 1,
        FragmentJobStatus::InProgress => 2,
        _ => 3,
    }
}

pub open spec fn is_operator_event(e: FragmentJobEvent) -> bool {
    e == FragmentJobEvent::Reserve || e == FragmentJobEvent::Cancel || e == FragmentJobEvent::Delete
}

impl JobStatus {
    /// Whether no transition leaves this status but by operator action.
    pub open spec fn spec_is_terminal(self) -> bool {
        job_rank(self) == 3
    }

    /// Applies `event`, or reports that the transition does not exist.
    pub fn apply(self, event: JobEvent) -> (r: Result<JobStatus, TransitionError>)
        ensures
            match job_next(self, event) {
                Some(t) => r == Ok::<JobStatus, TransitionError>(t),
                None => r == Err::<JobStatus, TransitionError>(
                    TransitionError::Job { job_status: self, job_event: event },
                ),
            },
    {
        match (self, event) {
            (JobStatus::Pending, JobEvent::Queue) => Ok(JobStatus::Queued),
            (JobStatus::Queued, JobEvent::Start) => Ok(JobStatus::InProgress),
            (JobStatus::InProgress, JobEvent::Complete) => Ok(JobStatus::Completed),
            (JobStatus::InProgress, JobEvent::Fail) => Ok(JobStatus::Failed),
            (JobStatus::Pending, JobEvent::Cancel)
            | (JobStatus::Queued, JobEvent::Cancel)
            | (JobStatus::InProgress, JobEvent::Cancel) => Ok(JobStatus::Cancelled),
            (JobStatus::Pending, JobEvent::Delete)
            | (JobStatus::Queued, JobEvent::Delete)
            | (JobStatus::InProgress, JobEvent::Delete) => Ok(JobStatus::Deleted),
            _ => Err(TransitionError::Job { job_status: self, job_event: event }),
        }
    }
}

impl FragmentJobStatus {
    /// Applies `event`, or reports that the transition does not exist.
    pub fn apply(self, event: FragmentJobEvent) -> (r: Result<FragmentJobStatus, TransitionError>)
        ensures
            match fragment_job_next(self, event) {
                Some(t) => r == Ok::<FragmentJobStatus, TransitionError>(t),
                None => r == Err::<FragmentJobStatus, TransitionError>(
                    TransitionError::FragmentJob { fragment_job_status: self, fragment_job_event: event },
                ),
            },
    {
        match (self, event) {
            (FragmentJobStatus::Pending, FragmentJobEvent::Queue) => Ok(FragmentJobStatus::Queued),
            (FragmentJobStatus::Queued, FragmentJobEvent::Claim) => Ok(
                FragmentJobStatus::InProgress,
            ),
            (FragmentJobStatus::InProgress, FragmentJobEvent::Complete) => Ok(
                FragmentJobStatus::Completed,
            ),
            (FragmentJobStatus::InProgress, FragmentJobEvent::Fail) => Ok(
                FragmentJobStatus::Failed,
            ),
            (FragmentJobStatus::Pending, FragmentJobEvent::Reserve)
            | (FragmentJobStatus::Queued, FragmentJobEvent::Reserve) => Ok(
                FragmentJobStatus::Reserved,
            ),
            (FragmentJobStatus::Pending, FragmentJobEvent::Cancel)
            | (FragmentJobStatus::Queued, FragmentJobEvent::Cancel) => Ok(
                FragmentJobStatus::Cancelled,
            ),
            (FragmentJobStatus::Pending, FragmentJobEvent::Delete)
            | (FragmentJobStatus::Queued, FragmentJobEvent::Delete) => Ok(
                FragmentJobStatus::Deleted,
            ),
            _ => Err(TransitionError::FragmentJob { fragment_job_status: self, fragment_job_event: event }),
        }
    }

    /// The status that a fragment job is created with: `Queued` when the job
    /// is started at submission, `Pending` otherwise.
    pub fn initial(start: bool) -> (r: FragmentJobStatus)
        ensures
            r == (if start {
                FragmentJobStatus::Queued
            } else {
                FragmentJobStatus::Pending
            }),
    {
        if start {
            FragmentJobStatus::Queued
        } else {
            FragmentJobStatus::Pending
        }
    }
}

impl JobStatus {
    /// The status that a job is created with: `Queued` when started at
    /// submission, `Pending` otherwise.
    pub fn initial(start: bool) -> (r: JobStatus)
        ensures
            r == (if start {
                JobStatus::Queued
            } else {
                JobStatus::Pending
            }),
    {
        if start {
            JobStatus::Queued
        } else {
            JobStatus::Pending
        }
    }
}

/// Statuses only move forward, except by operator action: every other
/// allowed fragment job transition strictly advances the lifecycle.
pub proof fn lemma_fragment_job_moves_forward(s: FragmentJobStatus, e: FragmentJobEvent)
    requires
        fragment_job_next(s, e) is Some,
        !is_operator_event(e),
    ensures
        fragment_job_rank(fragment_job_next(s, e)->0) > fragment_job_rank(s),
{
}

/// Every allowed job transition that is not a cancel or delete strictly
/// advances the lifecycle, and nothing leaves a terminal status.
pub proof fn lemma_job_moves_forward(s: JobStatus, e: JobEvent)
    requires
        job_next(s, e) is Some,
    ensures
        e != JobEvent::Cancel && e != JobEvent::Delete ==> job_rank(job_next(s, e)->0) > job_rank(
            s,
        ),
        !s.spec_is_terminal(),
{
}

/// A fragment job that has completed or failed never changes again.
pub proof fn lemma_fragment_job_final(s: FragmentJobStatus, e: FragmentJobEvent)
    requires
        s == FragmentJobStatus::Completed || s == FragmentJobStatus::Failed,
    ensures
        fragment_job_next(s, e) is None,
{
}

} // verus!

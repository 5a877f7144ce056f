//! The states of a job and the events that move it on.

use crate::log::parsed::JobResult;
use vstd::prelude::*;

verus! {

/// Where a job stands.
#[derive(Debug, Clone, Copy, PartialEq, Eq, Structural)]
pub enum JobState {
    /// A job that it depends on has not succeeded yet.
    Pending,
    /// Everything that it depends on is there.
    Ready,
    /// It was given to an endpoint.
    Dispatched,
    /// Its container runs.
    Running,
    /// Its log reports success.
    Succeeded,
    /// Its log reports a failure, it could not be dispatched, or it ran out
    /// of time.
    Errored,
    /// Its log reports neither success nor failure.
    Unknown,
    /// It never ran: a job that it depends on did not succeed, or the
    /// submit was cancelled before it started.
    Skipped,
    /// It was stopped because the submit was cancelled.
    Cancelled,
}

/// What happens to a job.
#[derive(Debug, Clone, Copy, PartialEq, Eq, Structural)]
pub enum JobEvent {
    /// The jobs that it depends on have all succeeded.
    DependenciesMet,
    /// An endpoint took it.
    Assigned,
    /// Its container started.
    Started,
    /// Its container ended, and its log gives this verdict.
    Finished(JobResult),
    /// A job that it depends on did not succeed.
    DependencyFailed,
    /// The endpoint could not run it, however often it was tried, or its
    /// time ran out.
    Failed,
    /// The submit was cancelled.
    Cancelled,
}

impl JobState {
    /// How far a job in this state has come.
    pub open spec fn rank(self) -> nat {
        match self {
            JobState::Pending => 0,
            JobState::Ready => 1,
            JobState::Dispatched => 2,
            JobState::Running => 3,
            _ => 4,
        }
    }

    /// Whether a job in this state will see no other.
    pub open spec fn spec_is_final(self) -> bool {
        self.rank() == 4
    }

    /// Whether a job in this state will see no other.
    pub fn is_final(self) -> (r: bool)
        ensures
            r == self.spec_is_final(),
    {
        match self {
            JobState::Pending | JobState::Ready | JobState::Dispatched | JobState::Running => false,
            _ => true,
        }
    }

    /// Whether a job in this state is with an endpoint.
    pub open spec fn spec_in_flight(self) -> bool {
        self == JobState::Dispatched || self == JobState::Running
    }

    /// Whether a job in this state is with an endpoint.
    pub fn in_flight(self) -> (r: bool)
        ensures
            r == self.spec_in_flight(),
    {
        match self {
            JobState::Dispatched | JobState::Running => true,
            _ => false,
        }
    }
}

/// The state that an event moves a job to, if the event can happen to a job
/// in its state.
///
/// A job gets ready, is assigned, starts and finishes with the verdict of
/// its log. A job that waits is skipped where a job it depends on fails or
/// the submit is cancelled; a job with an endpoint is cancelled with the
/// submit, and errored where the endpoint fails it.
pub open spec fn spec_transition(state: JobState, event: JobEvent) -> Option<JobState> {
    match (state, event) {
        (JobState::Pending, JobEvent::DependenciesMet) => Some(JobState::Ready),
        (JobState::Ready, JobEvent::Assigned) => Some(JobState::Dispatched),
        (JobState::Dispatched, JobEvent::Started) => Some(JobState::Running),
        (JobState::Running, JobEvent::Finished(JobResult::Success)) => Some(JobState::Succeeded),
        (JobState::Running, JobEvent::Finished(JobResult::Errored)) => Some(JobState::Errored),
        (JobState::Running, JobEvent::Finished(JobResult::Unknown)) => Some(JobState::Unknown),
        (JobState::Pending, JobEvent::DependencyFailed) => Some(JobState::Skipped),
        (JobState::Ready, JobEvent::DependencyFailed) => Some(JobState::Skipped),
        (JobState::Dispatched, JobEvent::Failed) => Some(JobState::Errored),
        (JobState::Running, JobEvent::Failed) => Some(JobState::Errored),
        (JobState::Pending, JobEvent::Cancelled) => Some(JobState::Skipped),
        (JobState::Ready, JobEvent::Cancelled) => Some(JobState::Skipped),
        (JobState::Dispatched, JobEvent::Cancelled) => Some(JobState::Cancelled),
        (JobState::Running, JobEvent::Cancelled) => Some(JobState::Cancelled),
        _ => None,
    }
}

/// Moves a job on by an event; nothing where the event cannot happen to a
/// job in its state.
pub fn transition(state: JobState, event: JobEvent) -> (r: Option<JobState>)
    ensures
        r == spec_transition(state, event),
{
    match (state, event) {
        (JobState::Pending, JobEvent::DependenciesMet) => Some(JobState::Ready),
        (JobState::Ready, JobEvent::Assigned) => Some(JobState::Dispatched),
        (JobState::Dispatched, JobEvent::Started) => Some(JobState::Running),
        (JobState::Running, JobEvent::Finished(JobResult::Success)) => Some(JobState::Succeeded),
        (JobState::Running, JobEvent::Finished(JobResult::Errored)) => Some(JobState::Errored),
        (JobState::Running, JobEvent::Finished(JobResult::Unknown)) => Some(JobState::Unknown),
        (JobState::Pending, JobEvent::DependencyFailed) => Some(JobState::Skipped),
        (JobState::Ready, JobEvent::DependencyFailed) => Some(JobState::Skipped),
        (JobState::Dispatched, JobEvent::Failed) => Some(JobState::Errored),
        (JobState::Running, JobEvent::Failed) => Some(JobState::Errored),
        (JobState::Pending, JobEvent::Cancelled) => Some(JobState::Skipped),
        (JobState::Ready, JobEvent::Cancelled) => Some(JobState::Skipped),
        (JobState::Dispatched, JobEvent::Cancelled) => Some(JobState::Cancelled),
        (JobState::Running, JobEvent::Cancelled) => Some(JobState::Cancelled),
        _ => None,
    }
}

/// Every event moves a job forward, and nothing moves a job that has come
/// to its end.
pub proof fn lemma_transitions_monotone(state: JobState, event: JobEvent)
    ensures
        spec_transition(state, event) matches Some(next) ==> state.rank() < next.rank(),
        state.spec_is_final() ==> spec_transition(state, event).is_none(),
{
}

/// How long to wait before a dispatch is tried again: the base time doubled
/// with each try that failed, as far as the numbers go; nothing once the
/// tries are used up.
pub open spec fn spec_retry_delay(failed: u32, max_retries: u32, base: u64) -> Option<u64> {
    if failed >= max_retries {
        None
    } else {
        Some(doubled(base, failed as nat))
    }
}

/// `value` doubled `times` times, but no more than the greatest number.
pub open spec fn doubled(value: u64, times: nat) -> u64
    decreases times,
{
    if times == 0 {
        value
    } else {
        let before = doubled(value, (times - 1) as nat);
        if before > u64::MAX / 2 {
            u64::MAX
        } else {
            (before * 2) as u64
        }
    }
}

/// Tells how long to wait before a failed dispatch is tried again, or that
/// it is not to be tried again.
pub fn retry_delay(failed: u32, max_retries: u32, base: u64) -> (r: Option<u64>)
    ensures
        r == spec_retry_delay(failed, max_retries, base),
{
    if failed >= max_retries {
        return None;
    }
    let mut delay = base;
    let mut i: u32 = 0;
    while i < failed
        invariant
            i <= failed,
            delay == doubled(base, i as nat),
        decreases failed - i,
    {
        delay = if delay > u64::MAX / 2 {
            u64::MAX
        } else {
            delay * 2
        };
        i = i + 1;
    }
    Some(delay)
}

} // verus!

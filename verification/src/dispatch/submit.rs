//! The jobs of a submit while it runs: which may start, which never will,
//! and what the submit comes to.

use crate::dispatch::plan::PlannedJob;
use crate::dispatch::state::{spec_transition, transition, JobEvent, JobState};
use vstd::prelude::*;

verus! {

/// A job of a running submit.
#[derive(Debug)]
pub struct ScheduledJob {
    /// The places of the jobs that must have succeeded before.
    pub depends_on: Vec<usize>,
    pub state: JobState,
    /// For a job that was skipped because of another job: the place of the
    /// job that failed first below it.
    pub cause: Option<usize>,
}

/// What a submit comes to.
#[derive(Debug, Clone, Copy, PartialEq, Eq, Structural)]
pub enum SubmitVerdict {
    /// Every job succeeded.
    Success,
    /// A job errored.
    Errored,
    /// No job errored, but not every job succeeded.
    Incomplete,
}

/// Whether a job in this state keeps the jobs above it from running.
pub open spec fn blocks(state: JobState) -> bool {
    state == JobState::Errored || state == JobState::Unknown || state == JobState::Skipped || state
        == JobState::Cancelled
}

/// Whether a job in this state waits to be given to an endpoint.
pub open spec fn waits(state: JobState) -> bool {
    state == JobState::Pending || state == JobState::Ready
}

/// Whether the job at `d` has succeeded.
pub open spec fn succeeded_at(jobs: Seq<ScheduledJob>, d: usize) -> bool {
    d < jobs.len() && jobs[d as int].state == JobState::Succeeded
}

/// Whether a job may start: it is pending, and every job that it depends
/// on has succeeded.
pub open spec fn is_eligible(jobs: Seq<ScheduledJob>, i: int) -> bool {
    &&& 0 <= i < jobs.len()
    &&& jobs[i].state == JobState::Pending
    &&& forall|k: int|
        0 <= k < jobs[i].depends_on@.len() ==> succeeded_at(jobs, #[trigger] jobs[i].depends_on@[k])
}

/// The jobs of a plan, all pending.
pub fn schedule(plan: &Vec<PlannedJob>) -> (jobs: Vec<ScheduledJob>)
    ensures
        jobs@.len() == plan@.len(),
        forall|i: int|
            0 <= i < jobs@.len() ==> (#[trigger] jobs@[i]).state == JobState::Pending
                && jobs@[i].cause.is_none() && jobs@[i].depends_on@ == plan@[i].depends_on@,
{
    let mut jobs: Vec<ScheduledJob> = Vec::new();
    let mut i: usize = 0;
    while i < plan.len()
        invariant
            i <= plan.len(),
            jobs@.len() == i,
            forall|k: int|
                0 <= k < i ==> (#[trigger] jobs@[k]).state == JobState::Pending
                    && jobs@[k].cause.is_none() && jobs@[k].depends_on@ == plan@[k].depends_on@,
        decreases plan.len() - i,
    {
        let mut depends_on: Vec<usize> = Vec::new();
        let mut k: usize = 0;
        while k < plan[i].depends_on.len()
            invariant
                i < plan.len(),
                k <= plan@[i as int].depends_on@.len(),
                depends_on@ == plan@[i as int].depends_on@.take(k as int),
            decreases plan[i as int].depends_on.len() - k,
        {
            depends_on.push(plan[i].depends_on[k]);
            proof {
                assert(depends_on@ =~= plan@[i as int].depends_on@.take(k as int + 1));
            }
            k = k + 1;
        }
        proof {
            assert(plan@[i as int].depends_on@.take(k as int) =~= plan@[i as int].depends_on@);
        }
        jobs.push(ScheduledJob { depends_on, state: JobState::Pending, cause: None });
        i = i + 1;
    }
    jobs
}

fn all_succeeded(jobs: &Vec<ScheduledJob>, i: usize) -> (r: bool)
    requires
        i < jobs@.len(),
    ensures
        r == (forall|k: int|
            0 <= k < jobs@[i as int].depends_on@.len() ==> succeeded_at(
                jobs@,
                #[trigger] jobs@[i as int].depends_on@[k],
            )),
{
    let deps = &jobs[i].depends_on;
    let mut k: usize = 0;
    while k < deps.len()
        invariant
            k <= deps.len(),
            i < jobs@.len(),
            deps@ == jobs@[i as int].depends_on@,
            forall|j: int| 0 <= j < k ==> succeeded_at(jobs@, #[trigger] deps@[j]),
        decreases deps.len() - k,
    {
        let d = deps[k];
        let ok = d < jobs.len() && match jobs[d].state {
            JobState::Succeeded => true,
            _ => false,
        };
        if !ok {
            assert(!succeeded_at(jobs@, deps@[k as int]));
            return false;
        }
        k = k + 1;
    }
    true
}

/// Finds the first job that may start.
pub fn next_ready(jobs: &Vec<ScheduledJob>) -> (r: Option<usize>)
    ensures
        match r {
            Some(i) => is_eligible(jobs@, i as int) && forall|j: int|
                0 <= j < i ==> !is_eligible(jobs@, j),
            None => forall|j: int| 0 <= j < jobs@.len() ==> !is_eligible(jobs@, j),
        },
{
    let mut i: usize = 0;
    while i < jobs.len()
        invariant
            i <= jobs.len(),
            forall|j: int| 0 <= j < i ==> !is_eligible(jobs@, j),
        decreases jobs.len() - i,
    {
        let pending = match jobs[i].state {
            JobState::Pending => true,
            _ => false,
        };
        if pending && all_succeeded(jobs, i) {
            return Some(i);
        }
        i = i + 1;
    }
    None
}

/// The place of the job that keeps a job from running, found among the
/// jobs that it depends on: for the first of them that blocks, the job
/// that it was skipped for, or the job itself.
pub open spec fn blocker(jobs: Seq<ScheduledJob>, deps: Seq<usize>) -> Option<usize>
    decreases deps.len(),
{
    if deps.len() == 0 {
        None
    } else {
        let d = deps[0];
        if d < jobs.len() && blocks(jobs[d as int].state) {
            if jobs[d as int].state == JobState::Skipped && jobs[d as int].cause.is_some() {
                jobs[d as int].cause
            } else {
                Some(d)
            }
        } else {
            blocker(jobs, deps.drop_first())
        }
    }
}

fn find_blocker(jobs: &Vec<ScheduledJob>, i: usize) -> (r: Option<usize>)
    requires
        i < jobs@.len(),
    ensures
        r == blocker(jobs@, jobs@[i as int].depends_on@),
{
    let deps = &jobs[i].depends_on;
    let mut k: usize = 0;
    proof {
        assert(deps@.skip(0) =~= deps@);
    }
    while k < deps.len()
        invariant
            k <= deps.len(),
            i < jobs@.len(),
            deps@ == jobs@[i as int].depends_on@,
            blocker(jobs@, deps@) == blocker(jobs@, deps@.skip(k as int)),
        decreases deps.len() - k,
    {
        proof {
            assert(deps@.skip(k as int).drop_first() =~= deps@.skip(k as int + 1));
        }
        let d = deps[k];
        if d < jobs.len() {
            match jobs[d].state {
                JobState::Skipped => {
                    return match jobs[d].cause {
                        Some(cause) => Some(cause),
                        None => Some(d),
                    };
                },
                JobState::Errored | JobState::Unknown | JobState::Cancelled => {
                    return Some(d);
                },
                _ => {},
            }
        }
        k = k + 1;
    }
    None
}

/// The jobs once the first `n` of them were looked at in turn: a job that
/// waits is skipped where a job that it depends on keeps it from running,
/// with the job that failed first below it as the cause.
pub open spec fn skipped_upto(jobs: Seq<ScheduledJob>, n: nat) -> Seq<ScheduledJob>
    decreases n,
{
    if n == 0 || n > jobs.len() {
        jobs
    } else {
        let before = skipped_upto(jobs, (n - 1) as nat);
        let job = before[n - 1];
        match blocker(before, job.depends_on@) {
            Some(cause) => if waits(job.state) {
                before.update(
                    n - 1,
                    ScheduledJob {
                        depends_on: job.depends_on,
                        state: JobState::Skipped,
                        cause: Some(cause),
                    },
                )
            } else {
                before
            },
            None => before,
        }
    }
}

/// Looking at jobs changes none behind them, and keeps their number.
pub proof fn lemma_skipped_upto(jobs: Seq<ScheduledJob>, n: nat)
    requires
        n <= jobs.len(),
    ensures
        skipped_upto(jobs, n).len() == jobs.len(),
        forall|k: int| n <= k < jobs.len() ==> skipped_upto(jobs, n)[k] == jobs[k],
    decreases n,
{
    if n > 0 {
        lemma_skipped_upto(jobs, (n - 1) as nat);
    }
}

/// Whether every job stands behind the jobs that it depends on.
pub open spec fn is_topological(jobs: Seq<ScheduledJob>) -> bool {
    forall|i: int, k: int|
        0 <= i < jobs.len() && 0 <= k < jobs[i].depends_on@.len() ==> (#[trigger] jobs[i].depends_on@[k])
            < i
}

/// What keeps a job from running depends on the jobs that it depends on
/// and on no others.
proof fn lemma_blocker_agree(a: Seq<ScheduledJob>, b: Seq<ScheduledJob>, deps: Seq<usize>)
    requires
        a.len() == b.len(),
        forall|k: int|
            0 <= k < deps.len() && (#[trigger] deps[k]) < a.len() ==> a[deps[k] as int] == b[deps[k] as int],
    ensures
        blocker(a, deps) == blocker(b, deps),
    decreases deps.len(),
{
    if deps.len() > 0 {
        assert(deps[0] < a.len() ==> a[deps[0] as int] == b[deps[0] as int]);
        assert forall|k: int|
            0 <= k < deps.drop_first().len() && (#[trigger] deps.drop_first()[k])
                < a.len() implies a[deps.drop_first()[k] as int] == b[deps.drop_first()[k] as int] by {
            assert(deps.drop_first()[k] == deps[k + 1]);
        }
        lemma_blocker_agree(a, b, deps.drop_first());
    }
}

/// Looking at jobs leaves what they depend on as it is.
proof fn lemma_skipped_keeps_dependencies(jobs: Seq<ScheduledJob>, n: nat)
    requires
        n <= jobs.len(),
    ensures
        skipped_upto(jobs, n).len() == jobs.len(),
        forall|i: int|
            0 <= i < jobs.len() ==> (#[trigger] skipped_upto(jobs, n)[i]).depends_on
                == jobs[i].depends_on,
    decreases n,
{
    if n > 0 {
        lemma_skipped_keeps_dependencies(jobs, (n - 1) as nat);
    }
}

/// In a plan, one pass over the jobs skips all that will never run: once
/// the first `n` jobs were looked at, none of them waits for a job that
/// keeps it from running.
pub proof fn lemma_skip_reaches_all(jobs: Seq<ScheduledJob>, n: nat)
    requires
        n <= jobs.len(),
        is_topological(jobs),
    ensures
        forall|i: int|
            0 <= i < n && waits((#[trigger] skipped_upto(jobs, n)[i]).state) ==> blocker(
                skipped_upto(jobs, n),
                skipped_upto(jobs, n)[i].depends_on@,
            ).is_none(),
    decreases n,
{
    if n > 0 {
        lemma_skip_reaches_all(jobs, (n - 1) as nat);
        lemma_skipped_keeps_dependencies(jobs, (n - 1) as nat);
        lemma_skipped_upto(jobs, (n - 1) as nat);
        let before = skipped_upto(jobs, (n - 1) as nat);
        let after = skipped_upto(jobs, n);
        assert(after.len() == before.len());
        assert forall|i: int| 0 <= i < n && waits((#[trigger] after[i]).state) implies blocker(
            after,
            after[i].depends_on@,
        ).is_none() by {
            let deps = after[i].depends_on@;
            assert(after[i].depends_on == jobs[i].depends_on) by {
                lemma_skipped_keeps_dependencies(jobs, n);
            }
            assert forall|k: int|
                0 <= k < deps.len() && (#[trigger] deps[k]) < before.len() implies before[deps[k] as int]
                == after[deps[k] as int] by {
                assert(jobs[i].depends_on@[k] < i);
            }
            lemma_blocker_agree(before, after, deps);
            if i < n - 1 {
                assert(after[i] == before[i]);
            }
        }
    }
}

/// Skips every waiting job that will never run because a job below it did
/// not succeed. In a plan, where every job stands behind the jobs that it
/// depends on, one pass reaches every job above a failure.
pub fn skip_blocked(jobs: &mut Vec<ScheduledJob>)
    ensures
        final(jobs)@ == skipped_upto(old(jobs)@, old(jobs)@.len()),
{
    let n = jobs.len();
    let mut i: usize = 0;
    while i < n
        invariant
            i <= n,
            n == old(jobs)@.len(),
            jobs@ == skipped_upto(old(jobs)@, i as nat),
        decreases n - i,
    {
        proof {
            lemma_skipped_upto(old(jobs)@, i as nat);
        }
        let waiting = match jobs[i].state {
            JobState::Pending | JobState::Ready => true,
            _ => false,
        };
        let cause = find_blocker(jobs, i);
        if waiting && cause.is_some() {
            let ghost before = jobs@;
            let mut job = ScheduledJob {
                depends_on: Vec::new(),
                state: JobState::Skipped,
                cause,
            };
            core::mem::swap(&mut job.depends_on, &mut jobs[i].depends_on);
            jobs[i] = job;
            proof {
                assert(jobs@ =~= before.update(
                    i as int,
                    ScheduledJob {
                        depends_on: before[i as int].depends_on,
                        state: JobState::Skipped,
                        cause,
                    },
                ));
            }
        }
        i = i + 1;
    }
}

/// Why an event was not taken.
#[derive(Debug, Clone, Copy, PartialEq, Eq, Structural)]
pub enum EventError {
    /// The submit has no job at this place.
    NoSuchJob,
    /// The event cannot happen to a job in the state of this job.
    NotExpected,
}

/// Moves the job at `i` on by an event.
pub fn apply(jobs: &mut Vec<ScheduledJob>, i: usize, event: JobEvent) -> (r: Result<(), EventError>)
    ensures
        final(jobs)@.len() == old(jobs)@.len(),
        forall|k: int| 0 <= k < old(jobs)@.len() && k != i ==> final(jobs)@[k] == old(jobs)@[k],
        match r {
            Ok(()) => i < old(jobs)@.len() && spec_transition(old(jobs)@[i as int].state, event)
                == Some(final(jobs)@[i as int].state) && final(jobs)@[i as int].depends_on == old(
                jobs,
            )@[i as int].depends_on && final(jobs)@[i as int].cause == old(jobs)@[i as int].cause,
            Err(EventError::NoSuchJob) => i >= old(jobs)@.len() && final(jobs)@ == old(jobs)@,
            Err(EventError::NotExpected) => i < old(jobs)@.len() && spec_transition(
                old(jobs)@[i as int].state,
                event,
            ).is_none() && final(jobs)@ == old(jobs)@,
        },
{
    if i >= jobs.len() {
        return Err(EventError::NoSuchJob);
    }
    match transition(jobs[i].state, event) {
        Some(next) => {
            jobs[i].state = next;
            Ok(())
        },
        None => Err(EventError::NotExpected),
    }
}

/// Whether the jobs are those of `before` after the submit was cancelled:
/// a job that was with an endpoint is cancelled, a job that waited is
/// skipped, and a job that had come to its end stays as it was.
pub open spec fn is_cancelled(before: Seq<ScheduledJob>, after: Seq<ScheduledJob>) -> bool {
    &&& after.len() == before.len()
    &&& forall|k: int|
        0 <= k < before.len() ==> (#[trigger] after[k]).depends_on == before[k].depends_on
            && after[k].cause == before[k].cause && after[k].state == match spec_transition(
            before[k].state,
            JobEvent::Cancelled,
        ) {
            Some(next) => next,
            None => before[k].state,
        }
}

/// Cancels the submit.
pub fn cancel(jobs: &mut Vec<ScheduledJob>)
    ensures
        is_cancelled(old(jobs)@, final(jobs)@),
{
    let n = jobs.len();
    let mut i: usize = 0;
    while i < n
        invariant
            i <= n,
            n == old(jobs)@.len(),
            jobs@.len() == n,
            forall|k: int| i <= k < n ==> jobs@[k] == old(jobs)@[k],
            forall|k: int|
                0 <= k < i ==> (#[trigger] jobs@[k]).depends_on == old(jobs)@[k].depends_on
                    && jobs@[k].cause == old(jobs)@[k].cause && jobs@[k].state
                    == match spec_transition(old(jobs)@[k].state, JobEvent::Cancelled) {
                    Some(next) => next,
                    None => old(jobs)@[k].state,
                },
        decreases n - i,
    {
        match transition(jobs[i].state, JobEvent::Cancelled) {
            Some(next) => {
                jobs[i].state = next;
            },
            None => {},
        }
        i = i + 1;
    }
}

/// What the jobs come to: errored where a job errored, success where all
/// succeeded, incomplete otherwise.
pub open spec fn spec_aggregate(jobs: Seq<ScheduledJob>) -> SubmitVerdict {
    if exists|k: int| 0 <= k < jobs.len() && (#[trigger] jobs[k]).state == JobState::Errored {
        SubmitVerdict::Errored
    } else if forall|k: int| 0 <= k < jobs.len() ==> (#[trigger] jobs[k]).state == JobState::Succeeded {
        SubmitVerdict::Success
    } else {
        SubmitVerdict::Incomplete
    }
}

/// Tells what the submit comes to.
pub fn aggregate(jobs: &Vec<ScheduledJob>) -> (r: SubmitVerdict)
    ensures
        r == spec_aggregate(jobs@),
{
    let mut all: bool = true;
    let mut i: usize = 0;
    while i < jobs.len()
        invariant
            i <= jobs.len(),
            forall|k: int| 0 <= k < i ==> (#[trigger] jobs@[k]).state != JobState::Errored,
            all == (forall|k: int| 0 <= k < i ==> (#[trigger] jobs@[k]).state == JobState::Succeeded),
        decreases jobs.len() - i,
    {
        match jobs[i].state {
            JobState::Errored => {
                assert(jobs@[i as int].state == JobState::Errored);
                return SubmitVerdict::Errored;
            },
            JobState::Succeeded => {},
            _ => {
                assert(jobs@[i as int].state != JobState::Succeeded);
                all = false;
            },
        }
        i = i + 1;
    }
    if all {
        SubmitVerdict::Success
    } else {
        SubmitVerdict::Incomplete
    }
}

} // verus!

//! What holds of the queue whatever is asked of the coordinator.

use vstd::prelude::*;
use crate::coordinator::{
    admissible, event_target, handed_back, position_of, queue_after_admission,
    queue_after_dispatch, queue_after_response,
    queue_after_event, queue_in_order, QUEUE_LIMIT,
};
use crate::job::JobView;
use crate::stage::Stage;

verus! {

/// `after` is `before` at the same stage or one allowed step on.
pub open spec fn same_or_stepped(before: JobView, after: JobView) -> bool {
    after == before || (before.ready.allows_spec(after.ready) && after == before.at(after.ready))
}

/// Every job of `after` is a job of `before`, at the same stage or one allowed
/// step on.
pub open spec fn moved_by_steps(before: Seq<JobView>, after: Seq<JobView>) -> bool {
    forall|k: int|
        #![trigger after[k]]
        0 <= k < after.len() ==> exists|i: int|
            #![trigger before[i]]
            0 <= i < before.len() && same_or_stepped(before[i], after[k])
}

/// No two jobs of the queue have the same id.
pub open spec fn distinct_ids(jobs: Seq<JobView>) -> bool {
    forall|i: int, j: int| 0 <= i < j < jobs.len() ==> jobs[i].job_id != jobs[j].job_id
}

/// The position of a job lies within the queue or at its end, and no job before it has the id.
pub proof fn lemma_position_bounds(jobs: Seq<JobView>, job_id: u64)
    ensures
        0 <= position_of(jobs, job_id) <= jobs.len(),
        position_of(jobs, job_id) < jobs.len() ==> jobs[position_of(jobs, job_id)].job_id
            == job_id,
        forall|k: int| 0 <= k < position_of(jobs, job_id) ==> jobs[k].job_id != job_id,
    decreases jobs.len(),
{
    if jobs.len() > 0 && jobs[0].job_id != job_id {
        let rest = jobs.skip(1);
        lemma_position_bounds(rest, job_id);
        let p = position_of(rest, job_id);
        if p < rest.len() {
            assert(rest[p] == jobs[p + 1]);
        }
        assert forall|k: int| 0 <= k < 1 + p implies jobs[k].job_id != job_id by {
            if k > 0 {
                assert(rest[k - 1] == jobs[k]);
            }
        }
    }
}

/// The queue never holds more than its limit, and never a job that has reached
/// an end, whatever job is submitted.
pub proof fn lemma_admission_keeps_order(jobs: Seq<JobView>, job: JobView)
    requires
        queue_in_order(jobs),
    ensures
        queue_in_order(queue_after_admission(jobs, job)),
        queue_after_admission(jobs, job).len() <= QUEUE_LIMIT,
{
    let after = queue_after_admission(jobs, job);
    assert forall|i: int| 0 <= i < after.len() implies !(#[trigger] after[i]).ready.is_terminal_spec() by {
        if i < jobs.len() {
            assert(after[i] == jobs[i]);
        }
    }
}

/// A job that is admitted takes the step from `Queued` to `Downloading`; a job
/// that is handed back takes the step from `Queued` to `Declined` or none; and
/// every job of the queue stays as it is.
pub proof fn lemma_admission_follows_stages(jobs: Seq<JobView>, job: JobView)
    ensures
        forall|k: int| 0 <= k < jobs.len() ==> queue_after_admission(jobs, job)[k] == jobs[k],
        admissible(jobs, job) ==> queue_after_admission(jobs, job).len() == jobs.len() + 1
            && same_or_stepped(job, queue_after_admission(jobs, job).last()),
        !admissible(jobs, job) ==> queue_after_admission(jobs, job) == jobs,
        same_or_stepped(job, handed_back(job)),
{
}

/// Telling the status view of a job keeps the queue in order and moves no job.
pub proof fn lemma_response_keeps_stages(jobs: Seq<JobView>, job_id: u64, response_id: u64)
    requires
        queue_in_order(jobs),
    ensures
        queue_in_order(queue_after_response(jobs, job_id, response_id)),
        queue_after_response(jobs, job_id, response_id).len() == jobs.len(),
        forall|k: int|
            0 <= k < jobs.len() ==> (#[trigger] queue_after_response(
                jobs,
                job_id,
                response_id,
            )[k]).ready == jobs[k].ready && queue_after_response(jobs, job_id, response_id)[k].job_id
                == jobs[k].job_id,
{
    lemma_position_bounds(jobs, job_id);
    let after = queue_after_response(jobs, job_id, response_id);
    assert forall|i: int| 0 <= i < after.len() implies !(#[trigger] after[i]).ready.is_terminal_spec() by {
        assert(!jobs[i].ready.is_terminal_spec());
    }
}

/// Handing a job to the next worker keeps the queue in order and moves the job
/// one step along the main chain.
pub proof fn lemma_dispatch_follows_stages(jobs: Seq<JobView>)
    requires
        queue_in_order(jobs),
    ensures
        queue_in_order(queue_after_dispatch(jobs)),
        moved_by_steps(jobs, queue_after_dispatch(jobs)),
        queue_after_dispatch(jobs).len() == jobs.len(),
{
    let after = queue_after_dispatch(jobs);
    assert forall|k: int| #![trigger after[k]] 0 <= k < after.len() implies exists|i: int|
        #![trigger jobs[i]]
        0 <= i < jobs.len() && same_or_stepped(jobs[i], after[k]) by {
        assert(same_or_stepped(jobs[k], after[k]));
    }
    assert forall|i: int| 0 <= i < after.len() implies !(#[trigger] after[i]).ready.is_terminal_spec() by {
        assert(!jobs[i].ready.is_terminal_spec());
    }
}

/// An event keeps the queue in order. Its job moves only by an allowed step;
/// a job that leaves the queue has taken an allowed step to an end; every other
/// job stays as it is.
pub proof fn lemma_event_follows_stages(jobs: Seq<JobView>, job_id: u64, stage: Option<Stage>)
    requires
        queue_in_order(jobs),
    ensures
        queue_in_order(queue_after_event(jobs, job_id, stage)),
        moved_by_steps(jobs, queue_after_event(jobs, job_id, stage)),
        queue_after_event(jobs, job_id, stage).len() <= jobs.len(),
        event_target(jobs, job_id, stage) matches Some(to) ==> jobs[position_of(
            jobs,
            job_id,
        )].ready.allows_spec(to),
{
    let after = queue_after_event(jobs, job_id, stage);
    let p = position_of(jobs, job_id);
    lemma_position_bounds(jobs, job_id);
    assert forall|k: int| #![trigger after[k]] 0 <= k < after.len() implies exists|i: int|
        #![trigger jobs[i]]
        0 <= i < jobs.len() && same_or_stepped(jobs[i], after[k]) by {
        match event_target(jobs, job_id, stage) {
            Some(to) => {
                if to.is_terminal_spec() {
                    if k < p {
                        assert(same_or_stepped(jobs[k], after[k]));
                    } else {
                        assert(same_or_stepped(jobs[k + 1], after[k]));
                    }
                } else {
                    assert(same_or_stepped(jobs[k], after[k]));
                }
            },
            None => {
                assert(same_or_stepped(jobs[k], after[k]));
            },
        }
    }
    assert forall|i: int| 0 <= i < after.len() implies !(#[trigger] after[i]).ready.is_terminal_spec() by {
        match event_target(jobs, job_id, stage) {
            Some(to) => {
                if to.is_terminal_spec() {
                    if i < p {
                        assert(after[i] == jobs[i]);
                    } else {
                        assert(after[i] == jobs[i + 1]);
                    }
                } else {
                    assert(!jobs[i].ready.is_terminal_spec());
                }
            },
            None => {},
        }
    }
}

/// A job that has been cancelled is out of the queue: no later event moves it,
/// and none makes it `Downloaded`.
pub proof fn lemma_nothing_follows_cancellation(
    jobs: Seq<JobView>,
    job_id: u64,
    later: Option<Stage>,
)
    requires
        queue_in_order(jobs),
        distinct_ids(jobs),
        position_of(jobs, job_id) < jobs.len(),
    ensures
        ({
            let cancelled = queue_after_event(jobs, job_id, Some(Stage::Cancelled));
            &&& position_of(cancelled, job_id) == cancelled.len()
            &&& cancelled == jobs.remove(position_of(jobs, job_id))
            &&& queue_after_event(cancelled, job_id, later) == cancelled
        }),
{
    let p = position_of(jobs, job_id);
    lemma_position_bounds(jobs, job_id);
    assert(!jobs[p].ready.is_terminal_spec());
    let cancelled = queue_after_event(jobs, job_id, Some(Stage::Cancelled));
    assert(cancelled == jobs.remove(p));
    assert forall|k: int| 0 <= k < cancelled.len() implies cancelled[k].job_id != job_id by {
        if k < p {
            assert(cancelled[k] == jobs[k]);
        } else {
            assert(cancelled[k] == jobs[k + 1]);
        }
    }
    crate::coordinator::lemma_position_of(cancelled, job_id, cancelled.len() as int);
}

} // verus!

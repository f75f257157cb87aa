//! What holds of the worker pool's queue and of the readiness queue,
//! whatever is done with them and in whatever order.

use crate::event_loop::queue::{
    ident_index, is_pending, lemma_ident_index, without, GeneralEvent,
};
use vstd::prelude::*;

verus! {

/// What can be done with the queue of a pool.
pub enum PoolStep<J> {
    /// A job is handed in.
    Execute(J),
    /// A worker asks for a job.
    Claim,
}

/// A queue of a pool together with its past: the jobs that wait, the jobs
/// that were handed to workers, and the jobs that were handed in, each
/// oldest first.
pub struct PoolTrace<J> {
    pub pending: Seq<J>,
    pub claimed: Seq<J>,
    pub submitted: Seq<J>,
}

/// What one step makes of a queue: a job handed in waits behind the others,
/// and a worker that asks is given the oldest waiting job, if one waits.
pub open spec fn pool_step<J>(trace: PoolTrace<J>, step: PoolStep<J>) -> PoolTrace<J> {
    match step {
        PoolStep::Execute(job) => PoolTrace {
            pending: trace.pending.push(job),
            claimed: trace.claimed,
            submitted: trace.submitted.push(job),
        },
        PoolStep::Claim => if trace.pending.len() > 0 {
            PoolTrace {
                pending: trace.pending.skip(1),
                claimed: trace.claimed.push(trace.pending[0]),
                submitted: trace.submitted,
            }
        } else {
            trace
        },
    }
}

/// What a run of steps makes of a new queue.
pub open spec fn pool_run<J>(steps: Seq<PoolStep<J>>) -> PoolTrace<J>
    decreases steps.len(),
{
    if steps.len() == 0 {
        PoolTrace { pending: Seq::empty(), claimed: Seq::empty(), submitted: Seq::empty() }
    } else {
        pool_step(pool_run(steps.drop_last()), steps.last())
    }
}

/// However handing in and asking follow on each other, the jobs that were
/// handed to workers, followed by the jobs that still wait, are exactly the
/// jobs that were handed in, in the order in which they came. So no job is
/// lost, none is handed out twice, and none is handed out before an older
/// one.
pub proof fn law_each_job_is_claimed_once<J>(steps: Seq<PoolStep<J>>)
    ensures
        pool_run(steps).claimed + pool_run(steps).pending == pool_run(steps).submitted,
    decreases steps.len(),
{
    if steps.len() == 0 {
        assert(Seq::<J>::empty() + Seq::<J>::empty() =~= Seq::<J>::empty());
    } else {
        let before = pool_run(steps.drop_last());
        law_each_job_is_claimed_once(steps.drop_last());
        let after = pool_run(steps);
        match steps.last() {
            PoolStep::Execute(job) => {
                assert(after.claimed + after.pending =~= (before.claimed + before.pending).push(
                    job,
                ));
            },
            PoolStep::Claim => {
                if before.pending.len() > 0 {
                    assert(after.claimed + after.pending =~= before.claimed + before.pending);
                }
            },
        }
    }
}

/// Once as many workers have asked as jobs were handed in, and nothing was
/// asked before a job was there, every job has been handed out and none
/// waits.
pub proof fn law_all_jobs_are_claimed<J>(steps: Seq<PoolStep<J>>)
    requires
        pool_run(steps).claimed.len() == pool_run(steps).submitted.len(),
    ensures
        pool_run(steps).claimed == pool_run(steps).submitted,
        pool_run(steps).pending.len() == 0,
{
    law_each_job_is_claimed_once(steps);
    let trace = pool_run(steps);
    assert((trace.claimed + trace.pending).len() == trace.claimed.len() + trace.pending.len());
    assert(trace.claimed + trace.pending =~= trace.claimed);
}

/// An event that was added last is found behind all that were pending
/// before it.
pub proof fn lemma_ident_index_push<T: GeneralEvent>(pending: Seq<T>, event: T, ident: u64)
    ensures
        is_pending(pending, ident) ==> ident_index(pending.push(event), ident) == ident_index(
            pending,
            ident,
        ),
        !is_pending(pending, ident) && event.kevent().ident == ident ==> ident_index(
            pending.push(event),
            ident,
        ) == pending.len(),
        !is_pending(pending, ident) && event.kevent().ident != ident ==> ident_index(
            pending.push(event),
            ident,
        ) == pending.len() + 1,
    decreases pending.len(),
{
    let pushed = pending.push(event);
    lemma_ident_index(pending, ident);
    if pending.len() == 0 {
        assert(pushed.skip(1) =~= Seq::<T>::empty());
        assert(pushed[0] == event);
        assert(ident_index(pushed.skip(1), ident) == 0);
    } else {
        assert(pushed[0] == pending[0]);
        if pending[0].kevent().ident != ident {
            let rest = pending.skip(1);
            assert(pushed.skip(1) =~= rest.push(event));
            lemma_ident_index_push(rest, event, ident);
            lemma_ident_index(rest, ident);
            assert(ident_index(pending, ident) == 1 + ident_index(rest, ident));
            assert(ident_index(pushed, ident) == 1 + ident_index(rest.push(event), ident));
        }
    }
}

/// Adding an event and taking out an event with its identifier right away
/// leaves as many events pending as before: nothing leaks. Where no event
/// with that identifier was pending before, it is the added event that
/// comes out, and the collection is as it was.
pub proof fn law_add_then_remove_leaves_no_trace<T: GeneralEvent>(pending: Seq<T>, event: T)
    ensures
        is_pending(pending.push(event), event.kevent().ident),
        without(pending.push(event), event.kevent().ident).len() == pending.len(),
        !is_pending(pending, event.kevent().ident) ==> without(
            pending.push(event),
            event.kevent().ident,
        ) == pending && pending.push(event)[ident_index(
            pending.push(event),
            event.kevent().ident,
        )] == event,
{
    let ident = event.kevent().ident;
    let pushed = pending.push(event);
    lemma_ident_index_push(pending, event, ident);
    lemma_ident_index(pending, ident);
    if !is_pending(pending, ident) {
        assert(pushed.remove(pending.len() as int) =~= pending);
    }
}

/// Asking for an identifier that no pending event has takes nothing out of
/// the collection.
pub proof fn law_unknown_identifier_changes_nothing<T: GeneralEvent>(pending: Seq<T>, ident: u64)
    requires
        forall|i: int| 0 <= i < pending.len() ==> (#[trigger] pending[i]).kevent().ident != ident,
    ensures
        !is_pending(pending, ident),
        without(pending, ident) == pending,
{
    lemma_ident_index(pending, ident);
}

} // verus!

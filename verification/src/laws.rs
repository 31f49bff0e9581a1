//! What holds of the stores and of the worker over any run: the laws that the
//! contracts of the single operations add up to.

use vstd::prelude::*;
use crate::applied::{apply_request, apply_requests, AppliedView};
use crate::checkpoint::{lemma_decode_encode, read_of, resume_after, CheckpointRead};
use crate::lock::{lease_deadline, lease_lasts};
use crate::processor::{after_pass, after_trigger, spec_plan_pass, WorkerView};
use crate::types::{Contact, EpochNumber, Flag, Identity, Moment, RequestView};

verus! {

/// Setting a flag twice for one identity leaves the table as the second
/// setting alone would: the identity has one flag, the second.
pub proof fn lemma_flag_overwrite(table: Map<Identity, Flag>, id: Identity, first: Flag, second: Flag)
    ensures
        table.insert(id, first).insert(id, second) == table.insert(id, second),
        table.insert(id, first).insert(id, second)[id] == second,
{
    assert(table.insert(id, first).insert(id, second) =~= table.insert(id, second));
}

/// Recording the contact of `a` with `b` records nothing for the pair
/// `(b, a)`: where that pair was absent and `a` is not `b`, it stays absent.
pub proof fn lemma_contact_directional(
    relation: Map<(Identity, Identity), Contact>,
    a: Identity,
    b: Identity,
    contact: Contact,
)
    requires
        a != b,
        !relation.contains_key((b, a)),
    ensures
        !relation.insert((a, b), contact).contains_key((b, a)),
        relation.insert((a, b), contact).contains_key((a, b)),
{
}

/// Recording a contact leaves every other pair as it was.
pub proof fn lemma_contact_independent(
    relation: Map<(Identity, Identity), Contact>,
    a: Identity,
    b: Identity,
    contact: Contact,
    other: (Identity, Identity),
)
    requires
        other != (a, b),
    ensures
        relation.insert((a, b), contact).contains_key(other) == relation.contains_key(other),
        relation.contains_key(other) ==> relation.insert((a, b), contact)[other]
            == relation[other],
{
}

/// Applying a request a second time changes nothing.
pub proof fn lemma_apply_idempotent(state: AppliedView, req: RequestView)
    ensures
        apply_request(apply_request(state, req), req) == apply_request(state, req),
{
    let once = apply_request(state, req);
    let twice = apply_request(once, req);
    assert(twice.flagged =~= once.flagged);
    assert(twice.pool =~= once.pool);
}

/// Whether the effect of `req` is part of `state`.
pub open spec fn carried_out(state: AppliedView, req: RequestView) -> bool {
    match req {
        RequestView::FlagID(id) => state.flagged.contains(id),
        RequestView::AddToUUIDPool(uuid) => state.pool.contains(uuid),
    }
}

/// Applying requests takes no effect back, and carries out each of them.
pub proof fn lemma_apply_requests_carries_out(state: AppliedView, reqs: Seq<RequestView>)
    ensures
        forall|r: RequestView| carried_out(state, r) ==> carried_out(apply_requests(state, reqs), r),
        forall|i: int|
            0 <= i < reqs.len() ==> carried_out(apply_requests(state, reqs), #[trigger] reqs[i]),
    decreases reqs.len(),
{
    if reqs.len() > 0 {
        let front = reqs.drop_last();
        lemma_apply_requests_carries_out(state, front);
        let mid = apply_requests(state, front);
        assert forall|i: int| 0 <= i < reqs.len() implies carried_out(
            apply_requests(state, reqs),
            #[trigger] reqs[i],
        ) by {
            if i < front.len() {
                assert(front[i] == reqs[i]);
                assert(carried_out(mid, reqs[i]));
            }
        }
    }
}

/// One thing that can happen to the worker's side of the state.
pub enum Step {
    /// The trigger of an epoch at a time.
    Epoch { block: EpochNumber, now: Moment },
    /// Another worker tries to take the lease at a time.
    ForeignLease { now: Moment },
    /// The process stops and starts again: what is persisted stays.
    Restart,
    /// A command appends a request to the queue.
    Enqueue { req: RequestView },
}

/// The state after one step.
pub open spec fn after_step(w: WorkerView, step: Step) -> WorkerView {
    match step {
        Step::Epoch { block, now } => after_trigger(w, block, now),
        Step::ForeignLease { now } => if lease_lasts(w.lock, now) {
            w
        } else {
            WorkerView { lock: Some(lease_deadline(now)), ..w }
        },
        Step::Restart => w,
        Step::Enqueue { req } => WorkerView { queue: w.queue.push(req), ..w },
    }
}

/// The state after a sequence of steps, first to last.
pub open spec fn after_steps(w: WorkerView, steps: Seq<Step>) -> WorkerView
    decreases steps.len(),
{
    if steps.len() == 0 {
        w
    } else {
        after_step(after_steps(w, steps.drop_last()), steps.last())
    }
}

/// A pass never moves the checkpoint back: the epoch after which replay
/// resumes does not decrease, a readable checkpoint stays readable, and an
/// unreadable one is left as it is.
pub proof fn lemma_pass_checkpoint_monotone(w: WorkerView, current: EpochNumber)
    ensures
        resume_after(read_of(after_pass(w, current).checkpoint)) >= resume_after(
            read_of(w.checkpoint),
        ),
        read_of(w.checkpoint) is Stored ==> read_of(after_pass(w, current).checkpoint) is Stored,
        read_of(w.checkpoint) is Corrupt ==> after_pass(w, current) == w,
{
    if spec_plan_pass(read_of(w.checkpoint), current).replays() {
        lemma_decode_encode((current - 1) as u32);
    }
}

/// Over any sequence of triggers, lease attempts of other workers, restarts
/// and commands, the checkpoint never moves back.
pub proof fn lemma_checkpoint_monotone(w: WorkerView, steps: Seq<Step>)
    ensures
        resume_after(read_of(after_steps(w, steps).checkpoint)) >= resume_after(
            read_of(w.checkpoint),
        ),
        read_of(w.checkpoint) is Stored ==> read_of(after_steps(w, steps).checkpoint) is Stored,
    decreases steps.len(),
{
    if steps.len() > 0 {
        lemma_checkpoint_monotone(w, steps.drop_last());
        let mid = after_steps(w, steps.drop_last());
        match steps.last() {
            Step::Epoch { block, now } => {
                lemma_pass_checkpoint_monotone(mid, block);
            },
            _ => {},
        }
    }
}

/// A pass for an epoch that is not past the checkpoint changes nothing, and
/// the trigger of such an epoch changes at most the lease, which it takes and
/// gives back.
pub proof fn lemma_noop_when_processed(w: WorkerView, current: EpochNumber, now: Moment)
    requires
        read_of(w.checkpoint) is Stored,
        current <= read_of(w.checkpoint)->Stored_0,
    ensures
        after_pass(w, current) == w,
        after_trigger(w, current, now).checkpoint == w.checkpoint,
        after_trigger(w, current, now).queue == w.queue,
        after_trigger(w, current, now).applied == w.applied,
{
}

/// Whether `req` is accounted for: it waits in the queue or its effect has been
/// applied.
pub open spec fn accounted_for(w: WorkerView, req: RequestView) -> bool {
    w.queue.contains(req) || carried_out(w.applied, req)
}

/// A pass drops nothing: every request that waited when it began has been
/// applied by it or still waits.
pub proof fn lemma_pass_drops_nothing(w: WorkerView, current: EpochNumber, req: RequestView)
    requires
        accounted_for(w, req),
    ensures
        accounted_for(after_pass(w, current), req),
{
    if spec_plan_pass(read_of(w.checkpoint), current).replays() {
        lemma_apply_requests_carries_out(w.applied, w.queue);
        if w.queue.contains(req) {
            let i = choose|i: int| 0 <= i < w.queue.len() && w.queue[i] == req;
            assert(carried_out(apply_requests(w.applied, w.queue), w.queue[i]));
        }
    }
}

/// Over any sequence of steps, a request that is accounted for stays so: it
/// is applied in some pass or still waits, and is never dropped.
pub proof fn lemma_requests_never_dropped(w: WorkerView, steps: Seq<Step>, req: RequestView)
    requires
        accounted_for(w, req),
    ensures
        accounted_for(after_steps(w, steps), req),
    decreases steps.len(),
{
    if steps.len() > 0 {
        lemma_requests_never_dropped(w, steps.drop_last(), req);
        let mid = after_steps(w, steps.drop_last());
        match steps.last() {
            Step::Epoch { block, now } => {
                lemma_pass_drops_nothing(mid, block, req);
            },
            Step::Enqueue { req: added } => {
                if mid.queue.contains(req) {
                    let i = choose|i: int| 0 <= i < mid.queue.len() && mid.queue[i] == req;
                    assert(mid.queue.push(added)[i] == req);
                }
            },
            _ => {},
        }
    }
}

/// A request is accounted for from the moment it is appended.
pub proof fn lemma_enqueued_is_accounted_for(w: WorkerView, req: RequestView)
    ensures
        accounted_for(after_step(w, Step::Enqueue { req }), req),
{
    assert(w.queue.push(req)[w.queue.len() as int] == req);
}

} // verus!

//! The worker that runs once per epoch: it takes the lease, replays the queue
//! for every epoch since the checkpoint, and commits the new checkpoint.

use vstd::prelude::*;
use crate::applied::{apply_requests, AppliedView};
use crate::checkpoint::{encode_epoch, read_of, CheckpointRead};
use crate::exchange::Trait;
use crate::lock::lease_lasts;
use crate::module::Module;
use crate::types::{
    event_views, request_views, EpochNumber, Moment, OffchainRequest, RequestView, TracingError,
};

verus! {

/// What a pass is to do, given the checkpoint it read and the current epoch.
#[derive(Clone, Copy, Debug, PartialEq, Eq, Structural)]
pub enum PassPlan {
    /// The checkpoint cannot be read: give up for this epoch.
    Abort,
    /// The current epoch is not past the checkpoint: nothing to do.
    Skip,
    /// Replay the epochs from `start` up to, but without, `end`.
    Replay { start: EpochNumber, end: EpochNumber },
}

impl PassPlan {
    /// Whether the plan replays at least one epoch.
    pub open spec fn replays(self) -> bool {
        match self {
            PassPlan::Replay { start, end } => start < end,
            _ => false,
        }
    }
}

/// Whether `r` is the outcome of a pass that followed `plan` with the requests
/// `queue` waiting: the error of an unreadable checkpoint, or a report of the
/// requests applied (all that waited, in order, where an epoch was replayed)
/// and of the checkpoint committed (the last epoch replayed).
pub open spec fn is_outcome_of(
    plan: PassPlan,
    queue: Seq<RequestView>,
    r: Result<PassReport, TracingError>,
) -> bool {
    match plan {
        PassPlan::Abort => r == Err::<PassReport, TracingError>(TracingError::CheckpointReadError),
        PassPlan::Skip => r is Ok && r->Ok_0.applied@.len() == 0 && r->Ok_0.committed == None::<
            EpochNumber,
        >,
        PassPlan::Replay { start, end } => if start < end {
            &&& r is Ok
            &&& request_views(r->Ok_0.applied@) == queue
            &&& r->Ok_0.committed == Some((end - 1) as u32)
        } else {
            r is Ok && r->Ok_0.applied@.len() == 0 && r->Ok_0.committed == None::<EpochNumber>
        },
    }
}

/// The plan for the current epoch `current`. Replay starts after the
/// checkpoint, or after epoch 0 where no checkpoint was persisted, and stops
/// before the current epoch: the half-open range `[start, current)`.
pub open spec fn spec_plan_pass(read: CheckpointRead, current: EpochNumber) -> PassPlan {
    match read {
        CheckpointRead::Corrupt => PassPlan::Abort,
        CheckpointRead::Absent => PassPlan::Replay { start: 1, end: current },
        CheckpointRead::Stored(last) => if last >= current {
            PassPlan::Skip
        } else {
            PassPlan::Replay { start: (last + 1) as u32, end: current }
        },
    }
}

/// Decides what a pass is to do.
pub fn plan_pass(read: CheckpointRead, current: EpochNumber) -> (plan: PassPlan)
    ensures
        plan == spec_plan_pass(read, current),
{
    match read {
        CheckpointRead::Corrupt => PassPlan::Abort,
        CheckpointRead::Absent => PassPlan::Replay { start: 1, end: current },
        CheckpointRead::Stored(last) => if last >= current {
            PassPlan::Skip
        } else {
            PassPlan::Replay { start: last + 1, end: current }
        },
    }
}

/// The part of the state that a pass reads and changes.
pub struct WorkerView {
    /// The persisted bytes of the checkpoint.
    pub checkpoint: Option<Seq<u8>>,
    /// The deadline of the current lease.
    pub lock: Option<Moment>,
    /// The pending requests, oldest first.
    pub queue: Seq<RequestView>,
    /// The effects applied so far.
    pub applied: AppliedView,
}

/// The state after a pass for the epoch `current`. Where the plan replays an
/// epoch, the whole queue is applied, in order, and the checkpoint becomes
/// `current - 1`; otherwise nothing changes.
pub open spec fn after_pass(w: WorkerView, current: EpochNumber) -> WorkerView {
    if spec_plan_pass(read_of(w.checkpoint), current).replays() {
        WorkerView {
            checkpoint: Some(encode_epoch((current - 1) as u32)),
            lock: w.lock,
            queue: Seq::empty(),
            applied: apply_requests(w.applied, w.queue),
        }
    } else {
        w
    }
}

/// The state after the trigger of epoch `current` at time `now`. Where a lease
/// lasts, the trigger does nothing; otherwise the pass runs under a lease of
/// its own, which it gives back at the end.
pub open spec fn after_trigger(w: WorkerView, current: EpochNumber, now: Moment) -> WorkerView {
    if lease_lasts(w.lock, now) {
        w
    } else {
        WorkerView { lock: None, ..after_pass(w, current) }
    }
}

/// What a pass did.
#[derive(Debug, PartialEq, Eq)]
pub struct PassReport {
    /// The requests that the pass applied, in the order of their application.
    pub applied: Vec<OffchainRequest>,
    /// The checkpoint that the pass committed, if it committed one.
    pub committed: Option<EpochNumber>,
}

impl<T: Trait> Module<T> {
    /// The part of the state that a pass reads and changes.
    pub open spec fn worker_view(&self) -> WorkerView {
        WorkerView {
            checkpoint: self.checkpoint@,
            lock: self.lock@,
            queue: self.offchain_requests@,
            applied: self.applied@,
        }
    }

    /// The parts of the state that no pass touches are the same in `self` and
    /// `other`.
    pub open spec fn same_but_worker(&self, other: &Self) -> bool {
        &&& self.exchange == other.exchange
        &&& self.contacts@ == other.contacts@
        &&& self.flags@ == other.flags@
        &&& event_views(self.events@) == event_views(other.events@)
        &&& self.wf() == other.wf()
    }

    /// One processing pass for the epoch `block_number`, to be run under the
    /// lease. Fails with `CheckpointReadError`, and changes nothing, exactly
    /// when the persisted checkpoint cannot be decoded. Otherwise the state
    /// becomes what `after_pass` says; the report lists the applied requests
    /// (the whole queue, once, or nothing) and the committed checkpoint.
    pub fn process_ocw_notifications(&mut self, block_number: EpochNumber) -> (r: Result<
        PassReport,
        TracingError,
    >)
        ensures
            final(self).same_but_worker(old(self)),
            final(self).worker_view() == after_pass(old(self).worker_view(), block_number),
            is_outcome_of(
                spec_plan_pass(old(self).checkpoint.spec_read(), block_number),
                old(self).offchain_requests@,
                r,
            ),
            final(self).checkpoint.spec_read() == (match r {
                Ok(PassReport { committed: Some(epoch), .. }) => CheckpointRead::Stored(epoch),
                _ => old(self).checkpoint.spec_read(),
            }),
    {
        let read = self.checkpoint.read();
        match plan_pass(read, block_number) {
            PassPlan::Abort => Err(TracingError::CheckpointReadError),
            PassPlan::Skip => Ok(PassReport { applied: Vec::new(), committed: None }),
            PassPlan::Replay { start, end } => {
                let mut applied: Vec<OffchainRequest> = Vec::new();
                let mut last_processed: EpochNumber = start - 1;
                let mut current: EpochNumber = start;
                assert(request_views(applied@) =~= Seq::<RequestView>::empty());
                while current < end
                    invariant
                        spec_plan_pass(old(self).checkpoint.spec_read(), block_number) == (
                            PassPlan::Replay { start, end }),
                        1 <= start <= current,
                        start < end ==> current <= end,
                        start >= end ==> current == start,
                        last_processed == current - 1,
                        self.same_but_worker(old(self)),
                        self.checkpoint@ == old(self).checkpoint@,
                        self.lock@ == old(self).lock@,
                        current == start ==> {
                            &&& self.offchain_requests@ == old(self).offchain_requests@
                            &&& self.applied@ == old(self).applied@
                            &&& request_views(applied@) == Seq::<RequestView>::empty()
                        },
                        current > start ==> {
                            &&& self.offchain_requests@ == Seq::<RequestView>::empty()
                            &&& self.applied@ == apply_requests(
                                old(self).applied@,
                                old(self).offchain_requests@,
                            )
                            &&& request_views(applied@) == old(self).offchain_requests@
                        },
                    decreases end - current,
                {
                    let ghost waiting = self.offchain_requests@;
                    let ghost effects = self.applied@;
                    let ghost before = applied@;
                    let mut drained = self.offchain_requests.drain_all();
                    let ghost taken = drained@;
                    self.applied.apply_all(&drained);
                    applied.append(&mut drained);
                    proof {
                        assert(request_views(before + taken) =~= request_views(before)
                            + request_views(taken));
                        if current > start {
                            assert(apply_requests(effects, waiting) == effects);
                            assert(request_views(before) + waiting =~= request_views(before));
                        } else {
                            assert(request_views(before) + waiting =~= waiting);
                        }
                    }
                    last_processed = current;
                    current = current + 1;
                }
                if last_processed >= start {
                    self.checkpoint.commit(last_processed);
                    Ok(PassReport { applied, committed: Some(last_processed) })
                } else {
                    Ok(PassReport { applied, committed: None })
                }
            },
        }
    }

    /// The trigger of the epoch `block_number` at time `now`: one attempt, no
    /// retry. Fails with `LockUnavailable`, and changes nothing, exactly when a
    /// lease lasts at `now`. Otherwise the pass runs under a lease of its own,
    /// which is given back when the pass ends, however it ends.
    pub fn offchain_worker(&mut self, block_number: EpochNumber, now: Moment) -> (r: Result<
        PassReport,
        TracingError,
    >)
        ensures
            final(self).same_but_worker(old(self)),
            final(self).worker_view() == after_trigger(old(self).worker_view(), block_number, now),
            lease_lasts(old(self).lock@, now) ==> r == Err::<PassReport, TracingError>(
                TracingError::LockUnavailable,
            ),
            !lease_lasts(old(self).lock@, now) ==> is_outcome_of(
                spec_plan_pass(old(self).checkpoint.spec_read(), block_number),
                old(self).offchain_requests@,
                r,
            ),
            final(self).checkpoint.spec_read() == (match r {
                Ok(PassReport { committed: Some(epoch), .. }) => CheckpointRead::Stored(epoch),
                _ => old(self).checkpoint.spec_read(),
            }),
    {
        match self.lock.try_lock(now) {
            Err(_) => Err(TracingError::LockUnavailable),
            Ok(_) => {
                let r = self.process_ocw_notifications(block_number);
                self.lock.unlock();
                r
            },
        }
    }
}

} // verus!

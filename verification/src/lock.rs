//! The lease: a timed, advisory token that keeps two processing passes from
//! running at once while it lasts.

use vstd::prelude::*;
use crate::types::{Moment, TracingError};

verus! {

/// How long a lease lasts, in milliseconds.
pub const LOCK_TIMEOUT_EXPIRATION: u64 = 3000;

/// The deadline of a lease taken at time `now`.
pub open spec fn lease_deadline(now: Moment) -> Moment {
    if now + LOCK_TIMEOUT_EXPIRATION > u64::MAX {
        u64::MAX
    } else {
        (now + LOCK_TIMEOUT_EXPIRATION) as u64
    }
}

/// Whether a lease with this deadline still lasts at time `now`: it expires
/// once the time has passed the deadline.
pub open spec fn lease_lasts(deadline: Option<Moment>, now: Moment) -> bool {
    match deadline {
        Some(until) => now <= until,
        None => false,
    }
}

/// The lease entry: the deadline of the current lease, if one was taken and
/// not given back.
#[derive(Clone, Copy, Debug, PartialEq, Eq)]
pub struct LeaseLock {
    deadline: Option<Moment>,
}

impl View for LeaseLock {
    type V = Option<Moment>;

    closed spec fn view(&self) -> Option<Moment> {
        self.deadline
    }
}

impl LeaseLock {
    /// A lease entry that nobody holds.
    pub fn new() -> (lock: LeaseLock)
        ensures
            lock@ == None::<Moment>,
    {
        LeaseLock { deadline: None }
    }

    /// The deadline of the current lease.
    pub fn deadline(&self) -> (r: Option<Moment>)
        ensures
            r == self@,
    {
        self.deadline
    }

    /// Takes the lease at time `now` if no lease lasts, and fails at once with
    /// `LockUnavailable` if one does: there is no waiting.
    pub fn try_lock(&mut self, now: Moment) -> (r: Result<(), TracingError>)
        ensures
            lease_lasts(old(self)@, now) ==> r == Err::<(), TracingError>(
                TracingError::LockUnavailable,
            ) && final(self)@ == old(self)@,
            !lease_lasts(old(self)@, now) ==> r is Ok && final(self)@ == Some(lease_deadline(now)),
    {
        let free: bool = match self.deadline {
            Some(until) => now > until,
            None => true,
        };
        if free {
            let until: u64 = if now > u64::MAX - LOCK_TIMEOUT_EXPIRATION {
                u64::MAX
            } else {
                now + LOCK_TIMEOUT_EXPIRATION
            };
            self.deadline = Some(until);
            Ok(())
        } else {
            Err(TracingError::LockUnavailable)
        }
    }

    /// Gives the lease back.
    pub fn unlock(&mut self)
        ensures
            final(self)@ == None::<Moment>,
    {
        self.deadline = None;
    }
}

} // verus!

//! The queue of pending requests: appended at the tail, drained in full.

use vstd::prelude::*;
use crate::types::{request_views, OffchainRequest, RequestView};

verus! {

/// The requests that wait for the next processing pass, oldest first.
pub struct RequestQueue {
    items: Vec<OffchainRequest>,
}

impl View for RequestQueue {
    type V = Seq<RequestView>;

    closed spec fn view(&self) -> Seq<RequestView> {
        request_views(self.items@)
    }
}

impl RequestQueue {
    /// The empty queue.
    pub fn new() -> (queue: RequestQueue)
        ensures
            queue@ == Seq::<RequestView>::empty(),
    {
        let queue = RequestQueue { items: Vec::new() };
        assert(queue@ =~= Seq::<RequestView>::empty());
        queue
    }

    /// Appends `req` at the tail. Nothing is merged or dropped: a request that
    /// is already waiting waits twice.
    pub fn enqueue(&mut self, req: OffchainRequest)
        ensures
            final(self)@ == old(self)@.push(req@),
    {
        self.items.push(req);
        assert(request_views(self.items@) =~= request_views(old(self).items@).push(req@));
    }

    /// Hands out everything that waits, oldest first, and leaves the queue
    /// empty.
    pub fn drain_all(&mut self) -> (drained: Vec<OffchainRequest>)
        ensures
            request_views(drained@) == old(self)@,
            final(self)@ == Seq::<RequestView>::empty(),
    {
        let mut drained: Vec<OffchainRequest> = Vec::new();
        std::mem::swap(&mut drained, &mut self.items);
        assert(request_views(self.items@) =~= Seq::<RequestView>::empty());
        drained
    }

    /// How many requests wait.
    pub fn len(&self) -> (n: usize)
        ensures
            n == self@.len(),
    {
        self.items.len()
    }

    /// Whether nothing waits.
    pub fn is_empty(&self) -> (r: bool)
        ensures
            r == (self@.len() == 0),
    {
        self.items.len() == 0
    }
}

} // verus!

//! What the worker has carried out: every action is the insertion of an item
//! into a set, so that carrying one out again changes nothing.

use vstd::prelude::*;
use crate::types::{
    bytes_copy, bytes_equal, request_views, ExternalId, Identity, OffchainRequest, RequestView,
};

verus! {

/// The effects of the requests applied so far, as mathematical sets.
pub struct AppliedView {
    /// The identities whose exposure has been propagated.
    pub flagged: Set<Identity>,
    /// The external identifiers registered in the pool.
    pub pool: Set<Seq<u8>>,
}

/// The effect of one request.
pub open spec fn apply_request(state: AppliedView, req: RequestView) -> AppliedView {
    match req {
        RequestView::FlagID(id) => AppliedView { flagged: state.flagged.insert(id), ..state },
        RequestView::AddToUUIDPool(uuid) => AppliedView { pool: state.pool.insert(uuid), ..state },
    }
}

/// The effect of a sequence of requests, applied first to last.
pub open spec fn apply_requests(state: AppliedView, reqs: Seq<RequestView>) -> AppliedView
    decreases reqs.len(),
{
    if reqs.len() == 0 {
        state
    } else {
        apply_request(apply_requests(state, reqs.drop_last()), reqs.last())
    }
}

/// The byte strings of a list of external identifiers.
pub open spec fn external_views(s: Seq<ExternalId>) -> Seq<Seq<u8>> {
    s.map_values(|u: ExternalId| u@)
}

/// The identities flagged and the identifiers pooled so far.
pub struct Applied {
    flagged: Vec<Identity>,
    uuid_pool: Vec<ExternalId>,
}

impl View for Applied {
    type V = AppliedView;

    closed spec fn view(&self) -> AppliedView {
        AppliedView {
            flagged: self.flagged@.to_set(),
            pool: external_views(self.uuid_pool@).to_set(),
        }
    }
}

impl Applied {
    /// Nothing applied yet.
    pub fn new() -> (applied: Applied)
        ensures
            applied@.flagged == Set::<Identity>::empty(),
            applied@.pool == Set::<Seq<u8>>::empty(),
    {
        let applied = Applied { flagged: Vec::new(), uuid_pool: Vec::new() };
        assert(applied@.flagged =~= Set::<Identity>::empty());
        assert(applied@.pool =~= Set::<Seq<u8>>::empty());
        applied
    }

    /// Whether the exposure of `id` has been propagated.
    pub fn is_flagged(&self, id: &Identity) -> (r: bool)
        ensures
            r == self@.flagged.contains(*id),
    {
        let mut i: usize = 0;
        while i < self.flagged.len()
            invariant
                0 <= i <= self.flagged@.len(),
                forall|j: int| 0 <= j < i ==> self.flagged@[j] != *id,
            decreases self.flagged@.len() - i,
        {
            if self.flagged[i].same(id) {
                assert(self.flagged@[i as int] == *id);
                return true;
            }
            i += 1;
        }
        false
    }

    /// Whether `uuid` is registered in the pool.
    pub fn in_pool(&self, uuid: &ExternalId) -> (r: bool)
        ensures
            r == self@.pool.contains(uuid@),
    {
        let mut i: usize = 0;
        while i < self.uuid_pool.len()
            invariant
                0 <= i <= self.uuid_pool@.len(),
                forall|j: int| 0 <= j < i ==> external_views(self.uuid_pool@)[j] != uuid@,
            decreases self.uuid_pool@.len() - i,
        {
            if bytes_equal(&self.uuid_pool[i], uuid) {
                assert(external_views(self.uuid_pool@)[i as int] == uuid@);
                return true;
            }
            i += 1;
        }
        false
    }

    /// Propagates the exposure of `id`. A second call for the same identity
    /// changes nothing.
    pub fn flag_id(&mut self, id: Identity)
        ensures
            final(self)@ == apply_request(old(self)@, RequestView::FlagID(id)),
    {
        if !self.is_flagged(&id) {
            self.flagged.push(id);
            assert(self.flagged@.to_set() =~= old(self).flagged@.to_set().insert(id)) by {
                let s = old(self).flagged@;
                let t = self.flagged@;
                assert forall|x: Identity| t.contains(x) <==> (s.contains(x) || x == id) by {
                    if t.contains(x) {
                        let i = choose|i: int| 0 <= i < t.len() && t[i] == x;
                        if i < s.len() {
                            assert(s[i] == x);
                        }
                    }
                    if s.contains(x) {
                        let i = choose|i: int| 0 <= i < s.len() && s[i] == x;
                        assert(t[i] == x);
                    }
                    if x == id {
                        assert(t[s.len() as int] == x);
                    }
                }
            }
        } else {
            assert(self@.flagged =~= self@.flagged.insert(id));
        }
    }

    /// Registers `uuid` in the pool. A second call for the same identifier
    /// changes nothing.
    pub fn add_uuid_pool(&mut self, uuid: &ExternalId)
        ensures
            final(self)@ == apply_request(old(self)@, RequestView::AddToUUIDPool(uuid@)),
    {
        if !self.in_pool(uuid) {
            let copy = bytes_copy(uuid);
            self.uuid_pool.push(copy);
            assert(external_views(self.uuid_pool@).to_set() =~= external_views(
                old(self).uuid_pool@,
            ).to_set().insert(uuid@)) by {
                let s = external_views(old(self).uuid_pool@);
                let t = external_views(self.uuid_pool@);
                assert(t =~= s.push(uuid@));
                assert forall|x: Seq<u8>| t.contains(x) <==> (s.contains(x) || x == uuid@) by {
                    if t.contains(x) {
                        let i = choose|i: int| 0 <= i < t.len() && t[i] == x;
                        if i < s.len() {
                            assert(s[i] == x);
                        }
                    }
                    if s.contains(x) {
                        let i = choose|i: int| 0 <= i < s.len() && s[i] == x;
                        assert(t[i] == x);
                    }
                    if x == uuid@ {
                        assert(t[s.len() as int] == x);
                    }
                }
            }
        } else {
            assert(self@.pool =~= self@.pool.insert(uuid@));
        }
    }

    /// Carries out one request.
    pub fn apply(&mut self, req: &OffchainRequest)
        ensures
            final(self)@ == apply_request(old(self)@, req@),
    {
        match req {
            OffchainRequest::FlagID(id) => self.flag_id(*id),
            OffchainRequest::AddToUUIDPool(uuid) => self.add_uuid_pool(uuid),
        }
    }

    /// Carries out the requests of `reqs`, first to last.
    pub fn apply_all(&mut self, reqs: &Vec<OffchainRequest>)
        ensures
            final(self)@ == apply_requests(old(self)@, request_views(reqs@)),
    {
        let ghost views = request_views(reqs@);
        let mut i: usize = 0;
        while i < reqs.len()
            invariant
                0 <= i <= reqs@.len(),
                views == request_views(reqs@),
                self@ == apply_requests(old(self)@, views.subrange(0, i as int)),
            decreases reqs@.len() - i,
        {
            self.apply(&reqs[i]);
            proof {
                let next = views.subrange(0, i + 1);
                assert(next.drop_last() =~= views.subrange(0, i as int));
                assert(next.last() == reqs@[i as int]@);
            }
            i += 1;
        }
        assert(views.subrange(0, reqs@.len() as int) =~= views);
    }
}

} // verus!

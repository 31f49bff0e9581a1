//! The identity exchange: the capability that tells which external
//! identifiers are known and which one stands behind an identity. The module
//! only reads it.

use vstd::prelude::*;
use crate::types::{bytes_copy, bytes_equal, ExternalId, Identity};

verus! {

/// What the module needs from the runtime around it: a read-only identity
/// exchange. Both answers depend on the exchange and the argument alone.
pub trait Trait {
    /// Whether the exchange knows the external identifier `uuid`.
    spec fn uuid_exists(&self, uuid: Seq<u8>) -> bool;

    /// The external identifier that the exchange holds for `id`.
    spec fn uuid_of(&self, id: Identity) -> Option<Seq<u8>>;

    /// Tells whether the exchange knows `uuid`.
    fn check_uuid_exists(&self, uuid: &ExternalId) -> (r: bool)
        ensures
            r == self.uuid_exists(uuid@),
    ;

    /// Resolves `id` to its external identifier.
    fn get_uuid(&self, id: &Identity) -> (r: Option<ExternalId>)
        ensures
            r is Some <==> self.uuid_of(*id) is Some,
            r is Some ==> self.uuid_of(*id) == Some(r->Some_0@),
    ;
}

/// One pairing of an identity with its external identifier.
pub struct Pairing {
    pub id: Identity,
    pub uuid: ExternalId,
}

/// Whether some pairing of `s` holds the external identifier `uuid`.
pub open spec fn pairs_know(s: Seq<Pairing>, uuid: Seq<u8>) -> bool {
    exists|i: int| 0 <= i < s.len() && (#[trigger] s[i]).uuid@ == uuid
}

/// The external identifier of the first pairing of `s`, from place `from` on,
/// that holds `id`.
pub open spec fn pairs_resolve(s: Seq<Pairing>, id: Identity, from: int) -> Option<Seq<u8>>
    decreases s.len() - from,
{
    if from < 0 || from >= s.len() {
        None
    } else if s[from].id == id {
        Some(s[from].uuid@)
    } else {
        pairs_resolve(s, id, from + 1)
    }
}

/// An identity exchange kept in memory as a list of pairings; the earliest
/// pairing of an identity is the one that resolves it.
pub struct UuidRegistry {
    pub pairs: Vec<Pairing>,
}

impl UuidRegistry {
    /// An exchange that knows nothing.
    pub fn new() -> (registry: UuidRegistry)
        ensures
            registry.pairs@.len() == 0,
    {
        UuidRegistry { pairs: Vec::new() }
    }

    /// Adds the pairing of `id` with `uuid` behind those that are there.
    pub fn register(&mut self, id: Identity, uuid: ExternalId)
        ensures
            final(self).pairs@ == old(self).pairs@.push(Pairing { id, uuid }),
    {
        self.pairs.push(Pairing { id, uuid });
    }
}

impl Trait for UuidRegistry {
    open spec fn uuid_exists(&self, uuid: Seq<u8>) -> bool {
        pairs_know(self.pairs@, uuid)
    }

    open spec fn uuid_of(&self, id: Identity) -> Option<Seq<u8>> {
        pairs_resolve(self.pairs@, id, 0)
    }

    fn check_uuid_exists(&self, uuid: &ExternalId) -> (r: bool) {
        let mut i: usize = 0;
        while i < self.pairs.len()
            invariant
                0 <= i <= self.pairs@.len(),
                forall|j: int| 0 <= j < i ==> (#[trigger] self.pairs@[j]).uuid@ != uuid@,
            decreases self.pairs@.len() - i,
        {
            if bytes_equal(&self.pairs[i].uuid, uuid) {
                return true;
            }
            i += 1;
        }
        false
    }

    fn get_uuid(&self, id: &Identity) -> (r: Option<ExternalId>) {
        let mut i: usize = 0;
        while i < self.pairs.len()
            invariant
                0 <= i <= self.pairs@.len(),
                pairs_resolve(self.pairs@, *id, 0) == pairs_resolve(self.pairs@, *id, i as int),
            decreases self.pairs@.len() - i,
        {
            if self.pairs[i].id.same(id) {
                return Some(bytes_copy(&self.pairs[i].uuid));
            }
            i += 1;
        }
        None
    }
}

} // verus!

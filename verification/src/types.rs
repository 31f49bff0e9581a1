//! The records that the stores hold and the requests that the worker replays.

use vstd::prelude::*;

verus! {

/// A point in time, in milliseconds.
pub type Moment = u64;

/// The number of an epoch (one per produced block).
pub type EpochNumber = u32;

/// The account of an authenticated caller.
pub type AccountId = u64;

/// An external identifier: the text of a UUID, as bytes.
pub type ExternalId = Vec<u8>;

/// An internal identifier: the 256-bit digest of an external identifier's bytes.
#[derive(Clone, Copy, Debug, PartialEq, Eq, Hash)]
pub struct Identity {
    pub bytes: [u8; 32],
}

impl View for Identity {
    type V = Seq<u8>;

    open spec fn view(&self) -> Seq<u8> {
        self.bytes@
    }
}

impl Identity {
    /// Two identities with the same bytes are the same identity.
    pub proof fn lemma_view_injective(a: Identity, b: Identity)
        requires
            a@ == b@,
        ensures
            a == b,
    {
        assert(a.bytes@ =~= b.bytes@);
        assert(a.bytes == b.bytes);
    }

    /// Byte-wise comparison.
    pub fn same(&self, other: &Identity) -> (r: bool)
        ensures
            r == (*self == *other),
    {
        let mut i: usize = 0;
        while i < 32
            invariant
                0 <= i <= 32,
                forall|j: int| 0 <= j < i ==> self.bytes@[j] == other.bytes@[j],
            decreases 32 - i,
        {
            if self.bytes[i] != other.bytes[i] {
                return false;
            }
            i += 1;
        }
        proof {
            assert(self.bytes@ =~= other.bytes@);
            Identity::lemma_view_injective(*self, *other);
        }
        true
    }
}

/// The exposure classification of an identity.
#[derive(Clone, Copy, Debug, PartialEq, Eq, Structural)]
pub enum FlagType {
    Positive,
    Negative,
    Suspicious,
}

/// The record that identity `id` observed identity `contact_id` at `timestamp`.
#[derive(Clone, Copy, Debug, PartialEq, Eq)]
pub struct Contact {
    pub id: Identity,
    pub contact_id: Identity,
    pub timestamp: Moment,
}

/// The current classification of identity `id`, set at `timestamp`.
#[derive(Clone, Copy, Debug, PartialEq, Eq)]
pub struct Flag {
    pub id: Identity,
    pub flag_type: Option<FlagType>,
    pub timestamp: Moment,
}

impl Flag {
    /// A flag exposes its identity when it is positive or suspicious.
    pub open spec fn exposes(self) -> bool {
        self.flag_type == Some(FlagType::Positive) || self.flag_type == Some(
            FlagType::Suspicious,
        )
    }
}

/// A side effect that a state transition asks the worker to carry out later.
#[derive(Debug, PartialEq, Eq)]
pub enum OffchainRequest {
    /// Propagate the exposure of this identity.
    FlagID(Identity),
    /// Register this external identifier in the pool.
    AddToUUIDPool(ExternalId),
}

/// What a request is, as a mathematical value.
pub enum RequestView {
    FlagID(Identity),
    AddToUUIDPool(Seq<u8>),
}

impl View for OffchainRequest {
    type V = RequestView;

    open spec fn view(&self) -> RequestView {
        match self {
            OffchainRequest::FlagID(id) => RequestView::FlagID(*id),
            OffchainRequest::AddToUUIDPool(uuid) => RequestView::AddToUUIDPool(uuid@),
        }
    }
}

/// The views of a sequence of requests, in order.
pub open spec fn request_views(s: Seq<OffchainRequest>) -> Seq<RequestView> {
    s.map_values(|r: OffchainRequest| r@)
}

/// A notification for listeners outside the ledger.
#[derive(Debug, PartialEq, Eq)]
pub enum Event {
    ContactAdded(Identity),
    ContactFlagged(ExternalId, FlagType),
}

/// What an event is, as a mathematical value.
pub enum EventView {
    ContactAdded(Identity),
    ContactFlagged(Seq<u8>, FlagType),
}

impl View for Event {
    type V = EventView;

    open spec fn view(&self) -> EventView {
        match self {
            Event::ContactAdded(id) => EventView::ContactAdded(*id),
            Event::ContactFlagged(uuid, flag_type) => EventView::ContactFlagged(uuid@, *flag_type),
        }
    }
}

/// The views of a sequence of events, in order.
pub open spec fn event_views(s: Seq<Event>) -> Seq<EventView> {
    s.map_values(|e: Event| e@)
}

/// Why a command or a processing pass did not go through.
#[derive(Clone, Copy, Debug, PartialEq, Eq, Structural)]
pub enum TracingError {
    /// The external identifier is unknown to the identity exchange.
    InvalidIdentity,
    /// The external identifier is not the text of a UUID.
    MalformedIdentity,
    /// The identity exchange has no external identifier for the identity.
    IdentityResolutionFailed,
    /// The caller does not own the identity.
    NotOwner,
    /// The persisted checkpoint cannot be decoded.
    CheckpointReadError,
    /// Another worker holds the lease.
    LockUnavailable,
}

/// Compares two byte strings.
pub fn bytes_equal(a: &Vec<u8>, b: &Vec<u8>) -> (r: bool)
    ensures
        r == (a@ == b@),
{
    if a.len() != b.len() {
        return false;
    }
    let mut i: usize = 0;
    while i < a.len()
        invariant
            a@.len() == b@.len(),
            0 <= i <= a@.len(),
            forall|j: int| 0 <= j < i ==> a@[j] == b@[j],
        decreases a@.len() - i,
    {
        if a[i] != b[i] {
            return false;
        }
        i += 1;
    }
    assert(a@ =~= b@);
    true
}

/// Copies a byte string.
pub fn bytes_copy(a: &Vec<u8>) -> (r: Vec<u8>)
    ensures
        r@ == a@,
{
    let mut out: Vec<u8> = Vec::new();
    let mut i: usize = 0;
    while i < a.len()
        invariant
            0 <= i <= a@.len(),
            out@ == a@.subrange(0, i as int),
        decreases a@.len() - i,
    {
        out.push(a[i]);
        assert(a@.subrange(0, i as int).push(a@[i as int]) =~= a@.subrange(0, i + 1));
        i += 1;
    }
    assert(a@.subrange(0, a@.len() as int) =~= a@);
    out
}

} // verus!

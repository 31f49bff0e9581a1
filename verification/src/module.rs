//! The module's state and the validated commands that change it.

use vstd::prelude::*;
use crate::applied::Applied;
use crate::checkpoint::Checkpoint;
use crate::contacts::ContactStore;
use crate::exchange::Trait;
use crate::flags::FlagStore;
use crate::identity::{derive_identity, identity_of};
use crate::lock::LeaseLock;
use crate::queue::RequestQueue;
use crate::types::{
    event_views, AccountId, Contact, Event, EventView, ExternalId, Flag, FlagType, Identity,
    Moment, OffchainRequest, RequestView, TracingError,
};

verus! {

/// The whole state: the identity exchange, the two stores, the queue and the
/// event log of the ledger side, and the checkpoint, the lease and the applied
/// effects of the worker side. A new module starts with empty stores, an empty
/// queue and no checkpoint; nothing resets it afterwards.
pub struct Module<T: Trait> {
    pub exchange: T,
    pub contacts: ContactStore,
    pub flags: FlagStore,
    pub offchain_requests: RequestQueue,
    pub events: Vec<Event>,
    pub checkpoint: Checkpoint,
    pub lock: LeaseLock,
    pub applied: Applied,
}

impl<T: Trait> Module<T> {
    /// Both stores are well formed.
    pub open spec fn wf(&self) -> bool {
        self.contacts.wf() && self.flags.wf()
    }

    /// The worker's side is the same in `self` and `other`.
    pub open spec fn same_worker_side(&self, other: &Self) -> bool {
        &&& self.checkpoint@ == other.checkpoint@
        &&& self.lock@ == other.lock@
        &&& self.applied@ == other.applied@
    }

    /// Everything that a command can change is the same in `self` and `other`.
    pub open spec fn same_ledger_side(&self, other: &Self) -> bool {
        &&& self.contacts@ == other.contacts@
        &&& self.flags@ == other.flags@
        &&& self.offchain_requests@ == other.offchain_requests@
        &&& event_views(self.events@) == event_views(other.events@)
    }

    /// A module around `exchange` in its initial state.
    pub fn new(exchange: T) -> (module: Module<T>)
        ensures
            module.wf(),
            module.exchange == exchange,
            module.contacts@ == Map::<(Identity, Identity), Contact>::empty(),
            module.flags@ == Map::<Identity, Flag>::empty(),
            module.offchain_requests@ == Seq::<RequestView>::empty(),
            event_views(module.events@) == Seq::<EventView>::empty(),
            module.checkpoint@ == None::<Seq<u8>>,
            module.lock@ == None::<Moment>,
            module.applied@.flagged == Set::<Identity>::empty(),
            module.applied@.pool == Set::<Seq<u8>>::empty(),
    {
        let module = Module {
            exchange,
            contacts: ContactStore::new(),
            flags: FlagStore::new(),
            offchain_requests: RequestQueue::new(),
            events: Vec::new(),
            checkpoint: Checkpoint::new(),
            lock: LeaseLock::new(),
            applied: Applied::new(),
        };
        assert(event_views(module.events@) =~= Seq::<EventView>::empty());
        module
    }

    /// Whether `id` is currently flagged positive or suspicious; an identity
    /// without a flag is not.
    pub fn check_contact_flag(&self, id: &Identity) -> (r: bool)
        requires
            self.wf(),
        ensures
            r == (self.flags@.contains_key(*id) && self.flags@[*id].exposes()),
    {
        self.flags.is_exposed(id)
    }

    /// Records that `id` observed `contact_id` at time `now`.
    pub fn new_contact(&mut self, id: Identity, contact_id: Identity, now: Moment) -> (contact:
        Contact)
        requires
            old(self).wf(),
        ensures
            final(self).wf(),
            contact == (Contact { id, contact_id, timestamp: now }),
            final(self).contacts@ == old(self).contacts@.insert((id, contact_id), contact),
            final(self).flags@ == old(self).flags@,
            final(self).offchain_requests@ == old(self).offchain_requests@,
            event_views(final(self).events@) == event_views(old(self).events@),
            final(self).same_worker_side(old(self)),
            final(self).exchange == old(self).exchange,
    {
        self.contacts.insert(id, contact_id, now)
    }

    /// Files `flag_type` for `id` at time `now`, in place of any earlier flag.
    pub fn new_flag(&mut self, id: Identity, flag_type: FlagType, now: Moment)
        requires
            old(self).wf(),
        ensures
            final(self).wf(),
            final(self).flags@ == old(self).flags@.insert(
                id,
                Flag { id, flag_type: Some(flag_type), timestamp: now },
            ),
            final(self).contacts@ == old(self).contacts@,
            final(self).offchain_requests@ == old(self).offchain_requests@,
            event_views(final(self).events@) == event_views(old(self).events@),
            final(self).same_worker_side(old(self)),
            final(self).exchange == old(self).exchange,
    {
        let _ = self.flags.set(id, flag_type, now);
    }

    /// The place for a check of an identity before it is used. No check is
    /// made: every identity passes.
    pub fn check_exchangable_id_exists(props: &Identity) -> (r: Result<(), TracingError>)
        ensures
            r is Ok,
    {
        let _ = props;
        Ok(())
    }

    /// Asks for the external identifier of `requested_id` to be added to the
    /// pool: resolves it through the exchange and queues the registration.
    /// Fails with `IdentityResolutionFailed`, and changes nothing, exactly when
    /// the exchange has no external identifier for it.
    pub fn generate_id(&mut self, sender: AccountId, requested_id: Identity) -> (r: Result<
        (),
        TracingError,
    >)
        requires
            old(self).wf(),
        ensures
            final(self).wf(),
            final(self).exchange == old(self).exchange,
            final(self).same_worker_side(old(self)),
            final(self).contacts@ == old(self).contacts@,
            final(self).flags@ == old(self).flags@,
            event_views(final(self).events@) == event_views(old(self).events@),
            match old(self).exchange.uuid_of(requested_id) {
                Some(uuid) => r is Ok && final(self).offchain_requests@ == old(
                    self,
                ).offchain_requests@.push(RequestView::AddToUUIDPool(uuid)),
                None => r == Err::<(), TracingError>(TracingError::IdentityResolutionFailed)
                    && final(self).offchain_requests@ == old(self).offchain_requests@,
            },
    {
        let _ = sender;
        match self.exchange.get_uuid(&requested_id) {
            Some(uuid) => {
                self.offchain_requests.enqueue(OffchainRequest::AddToUUIDPool(uuid));
                Ok(())
            },
            None => Err(TracingError::IdentityResolutionFailed),
        }
    }

    /// Records the contact of `id` with `contact_id` at time `now` and, where
    /// `contact_id` is exposed at that moment, queues the propagation of the
    /// exposure to `id`.
    pub fn record_contact(&mut self, id: Identity, contact_id: Identity, now: Moment) -> (contact:
        Contact)
        requires
            old(self).wf(),
        ensures
            final(self).wf(),
            final(self).exchange == old(self).exchange,
            final(self).same_worker_side(old(self)),
            final(self).flags@ == old(self).flags@,
            event_views(final(self).events@) == event_views(old(self).events@),
            contact == (Contact { id, contact_id, timestamp: now }),
            final(self).contacts@ == old(self).contacts@.insert((id, contact_id), contact),
            final(self).offchain_requests@ == (if old(self).flags@.contains_key(contact_id) && old(
                self,
            ).flags@[contact_id].exposes() {
                old(self).offchain_requests@.push(RequestView::FlagID(id))
            } else {
                old(self).offchain_requests@
            }),
    {
        let contact = self.new_contact(id, contact_id, now);
        if self.check_contact_flag(&contact_id) {
            self.offchain_requests.enqueue(OffchainRequest::FlagID(id));
        }
        contact
    }

    /// The command "add contact": `external_a` reports that it met
    /// `external_b`. Fails with `InvalidIdentity` unless the exchange knows
    /// both, then with `MalformedIdentity` unless both spell a UUID; either way
    /// nothing changes. Otherwise the contact of the two derived identities is
    /// recorded as `record_contact` says.
    pub fn add_contact(
        &mut self,
        sender: AccountId,
        external_a: &ExternalId,
        external_b: &ExternalId,
        now: Moment,
    ) -> (r: Result<(), TracingError>)
        requires
            old(self).wf(),
        ensures
            final(self).wf(),
            final(self).exchange == old(self).exchange,
            final(self).same_worker_side(old(self)),
            final(self).flags@ == old(self).flags@,
            event_views(final(self).events@) == event_views(old(self).events@),
            r is Err ==> final(self).same_ledger_side(old(self)),
            !(old(self).exchange.uuid_exists(external_a@) && old(self).exchange.uuid_exists(
                external_b@,
            )) ==> r == Err::<(), TracingError>(TracingError::InvalidIdentity),
            old(self).exchange.uuid_exists(external_a@) && old(self).exchange.uuid_exists(
                external_b@,
            ) ==> match (identity_of(external_a@), identity_of(external_b@)) {
                (Some(id), Some(contact_id)) => {
                    &&& r is Ok
                    &&& final(self).contacts@ == old(self).contacts@.insert(
                        (id, contact_id),
                        Contact { id, contact_id, timestamp: now },
                    )
                    &&& final(self).offchain_requests@ == (if old(self).flags@.contains_key(
                        contact_id,
                    ) && old(self).flags@[contact_id].exposes() {
                        old(self).offchain_requests@.push(RequestView::FlagID(id))
                    } else {
                        old(self).offchain_requests@
                    })
                },
                _ => r == Err::<(), TracingError>(TracingError::MalformedIdentity),
            },
    {
        let _ = sender;
        if !self.exchange.check_uuid_exists(external_a) {
            return Err(TracingError::InvalidIdentity);
        }
        if !self.exchange.check_uuid_exists(external_b) {
            return Err(TracingError::InvalidIdentity);
        }
        let id = match derive_identity(external_a) {
            Ok(id) => id,
            Err(e) => {
                return Err(e);
            },
        };
        let contact_id = match derive_identity(external_b) {
            Ok(id) => id,
            Err(e) => {
                return Err(e);
            },
        };
        let _ = self.record_contact(id, contact_id, now);
        Ok(())
    }

    /// The command "check id": succeeds exactly when the exchange knows
    /// `external`, and fails with `InvalidIdentity` otherwise. Nothing changes.
    pub fn check_id(&self, external: &ExternalId) -> (r: Result<(), TracingError>)
        ensures
            self.exchange.uuid_exists(external@) ==> r is Ok,
            !self.exchange.uuid_exists(external@) ==> r == Err::<(), TracingError>(
                TracingError::InvalidIdentity,
            ),
    {
        if self.exchange.check_uuid_exists(external) {
            Ok(())
        } else {
            Err(TracingError::InvalidIdentity)
        }
    }

    /// Flags `id` as `flag_type` at time `now` and tells the listeners, under
    /// the external identifier that the exchange holds for `id`. Fails with
    /// `IdentityResolutionFailed`, and changes nothing, exactly when the
    /// exchange holds none.
    pub fn record_flag(&mut self, id: Identity, flag_type: FlagType, now: Moment) -> (r: Result<
        (),
        TracingError,
    >)
        requires
            old(self).wf(),
        ensures
            final(self).wf(),
            final(self).exchange == old(self).exchange,
            final(self).same_worker_side(old(self)),
            final(self).contacts@ == old(self).contacts@,
            final(self).offchain_requests@ == old(self).offchain_requests@,
            match old(self).exchange.uuid_of(id) {
                Some(uuid) => {
                    &&& r is Ok
                    &&& final(self).flags@ == old(self).flags@.insert(
                        id,
                        Flag { id, flag_type: Some(flag_type), timestamp: now },
                    )
                    &&& event_views(final(self).events@) == event_views(old(self).events@).push(
                        EventView::ContactFlagged(uuid, flag_type),
                    )
                },
                None => {
                    &&& r == Err::<(), TracingError>(TracingError::IdentityResolutionFailed)
                    &&& final(self).same_ledger_side(old(self))
                },
            },
    {
        match self.exchange.get_uuid(&id) {
            Some(uuid) => {
                self.new_flag(id, flag_type, now);
                self.events.push(Event::ContactFlagged(uuid, flag_type));
                assert(event_views(self.events@) =~= event_views(old(self).events@).push(
                    EventView::ContactFlagged(uuid@, flag_type),
                ));
                Ok(())
            },
            None => Err(TracingError::IdentityResolutionFailed),
        }
    }

    /// The command "add flag": classifies `external` as `flag_type`. Fails with
    /// `MalformedIdentity` unless `external` spells a UUID; otherwise the flag
    /// of the derived identity is filed as `record_flag` says. The caller is
    /// not held against the identity: any authenticated `sender` may flag any
    /// identity, and `NotOwner` is never returned.
    pub fn add_flag(
        &mut self,
        sender: AccountId,
        external: &ExternalId,
        flag_type: FlagType,
        now: Moment,
    ) -> (r: Result<(), TracingError>)
        requires
            old(self).wf(),
        ensures
            final(self).wf(),
            final(self).exchange == old(self).exchange,
            final(self).same_worker_side(old(self)),
            final(self).contacts@ == old(self).contacts@,
            final(self).offchain_requests@ == old(self).offchain_requests@,
            r is Err ==> final(self).same_ledger_side(old(self)),
            match identity_of(external@) {
                None => r == Err::<(), TracingError>(TracingError::MalformedIdentity),
                Some(id) => match old(self).exchange.uuid_of(id) {
                    Some(uuid) => {
                        &&& r is Ok
                        &&& final(self).flags@ == old(self).flags@.insert(
                            id,
                            Flag { id, flag_type: Some(flag_type), timestamp: now },
                        )
                        &&& event_views(final(self).events@) == event_views(
                            old(self).events@,
                        ).push(EventView::ContactFlagged(uuid, flag_type))
                    },
                    None => r == Err::<(), TracingError>(TracingError::IdentityResolutionFailed),
                },
            },
    {
        let _ = sender;
        let id = match derive_identity(external) {
            Ok(id) => id,
            Err(e) => {
                return Err(e);
            },
        };
        self.record_flag(id, flag_type, now)
    }
}

} // verus!

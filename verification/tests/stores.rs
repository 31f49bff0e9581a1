use contact_tracing::contacts::ContactStore;
use contact_tracing::flags::FlagStore;
use contact_tracing::queue::RequestQueue;
use contact_tracing::types::Identity;
use contact_tracing::{Contact, Flag, FlagType, OffchainRequest};

fn ident(seed: u8) -> Identity {
    Identity { bytes: [seed; 32] }
}

#[test]
fn flag_store_starts_empty() {
    let store = FlagStore::new();
    assert_eq!(store.get(&ident(1)), None);
    assert!(!store.is_exposed(&ident(1)));
}

#[test]
fn flag_set_returns_and_stores_the_flag() {
    let mut store = FlagStore::new();
    let flag = store.set(ident(1), FlagType::Positive, 42);
    assert_eq!(flag, Flag { id: ident(1), flag_type: Some(FlagType::Positive), timestamp: 42 });
    assert_eq!(store.get(&ident(1)), Some(flag));
    assert_eq!(store.get(&ident(2)), None);
}

#[test]
fn flag_overwrite_keeps_the_second_write() {
    let mut store = FlagStore::new();
    store.set(ident(1), FlagType::Positive, 10);
    store.set(ident(2), FlagType::Suspicious, 11);
    let second = store.set(ident(1), FlagType::Negative, 20);
    assert_eq!(
        store.get(&ident(1)),
        Some(Flag { id: ident(1), flag_type: Some(FlagType::Negative), timestamp: 20 })
    );
    assert_eq!(store.get(&ident(1)), Some(second));
    assert_eq!(
        store.get(&ident(2)),
        Some(Flag { id: ident(2), flag_type: Some(FlagType::Suspicious), timestamp: 11 })
    );
    assert!(!store.is_exposed(&ident(1)));
}

#[test]
fn flag_same_value_twice_is_one_record() {
    let mut store = FlagStore::new();
    let first = store.set(ident(7), FlagType::Positive, 5);
    let second = store.set(ident(7), FlagType::Positive, 5);
    assert_eq!(first, second);
    assert_eq!(store.get(&ident(7)), Some(second));
}

#[test]
fn exposure_is_positive_or_suspicious() {
    let mut store = FlagStore::new();
    store.set(ident(1), FlagType::Positive, 1);
    store.set(ident(2), FlagType::Negative, 1);
    store.set(ident(3), FlagType::Suspicious, 1);
    assert!(store.is_exposed(&ident(1)));
    assert!(!store.is_exposed(&ident(2)));
    assert!(store.is_exposed(&ident(3)));
    assert!(!store.is_exposed(&ident(4)));
}

#[test]
fn identity_comparison_is_bytewise() {
    let a = ident(9);
    let mut other = [9u8; 32];
    assert!(a.same(&Identity { bytes: other }));
    other[31] = 8;
    assert!(!a.same(&Identity { bytes: other }));
    other[31] = 9;
    other[0] = 0;
    assert!(!a.same(&Identity { bytes: other }));
}

#[test]
fn contact_insert_returns_and_stores_the_contact() {
    let mut store = ContactStore::new();
    let contact = store.insert(ident(1), ident(2), 100);
    assert_eq!(contact, Contact { id: ident(1), contact_id: ident(2), timestamp: 100 });
    assert_eq!(store.get(&ident(1), &ident(2)), Some(contact));
}

#[test]
fn contact_is_directional() {
    let mut store = ContactStore::new();
    store.insert(ident(1), ident(2), 100);
    assert_eq!(store.get(&ident(2), &ident(1)), None);
    store.insert(ident(2), ident(1), 200);
    assert_eq!(
        store.get(&ident(1), &ident(2)),
        Some(Contact { id: ident(1), contact_id: ident(2), timestamp: 100 })
    );
    assert_eq!(
        store.get(&ident(2), &ident(1)),
        Some(Contact { id: ident(2), contact_id: ident(1), timestamp: 200 })
    );
}

#[test]
fn contact_with_oneself_is_its_own_reverse() {
    let mut store = ContactStore::new();
    let contact = store.insert(ident(3), ident(3), 1);
    assert_eq!(store.get(&ident(3), &ident(3)), Some(contact));
}

#[test]
fn contact_insert_again_replaces_the_pair() {
    let mut store = ContactStore::new();
    store.insert(ident(1), ident(2), 100);
    store.insert(ident(1), ident(3), 150);
    store.insert(ident(1), ident(2), 300);
    assert_eq!(
        store.get(&ident(1), &ident(2)),
        Some(Contact { id: ident(1), contact_id: ident(2), timestamp: 300 })
    );
    assert_eq!(store.contacts_of(&ident(1)).len(), 2);
}

#[test]
fn contacts_of_fans_out_by_first_key() {
    let mut store = ContactStore::new();
    store.insert(ident(1), ident(2), 100);
    store.insert(ident(4), ident(1), 110);
    store.insert(ident(1), ident(3), 120);
    let fan = store.contacts_of(&ident(1));
    assert_eq!(
        fan,
        vec![
            Contact { id: ident(1), contact_id: ident(2), timestamp: 100 },
            Contact { id: ident(1), contact_id: ident(3), timestamp: 120 },
        ]
    );
    assert_eq!(store.contacts_of(&ident(2)), vec![]);
}

#[test]
fn queue_is_first_in_first_out() {
    let mut queue = RequestQueue::new();
    assert!(queue.is_empty());
    queue.enqueue(OffchainRequest::AddToUUIDPool(b"uuid-1".to_vec()));
    queue.enqueue(OffchainRequest::FlagID(ident(2)));
    assert_eq!(queue.len(), 2);
    let drained = queue.drain_all();
    assert_eq!(
        drained,
        vec![
            OffchainRequest::AddToUUIDPool(b"uuid-1".to_vec()),
            OffchainRequest::FlagID(ident(2)),
        ]
    );
    assert!(queue.is_empty());
    assert_eq!(queue.drain_all(), vec![]);
}

#[test]
fn queue_keeps_repeated_requests() {
    let mut queue = RequestQueue::new();
    queue.enqueue(OffchainRequest::FlagID(ident(2)));
    queue.enqueue(OffchainRequest::FlagID(ident(2)));
    assert_eq!(queue.len(), 2);
    assert_eq!(
        queue.drain_all(),
        vec![OffchainRequest::FlagID(ident(2)), OffchainRequest::FlagID(ident(2))]
    );
}

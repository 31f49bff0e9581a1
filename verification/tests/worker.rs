use contact_tracing::applied::Applied;
use contact_tracing::checkpoint::{Checkpoint, CheckpointRead};
use contact_tracing::exchange::UuidRegistry;
use contact_tracing::lock::{LeaseLock, LOCK_TIMEOUT_EXPIRATION};
use contact_tracing::module::Module;
use contact_tracing::processor::{plan_pass, PassPlan, PassReport};
use contact_tracing::types::{Identity, OffchainRequest, TracingError};

fn hashed(text: &[u8]) -> Identity {
    Identity { bytes: <sp_runtime::traits::BlakeTwo256 as sp_runtime::traits::Hash>::hash(text).0 }
}

fn fresh() -> Module<UuidRegistry> {
    Module::new(UuidRegistry::new())
}

fn with_checkpoint(epoch: u32) -> Module<UuidRegistry> {
    let mut module = fresh();
    module.checkpoint.commit(epoch);
    module
}

fn nothing_done() -> PassReport {
    PassReport { applied: vec![], committed: None }
}

#[test]
fn lease_constant_is_three_seconds() {
    assert_eq!(LOCK_TIMEOUT_EXPIRATION, 3000);
}

#[test]
fn lease_is_taken_when_free_and_refused_while_it_lasts() {
    let mut lock = LeaseLock::new();
    assert_eq!(lock.deadline(), None);
    assert_eq!(lock.try_lock(1000), Ok(()));
    assert_eq!(lock.deadline(), Some(4000));
    assert_eq!(lock.try_lock(1000), Err(TracingError::LockUnavailable));
    assert_eq!(lock.try_lock(3999), Err(TracingError::LockUnavailable));
    assert_eq!(lock.try_lock(4000), Err(TracingError::LockUnavailable));
    assert_eq!(lock.deadline(), Some(4000));
    assert_eq!(lock.try_lock(4001), Ok(()));
    assert_eq!(lock.deadline(), Some(7001));
}

#[test]
fn lease_can_be_given_back() {
    let mut lock = LeaseLock::new();
    assert_eq!(lock.try_lock(0), Ok(()));
    assert_eq!(lock.deadline(), Some(3000));
    lock.unlock();
    assert_eq!(lock.deadline(), None);
    assert_eq!(lock.try_lock(1), Ok(()));
    assert_eq!(lock.deadline(), Some(3001));
}

#[test]
fn lease_deadline_saturates() {
    let mut lock = LeaseLock::new();
    assert_eq!(lock.try_lock(u64::MAX - 2999), Ok(()));
    assert_eq!(lock.deadline(), Some(u64::MAX));
    lock.unlock();
    assert_eq!(lock.try_lock(u64::MAX - 3000), Ok(()));
    assert_eq!(lock.deadline(), Some(u64::MAX));
    lock.unlock();
    assert_eq!(lock.try_lock(u64::MAX - 3001), Ok(()));
    assert_eq!(lock.deadline(), Some(u64::MAX - 1));
    lock.unlock();
    assert_eq!(lock.try_lock(u64::MAX), Ok(()));
    assert_eq!(lock.deadline(), Some(u64::MAX));
    assert_eq!(lock.try_lock(u64::MAX), Err(TracingError::LockUnavailable));
}

#[test]
fn checkpoint_is_persisted_as_four_bytes_little_end_first() {
    let mut checkpoint = Checkpoint::new();
    assert_eq!(checkpoint.raw(), None);
    assert_eq!(checkpoint.read(), CheckpointRead::Absent);
    checkpoint.commit(5);
    assert_eq!(checkpoint.raw(), Some(vec![5, 0, 0, 0]));
    assert_eq!(checkpoint.read(), CheckpointRead::Stored(5));
    checkpoint.commit(0x0102_0304);
    assert_eq!(checkpoint.raw(), Some(vec![4, 3, 2, 1]));
    assert_eq!(checkpoint.read(), CheckpointRead::Stored(0x0102_0304));
    checkpoint.commit(u32::MAX);
    assert_eq!(checkpoint.read(), CheckpointRead::Stored(u32::MAX));
}

#[test]
fn checkpoint_reading_decodes_the_front_of_the_bytes() {
    assert_eq!(Checkpoint::from_raw(vec![7, 0, 0, 0]).read(), CheckpointRead::Stored(7));
    assert_eq!(Checkpoint::from_raw(vec![0, 1, 0, 0]).read(), CheckpointRead::Stored(256));
    assert_eq!(Checkpoint::from_raw(vec![7, 0, 0, 0, 9, 9]).read(), CheckpointRead::Stored(7));
    assert_eq!(Checkpoint::from_raw(vec![7, 0, 0]).read(), CheckpointRead::Corrupt);
    assert_eq!(Checkpoint::from_raw(vec![]).read(), CheckpointRead::Corrupt);
    assert_eq!(Checkpoint::from_raw(vec![1, 2]).raw(), Some(vec![1, 2]));
}

#[test]
fn plan_follows_the_checkpoint() {
    assert_eq!(plan_pass(CheckpointRead::Corrupt, 10), PassPlan::Abort);
    assert_eq!(plan_pass(CheckpointRead::Stored(10), 10), PassPlan::Skip);
    assert_eq!(plan_pass(CheckpointRead::Stored(11), 10), PassPlan::Skip);
    assert_eq!(plan_pass(CheckpointRead::Stored(0), 0), PassPlan::Skip);
    assert_eq!(plan_pass(CheckpointRead::Stored(3), 6), PassPlan::Replay { start: 4, end: 6 });
    assert_eq!(plan_pass(CheckpointRead::Stored(9), 10), PassPlan::Replay { start: 10, end: 10 });
    assert_eq!(plan_pass(CheckpointRead::Absent, 6), PassPlan::Replay { start: 1, end: 6 });
    assert_eq!(plan_pass(CheckpointRead::Absent, 0), PassPlan::Replay { start: 1, end: 0 });
    assert_eq!(
        plan_pass(CheckpointRead::Stored(u32::MAX - 1), u32::MAX),
        PassPlan::Replay { start: u32::MAX, end: u32::MAX }
    );
    assert_eq!(plan_pass(CheckpointRead::Stored(u32::MAX), u32::MAX), PassPlan::Skip);
}

#[test]
fn applying_a_request_twice_is_applying_it_once() {
    let mut applied = Applied::new();
    let flag = OffchainRequest::FlagID(hashed(b"uuid-2"));
    let pool = OffchainRequest::AddToUUIDPool(b"uuid-1".to_vec());
    applied.apply(&flag);
    applied.apply(&pool);
    assert!(applied.is_flagged(&hashed(b"uuid-2")));
    assert!(applied.in_pool(&b"uuid-1".to_vec()));
    assert!(!applied.is_flagged(&hashed(b"uuid-1")));
    assert!(!applied.in_pool(&b"uuid-2".to_vec()));
    applied.apply(&flag);
    applied.apply(&pool);
    assert!(applied.is_flagged(&hashed(b"uuid-2")));
    assert!(applied.in_pool(&b"uuid-1".to_vec()));
    assert!(!applied.in_pool(&b"uuid-".to_vec()));
}

#[test]
fn apply_all_applies_in_order() {
    let mut applied = Applied::new();
    applied.apply_all(&vec![
        OffchainRequest::AddToUUIDPool(b"a".to_vec()),
        OffchainRequest::FlagID(hashed(b"b")),
        OffchainRequest::AddToUUIDPool(b"a".to_vec()),
    ]);
    assert!(applied.in_pool(&b"a".to_vec()));
    assert!(applied.is_flagged(&hashed(b"b")));
    assert!(!applied.in_pool(&b"b".to_vec()));
    applied.apply_all(&vec![]);
    assert!(applied.in_pool(&b"a".to_vec()));
}

#[test]
fn two_requests_at_checkpoint_three_processed_at_epoch_six() {
    let mut module = with_checkpoint(3);
    module.offchain_requests.enqueue(OffchainRequest::AddToUUIDPool(b"uuid-1".to_vec()));
    module.offchain_requests.enqueue(OffchainRequest::FlagID(hashed(b"uuid-2")));
    let report = module.offchain_worker(6, 10_000).unwrap();
    assert_eq!(
        report.applied,
        vec![
            OffchainRequest::AddToUUIDPool(b"uuid-1".to_vec()),
            OffchainRequest::FlagID(hashed(b"uuid-2")),
        ]
    );
    assert_eq!(report.committed, Some(5));
    assert_eq!(module.checkpoint.read(), CheckpointRead::Stored(5));
    assert_eq!(module.checkpoint.raw(), Some(vec![5, 0, 0, 0]));
    assert!(module.offchain_requests.is_empty());
    assert!(module.applied.in_pool(&b"uuid-1".to_vec()));
    assert!(module.applied.is_flagged(&hashed(b"uuid-2")));
    assert_eq!(module.lock.deadline(), None);
}

#[test]
fn pass_without_the_lease_wrapper_does_the_same() {
    let mut module = with_checkpoint(3);
    module.offchain_requests.enqueue(OffchainRequest::AddToUUIDPool(b"uuid-1".to_vec()));
    module.offchain_requests.enqueue(OffchainRequest::FlagID(hashed(b"uuid-2")));
    let report = module.process_ocw_notifications(6).unwrap();
    assert_eq!(report.applied.len(), 2);
    assert_eq!(report.committed, Some(5));
    assert_eq!(module.checkpoint.read(), CheckpointRead::Stored(5));
    assert!(module.offchain_requests.is_empty());
}

#[test]
fn already_processed_epoch_is_a_no_op() {
    for block in [0u32, 3, 5] {
        let mut module = with_checkpoint(5);
        module.offchain_requests.enqueue(OffchainRequest::FlagID(hashed(b"uuid-2")));
        assert_eq!(module.offchain_worker(block, 0), Ok(nothing_done()));
        assert_eq!(module.checkpoint.raw(), Some(vec![5, 0, 0, 0]));
        assert_eq!(module.offchain_requests.len(), 1);
        assert!(!module.applied.is_flagged(&hashed(b"uuid-2")));
        assert_eq!(module.process_ocw_notifications(block), Ok(nothing_done()));
        assert_eq!(module.checkpoint.raw(), Some(vec![5, 0, 0, 0]));
        assert_eq!(module.offchain_requests.len(), 1);
    }
}

#[test]
fn epoch_right_after_the_checkpoint_replays_nothing() {
    let mut module = with_checkpoint(5);
    module.offchain_requests.enqueue(OffchainRequest::FlagID(hashed(b"uuid-2")));
    assert_eq!(module.offchain_worker(6, 0), Ok(nothing_done()));
    assert_eq!(module.checkpoint.read(), CheckpointRead::Stored(5));
    assert_eq!(module.offchain_requests.len(), 1);
    assert!(!module.applied.is_flagged(&hashed(b"uuid-2")));
    let report = module.offchain_worker(7, 0).unwrap();
    assert_eq!(report.applied, vec![OffchainRequest::FlagID(hashed(b"uuid-2"))]);
    assert_eq!(report.committed, Some(6));
    assert_eq!(module.checkpoint.read(), CheckpointRead::Stored(6));
}

#[test]
fn absent_checkpoint_counts_as_epoch_zero() {
    for block in [0u32, 1] {
        let mut module = fresh();
        module.offchain_requests.enqueue(OffchainRequest::AddToUUIDPool(b"uuid-1".to_vec()));
        assert_eq!(module.offchain_worker(block, 0), Ok(nothing_done()));
        assert_eq!(module.checkpoint.read(), CheckpointRead::Absent);
        assert_eq!(module.offchain_requests.len(), 1);
    }
    let mut module = fresh();
    module.offchain_requests.enqueue(OffchainRequest::AddToUUIDPool(b"uuid-1".to_vec()));
    let report = module.offchain_worker(2, 0).unwrap();
    assert_eq!(report.applied, vec![OffchainRequest::AddToUUIDPool(b"uuid-1".to_vec())]);
    assert_eq!(report.committed, Some(1));
    assert_eq!(module.checkpoint.read(), CheckpointRead::Stored(1));
    assert!(module.offchain_requests.is_empty());
}

#[test]
fn empty_queue_still_advances_the_checkpoint() {
    let mut module = with_checkpoint(3);
    assert_eq!(
        module.offchain_worker(100, 0),
        Ok(PassReport { applied: vec![], committed: Some(99) })
    );
    assert_eq!(module.checkpoint.read(), CheckpointRead::Stored(99));
}

#[test]
fn unreadable_checkpoint_aborts_the_pass() {
    let mut module = fresh();
    module.checkpoint = Checkpoint::from_raw(vec![1, 2]);
    module.offchain_requests.enqueue(OffchainRequest::FlagID(hashed(b"uuid-2")));
    assert_eq!(module.process_ocw_notifications(9), Err(TracingError::CheckpointReadError));
    assert_eq!(module.offchain_worker(9, 0), Err(TracingError::CheckpointReadError));
    assert_eq!(module.checkpoint.raw(), Some(vec![1, 2]));
    assert_eq!(module.offchain_requests.len(), 1);
    assert!(!module.applied.is_flagged(&hashed(b"uuid-2")));
    assert_eq!(module.lock.deadline(), None);
}

#[test]
fn held_lease_skips_the_epoch() {
    let mut module = with_checkpoint(3);
    module.offchain_requests.enqueue(OffchainRequest::FlagID(hashed(b"uuid-2")));
    assert_eq!(module.lock.try_lock(1000), Ok(()));
    assert_eq!(module.offchain_worker(6, 1500), Err(TracingError::LockUnavailable));
    assert_eq!(module.offchain_worker(6, 4000), Err(TracingError::LockUnavailable));
    assert_eq!(module.checkpoint.read(), CheckpointRead::Stored(3));
    assert_eq!(module.offchain_requests.len(), 1);
    assert_eq!(module.lock.deadline(), Some(4000));
    let report = module.offchain_worker(7, 4001).unwrap();
    assert_eq!(report.applied, vec![OffchainRequest::FlagID(hashed(b"uuid-2"))]);
    assert_eq!(report.committed, Some(6));
    assert_eq!(module.lock.deadline(), None);
}

#[test]
fn checkpoint_never_moves_back() {
    let mut module = fresh();
    let mut floor: u32 = 0;
    let blocks: [u32; 12] = [0, 1, 2, 2, 5, 3, 9, 9, 4, 10, 11, 7];
    for (i, block) in blocks.iter().enumerate() {
        if i % 4 == 3 {
            assert_eq!(module.lock.try_lock(i as u64), Ok(()));
            assert_eq!(
                module.offchain_worker(*block, i as u64),
                Err(TracingError::LockUnavailable)
            );
            module.lock.unlock();
        } else {
            assert!(module.offchain_worker(*block, i as u64).is_ok());
        }
        if i % 5 == 4 {
            let persisted = module.checkpoint.raw();
            module = fresh();
            if let Some(bytes) = persisted {
                module.checkpoint = Checkpoint::from_raw(bytes);
            }
        }
        let now = match module.checkpoint.read() {
            CheckpointRead::Stored(epoch) => epoch,
            CheckpointRead::Absent => 0,
            CheckpointRead::Corrupt => panic!("the checkpoint became unreadable"),
        };
        assert!(now >= floor);
        floor = now;
    }
    assert_eq!(floor, 10);
}

#[test]
fn requests_wait_until_a_pass_replays_an_epoch() {
    let mut module = with_checkpoint(3);
    module.offchain_requests.enqueue(OffchainRequest::AddToUUIDPool(b"uuid-1".to_vec()));
    assert_eq!(module.offchain_worker(4, 0), Ok(nothing_done()));
    module.offchain_requests.enqueue(OffchainRequest::FlagID(hashed(b"uuid-2")));
    assert_eq!(module.lock.try_lock(10), Ok(()));
    assert_eq!(module.offchain_worker(5, 20), Err(TracingError::LockUnavailable));
    module.lock.unlock();
    assert_eq!(module.offchain_requests.len(), 2);
    let report = module.offchain_worker(5, 30).unwrap();
    assert_eq!(
        report.applied,
        vec![
            OffchainRequest::AddToUUIDPool(b"uuid-1".to_vec()),
            OffchainRequest::FlagID(hashed(b"uuid-2")),
        ]
    );
    assert_eq!(report.committed, Some(4));
    module.offchain_requests.enqueue(OffchainRequest::FlagID(hashed(b"uuid-3")));
    let report = module.offchain_worker(8, 40).unwrap();
    assert_eq!(report.applied, vec![OffchainRequest::FlagID(hashed(b"uuid-3"))]);
    assert_eq!(report.committed, Some(7));
    assert!(module.applied.in_pool(&b"uuid-1".to_vec()));
    assert!(module.applied.is_flagged(&hashed(b"uuid-2")));
    assert!(module.applied.is_flagged(&hashed(b"uuid-3")));
    assert!(module.offchain_requests.is_empty());
}

#[test]
fn repeated_requests_are_each_replayed() {
    let mut module = with_checkpoint(0);
    module.offchain_requests.enqueue(OffchainRequest::FlagID(hashed(b"uuid-2")));
    module.offchain_requests.enqueue(OffchainRequest::FlagID(hashed(b"uuid-2")));
    let report = module.offchain_worker(3, 0).unwrap();
    assert_eq!(
        report.applied,
        vec![OffchainRequest::FlagID(hashed(b"uuid-2")), OffchainRequest::FlagID(hashed(b"uuid-2"))]
    );
    assert!(module.applied.is_flagged(&hashed(b"uuid-2")));
}

#[test]
fn a_pass_leaves_the_ledger_side_alone() {
    let mut module = with_checkpoint(3);
    module.new_flag(hashed(b"x"), contact_tracing::types::FlagType::Positive, 1);
    module.new_contact(hashed(b"x"), hashed(b"y"), 2);
    assert!(module.offchain_worker(9, 0).is_ok());
    assert!(module.check_contact_flag(&hashed(b"x")));
    assert!(module.contacts.get(&hashed(b"x"), &hashed(b"y")).is_some());
    assert!(module.events.is_empty());
}

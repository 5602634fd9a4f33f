use base_core::engine::{
    BlockInfo, InsertTask, InsertTaskError, NewPayloadCall, PayloadStatusKind, PayloadVersion,
};
use base_core::primitives::B256;

fn block(number: u64, hash: u8, parent: u8) -> BlockInfo {
    BlockInfo { hash: B256::repeat_byte(hash), number, parent_hash: B256::repeat_byte(parent) }
}

#[test]
fn bedrock_payload_uses_new_payload_v2_with_no_withdrawals() {
    let task = InsertTask::new(PayloadVersion::V1, false);
    assert_eq!(task.new_payload_call(), NewPayloadCall::V2 { withdrawals: false });
}

#[test]
fn canyon_payload_uses_new_payload_v2_with_withdrawals() {
    let task = InsertTask::new(PayloadVersion::V2, false);
    assert_eq!(task.new_payload_call(), NewPayloadCall::V2 { withdrawals: true });
    assert_eq!(InsertTask::new(PayloadVersion::V3, false).new_payload_call(), NewPayloadCall::V3);
    assert_eq!(InsertTask::new(PayloadVersion::V4, false).new_payload_call(), NewPayloadCall::V4);
}

#[test]
fn stale_unsafe_payload_is_dropped_before_new_payload() {
    let task = InsertTask::new(PayloadVersion::V1, false);
    let head = block(10, 0xaa, 0x99);
    assert!(!task.is_unsafe_payload_applicable(&head, &block(9, 0xbb, 0x98)));
    assert!(!task.is_unsafe_payload_applicable(&head, &block(10, 0xcc, 0x99)));
    assert!(!task.is_unsafe_payload_applicable(&head, &head));
}

#[test]
fn next_unsafe_payload_with_wrong_parent_is_dropped_before_new_payload() {
    let task = InsertTask::new(PayloadVersion::V1, false);
    let head = block(10, 0xaa, 0x99);
    assert!(!task.is_unsafe_payload_applicable(&head, &block(11, 0xbb, 0x77)));
}

#[test]
fn direct_child_unsafe_payload_is_inserted() {
    let task = InsertTask::new(PayloadVersion::V1, false);
    let head = block(10, 0xaa, 0x99);
    let child = block(11, 0xbb, 0xaa);
    assert!(task.is_unsafe_payload_applicable(&head, &child));
    let update = task.on_new_payload_status(PayloadStatusKind::Valid, child).unwrap();
    assert_eq!(update.unsafe_head.unwrap().number, 11);
    assert!(update.local_safe_head.is_none());
    assert!(update.safe_head.is_none());
}

#[test]
fn gapped_unsafe_payload_is_inserted() {
    let task = InsertTask::new(PayloadVersion::V1, false);
    let head = block(10, 0xaa, 0x99);
    assert!(task.is_unsafe_payload_applicable(&head, &block(13, 0xbb, 0x12)));
}

#[test]
fn safe_payload_is_always_inserted_and_moves_safe_heads() {
    let task = InsertTask::new(PayloadVersion::V3, true);
    let head = block(10, 0xaa, 0x99);
    let old = block(5, 0x55, 0x44);
    assert!(task.is_unsafe_payload_applicable(&head, &old));
    let update = task.on_new_payload_status(PayloadStatusKind::Syncing, old).unwrap();
    assert_eq!(update.unsafe_head.unwrap().number, 5);
    assert_eq!(update.local_safe_head.unwrap().number, 5);
    assert_eq!(update.safe_head.unwrap().number, 5);
}

#[test]
fn unexpected_payload_status_fails_the_insert() {
    let task = InsertTask::new(PayloadVersion::V1, false);
    let child = block(11, 0xbb, 0xaa);
    assert!(!task.check_new_payload_status(PayloadStatusKind::Invalid));
    assert!(!task.check_new_payload_status(PayloadStatusKind::Accepted));
    assert!(task.check_new_payload_status(PayloadStatusKind::Valid));
    assert_eq!(
        task.on_new_payload_status(PayloadStatusKind::Invalid, child).unwrap_err(),
        InsertTaskError::UnexpectedPayloadStatus(PayloadStatusKind::Invalid)
    );
    assert_eq!(
        task.on_new_payload_status(PayloadStatusKind::Accepted, child).unwrap_err(),
        InsertTaskError::UnexpectedPayloadStatus(PayloadStatusKind::Accepted)
    );
}

use base_core::storage::packing::{
    create_element_mask, delete_from_word, extract_from_word, insert_into_word,
};
use base_core::word::U256;

fn u(v: u128) -> U256 {
    U256::from_u128(v)
}

#[test]
fn element_masks() {
    assert_eq!(create_element_mask(0), u(0));
    assert_eq!(create_element_mask(1), u(0xff));
    assert_eq!(create_element_mask(2), u(0xffff));
    assert_eq!(create_element_mask(16), u(u128::MAX));
    assert_eq!(create_element_mask(32), U256::max());
    assert_eq!(create_element_mask(40), U256::max());
}

#[test]
fn extract_reads_fields_at_byte_offsets() {
    let w = u(0x1122_3344);
    assert_eq!(extract_from_word(w, 0, 1).unwrap(), u(0x44));
    assert_eq!(extract_from_word(w, 1, 2).unwrap(), u(0x2233));
    assert_eq!(extract_from_word(w, 3, 1).unwrap(), u(0x11));
    assert_eq!(extract_from_word(w, 4, 4).unwrap(), u(0));
    assert_eq!(extract_from_word(U256::max(), 0, 32).unwrap(), U256::max());
    assert_eq!(extract_from_word(U256::max(), 31, 1).unwrap(), u(0xff));
}

#[test]
fn fields_may_not_span_slots() {
    assert!(extract_from_word(u(1), 31, 2).is_err());
    assert!(insert_into_word(u(1), u(1), 30, 3).is_err());
    assert!(delete_from_word(u(1), 17, 16).is_err());
    assert!(extract_from_word(u(1), usize::MAX - 1, 1).is_err());
}

#[test]
fn insert_replaces_only_its_field() {
    let w = u(0x1122_3344);
    assert_eq!(insert_into_word(w, u(0xab), 1, 1).unwrap(), u(0x1122_ab44));
    assert_eq!(insert_into_word(w, u(0xabcd), 0, 1).unwrap(), u(0x1122_33cd));
    assert_eq!(insert_into_word(w, u(0xabcd), 6, 2).unwrap(), u(0xabcd_0000_1122_3344));
    let top = insert_into_word(U256::zero(), u(0x7f), 31, 1).unwrap();
    assert_eq!(top.to_be_bytes()[0], 0x7f);
    assert_eq!(extract_from_word(top, 31, 1).unwrap(), u(0x7f));
    assert_eq!(insert_into_word(w, u(9), 32, 0).unwrap(), w);
}

#[test]
fn insert_then_extract_round_trips() {
    let w = u(0xdead_beef_0000_1111_2222);
    let written = insert_into_word(w, u(0x1234_5678), 3, 4).unwrap();
    assert_eq!(extract_from_word(written, 3, 4).unwrap(), u(0x1234_5678));
    assert_eq!(extract_from_word(written, 0, 3).unwrap(), extract_from_word(w, 0, 3).unwrap());
    assert_eq!(extract_from_word(written, 7, 3).unwrap(), extract_from_word(w, 7, 3).unwrap());
}

#[test]
fn delete_clears_only_its_field() {
    let w = u(0x1122_3344);
    assert_eq!(delete_from_word(w, 0, 2).unwrap(), u(0x1122_0000));
    assert_eq!(delete_from_word(w, 1, 2).unwrap(), u(0x1100_0044));
    assert_eq!(delete_from_word(w, 1, 2).unwrap(), insert_into_word(w, u(0), 1, 2).unwrap());
    assert_eq!(delete_from_word(U256::max(), 0, 32).unwrap(), U256::zero());
}

#[test]
fn fields_wider_than_a_slot_are_fatal() {
    let w = base_core::word::U256::from_u64(0xabcd);
    assert!(matches!(extract_from_word(w, 0, 40), Err(base_core::error::BasePrecompileError::Fatal(_))));
    assert!(matches!(delete_from_word(w, 0, 33), Err(base_core::error::BasePrecompileError::Fatal(_))));
    assert!(matches!(
        insert_into_word(w, w, 1, 64),
        Err(base_core::error::BasePrecompileError::Fatal(_))
    ));
}

use base_core::error::{BasePrecompileError, PanicKind};
use base_core::primitives::Address;
use base_core::storage::array::ArrayHandler;
use base_core::storage::elements::LayoutCtx;
use base_core::storage::slots::SlotStorage;
use base_core::storage::vec::VecHandler;
use base_core::word::U256;

fn w(x: u64) -> U256 {
    U256::from_u64(x)
}

fn data_slot_of(len_slot: U256) -> U256 {
    U256::from_be_bytes(alloy_primitives::keccak256(len_slot.to_be_bytes()).0)
}

fn slot_after(start: U256, k: u64) -> U256 {
    let sum = alloy_primitives::U256::from_be_bytes(start.to_be_bytes())
        + alloy_primitives::U256::from(k);
    U256::from_be_bytes(sum.to_be_bytes::<32>())
}

fn words(values: &[u64]) -> Vec<U256> {
    values.iter().map(|v| w(*v)).collect()
}

#[test]
fn vec_data_starts_at_the_hash_of_the_length_slot() {
    let h = VecHandler::new(w(4), Address::zero(), 32);
    assert_eq!(h.len_slot(), w(4));
    assert_eq!(h.data_slot(), data_slot_of(w(4)));
}

#[test]
fn vec_push_and_pop_of_packed_bytes() {
    let mut st = SlotStorage::new();
    let h = VecHandler::new(w(2), Address::zero(), 1);
    assert_eq!(h.is_empty(&st), Ok(true));
    h.push(&mut st, w(0x11)).unwrap();
    h.push(&mut st, w(0x22)).unwrap();
    h.push(&mut st, w(0x33)).unwrap();
    assert_eq!(h.len(&st), Ok(3));
    assert_eq!(st.load(w(2)), w(3));
    assert_eq!(st.load(h.data_slot()), w(0x332211));
    assert_eq!(h.read(&st).unwrap(), words(&[0x11, 0x22, 0x33]));

    assert_eq!(h.pop(&mut st), Ok(Some(w(0x33))));
    assert_eq!(st.load(h.data_slot()), w(0x2211));
    assert_eq!(h.read(&st).unwrap(), words(&[0x11, 0x22]));
    assert_eq!(h.pop(&mut st), Ok(Some(w(0x22))));
    assert_eq!(h.pop(&mut st), Ok(Some(w(0x11))));
    assert_eq!(h.pop(&mut st), Ok(None));
    assert_eq!(st.load(h.data_slot()), U256::zero());
}

#[test]
fn vec_packs_a_slot_then_moves_to_the_next() {
    let mut st = SlotStorage::new();
    let h = VecHandler::new(w(9), Address::zero(), 16);
    h.push(&mut st, w(1)).unwrap();
    h.push(&mut st, w(2)).unwrap();
    h.push(&mut st, w(3)).unwrap();
    let first = st.load(h.data_slot()).to_be_bytes();
    assert_eq!(first[31], 1);
    assert_eq!(first[15], 2);
    assert_eq!(st.load(slot_after(h.data_slot(), 1)), w(3));
}

#[test]
fn vec_wide_elements_take_a_slot_each() {
    let mut st = SlotStorage::new();
    let h = VecHandler::new(w(1), Address::zero(), 20);
    h.write(&mut st, words(&[5, 6, 7])).unwrap();
    assert_eq!(st.load(w(1)), w(3));
    assert_eq!(st.load(h.data_slot()), w(5));
    assert_eq!(st.load(slot_after(h.data_slot(), 1)), w(6));
    assert_eq!(st.load(slot_after(h.data_slot(), 2)), w(7));
    assert_eq!(h.read(&st).unwrap(), words(&[5, 6, 7]));
}

#[test]
fn vec_write_rebuilds_packed_slots_and_keeps_wide_ones_past_the_end() {
    let mut st = SlotStorage::new();
    let packed = VecHandler::new(w(1), Address::zero(), 8);
    packed.write(&mut st, words(&[1, 2, 3])).unwrap();
    packed.write(&mut st, words(&[9])).unwrap();
    assert_eq!(st.load(packed.data_slot()), w(9));
    assert_eq!(packed.read(&st).unwrap(), words(&[9]));

    let wide = VecHandler::new(w(2), Address::zero(), 32);
    wide.write(&mut st, words(&[1, 2, 3])).unwrap();
    wide.write(&mut st, words(&[9])).unwrap();
    assert_eq!(wide.read(&st).unwrap(), words(&[9]));
    assert_eq!(st.load(slot_after(wide.data_slot(), 1)), w(2));
}

#[test]
fn vec_delete_clears_length_and_elements() {
    let mut st = SlotStorage::new();
    let h = VecHandler::new(w(3), Address::zero(), 4);
    h.write(&mut st, words(&[1, 2, 3, 4, 5, 6, 7, 8, 9])).unwrap();
    h.delete(&mut st).unwrap();
    assert_eq!(st.load(w(3)), U256::zero());
    assert_eq!(st.load(h.data_slot()), U256::zero());
    assert_eq!(st.load(slot_after(h.data_slot(), 1)), U256::zero());
    assert_eq!(h.read(&st).unwrap(), Vec::<U256>::new());
}

#[test]
fn vec_length_beyond_u32_is_an_overflow() {
    let mut st = SlotStorage::new();
    let h = VecHandler::new(w(6), Address::zero(), 32);
    st.store(w(6), w(u32::MAX as u64 + 1));
    let overflow = Err(BasePrecompileError::Panic(PanicKind::UnderOverflow));
    assert_eq!(h.len(&st), overflow.clone());
    assert_eq!(h.read(&st), overflow.clone().map(|_: usize| Vec::new()));
    assert_eq!(h.push(&mut st, w(1)), overflow.clone().map(|_: usize| ()));
    assert_eq!(h.pop(&mut st), overflow.clone().map(|_: usize| None));
    assert_eq!(h.delete(&mut st), overflow.map(|_: usize| ()));
    assert_eq!(st.load(w(6)), w(u32::MAX as u64 + 1));
}

#[test]
fn vec_push_fails_at_capacity() {
    let mut st = SlotStorage::new();
    let h = VecHandler::new(w(8), Address::zero(), 16);
    st.store(w(8), w((u32::MAX / 16) as u64));
    assert!(matches!(h.push(&mut st, w(1)), Err(BasePrecompileError::Fatal(_))));
    assert_eq!(st.load(w(8)), w((u32::MAX / 16) as u64));
    st.store(w(8), w((u32::MAX / 16) as u64 - 1));
    assert_eq!(h.push(&mut st, w(1)), Ok(()));
}

#[test]
fn vec_at_gives_the_element_slot_within_bounds() {
    let mut st = SlotStorage::new();
    let h = VecHandler::new(w(5), Address::zero(), 2);
    h.write(&mut st, words(&[0xaaaa, 0xbbbb])).unwrap();
    assert!(h.at(&st, 2).unwrap().is_none());
    let e = h.at(&st, 1).unwrap().unwrap();
    assert_eq!(e.slot, h.data_slot());
    assert_eq!(e.ctx, LayoutCtx::Packed(2));
    assert_eq!(e.read(&st), Ok(w(0xbbbb)));
    e.write(&mut st, w(0xcccc)).unwrap();
    assert_eq!(h.read(&st).unwrap(), words(&[0xaaaa, 0xcccc]));
    e.delete(&mut st).unwrap();
    assert_eq!(h.read(&st).unwrap(), words(&[0xaaaa, 0]));
}

#[test]
fn array_elements_start_at_the_base_slot() {
    let mut st = SlotStorage::new();
    let a = ArrayHandler::new(w(5), Address::zero(), 3, 8);
    assert_eq!(a.base_slot(), w(5));
    assert_eq!(a.len(), 3);
    assert!(!a.is_empty());
    a.write(&mut st, words(&[1, 2, 3])).unwrap();
    let word = st.load(w(5)).to_be_bytes();
    assert_eq!(word[31], 1);
    assert_eq!(word[23], 2);
    assert_eq!(word[15], 3);
    assert_eq!(a.read(&st).unwrap(), words(&[1, 2, 3]));
    assert!(a.at(3).is_none());
    assert_eq!(a.at(2).unwrap().read(&st), Ok(w(3)));
    a.delete(&mut st).unwrap();
    assert_eq!(a.read(&st).unwrap(), words(&[0, 0, 0]));
}

#[test]
fn array_of_wide_elements_uses_consecutive_slots() {
    let mut st = SlotStorage::new();
    let a = ArrayHandler::new(w(10), Address::zero(), 2, 32);
    a.write(&mut st, words(&[7, 8])).unwrap();
    assert_eq!(st.load(w(10)), w(7));
    assert_eq!(st.load(w(11)), w(8));
    assert_eq!(a.at(1).unwrap().ctx, LayoutCtx::Full);
    assert!(ArrayHandler::new(w(0), Address::zero(), 0, 1).is_empty());
}

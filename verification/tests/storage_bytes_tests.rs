use base_core::error::BasePrecompileError;
use base_core::storage::bytes_like::{delete_bytes_like, load_bytes_like, store_bytes_like};
use base_core::storage::slots::SlotStorage;
use base_core::word::U256;

#[test]
fn short_values_round_trip_in_their_base_slot() {
    let mut st = SlotStorage::new();
    let base = U256::from_u64(3);
    store_bytes_like(b"hello", &mut st, base).unwrap();
    assert_eq!(load_bytes_like(&st, base).unwrap(), b"hello".to_vec());
    let word = st.load(base).to_be_bytes();
    assert_eq!(&word[..5], b"hello");
    assert_eq!(word[31], 10);
    assert_eq!(st.load(U256::from_u64(4)), U256::zero());
}

#[test]
fn long_values_round_trip_through_their_chunks() {
    let mut st = SlotStorage::new();
    let base = U256::from_u64(7);
    let data: Vec<u8> = (0..100u8).collect();
    store_bytes_like(&data, &mut st, base).unwrap();
    assert_eq!(st.load(base), U256::from_u64(201));
    assert_eq!(load_bytes_like(&st, base).unwrap(), data);

    let exact: Vec<u8> = (0..64u8).collect();
    store_bytes_like(&exact, &mut st, U256::from_u64(9)).unwrap();
    assert_eq!(load_bytes_like(&st, U256::from_u64(9)).unwrap(), exact);
}

#[test]
fn empty_and_boundary_lengths_round_trip() {
    let mut st = SlotStorage::new();
    for len in [0usize, 1, 31, 32, 33] {
        let base = U256::from_u64(100 + len as u64);
        let data = vec![0xab; len];
        store_bytes_like(&data, &mut st, base).unwrap();
        assert_eq!(load_bytes_like(&st, base).unwrap(), data);
    }
}

#[test]
fn delete_clears_the_value() {
    let mut st = SlotStorage::new();
    let base = U256::from_u64(11);
    let data = vec![7u8; 70];
    store_bytes_like(&data, &mut st, base).unwrap();
    delete_bytes_like(&mut st, base).unwrap();
    assert_eq!(load_bytes_like(&st, base).unwrap(), Vec::<u8>::new());
    assert_eq!(st.load(base), U256::zero());
}

#[test]
fn corrupt_short_length_is_fatal() {
    let mut st = SlotStorage::new();
    let base = U256::from_u64(1);
    st.store(base, U256::from_u64(64));
    assert!(matches!(load_bytes_like(&st, base), Err(BasePrecompileError::Fatal(_))));
}

#[test]
fn long_lengths_beyond_u32_decode_when_they_fit_usize() {
    let n: u128 = 1 << 32;
    assert_eq!(base_core::storage::bytes_like::calc_string_length(U256::from_u128(2 * n + 1), true), Ok(n as usize));
    let huge: u128 = 1 << 100;
    assert_eq!(
        base_core::storage::bytes_like::calc_string_length(U256::from_u128(2 * huge + 1), true),
        Err(BasePrecompileError::Panic(base_core::error::PanicKind::UnderOverflow))
    );
    assert_eq!(base_core::storage::bytes_like::calc_string_length(U256::from_u64(10), false), Ok(5));
}

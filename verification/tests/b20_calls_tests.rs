use base_core::b20::calls::IB20Calls;

fn selector(signature: &str) -> [u8; 4] {
    let digest = alloy_primitives::keccak256(signature.as_bytes());
    [digest[0], digest[1], digest[2], digest[3]]
}

fn address_word(last: u8) -> [u8; 32] {
    let mut w = [0u8; 32];
    w[31] = last;
    w
}

fn uint_word(v: u8) -> [u8; 32] {
    let mut w = [0u8; 32];
    w[31] = v;
    w
}

fn repeat_word(b: u8) -> [u8; 32] {
    [b; 32]
}

fn encode(signature: &str, words: &[[u8; 32]]) -> Vec<u8> {
    let mut out = selector(signature).to_vec();
    for w in words {
        out.extend_from_slice(w);
    }
    out
}

/// Valid ABI-encoded calldata for every recognized B20 payment selector.
fn payment_calldatas() -> [Vec<u8>; 9] {
    let (to, from, amount, memo) = (address_word(1), address_word(2), uint_word(3), repeat_word(4));
    [
        encode("transfer(address,uint256)", &[to, amount]),
        encode("transferWithMemo(address,uint256,bytes32)", &[to, amount, memo]),
        encode("transferFrom(address,address,uint256)", &[from, to, amount]),
        encode("transferFromWithMemo(address,address,uint256,bytes32)", &[from, to, amount, memo]),
        encode("approve(address,uint256)", &[to, amount]),
        encode("mint(address,uint256)", &[to, amount]),
        encode("mintWithMemo(address,uint256,bytes32)", &[to, amount, memo]),
        encode("burn(uint256)", &[amount]),
        encode("burnWithMemo(uint256,bytes32)", &[amount, memo]),
    ]
}

/// ABI-encoded calldata for B20 selectors not recognized as payments.
fn non_payment_calldatas() -> [Vec<u8>; 3] {
    let mut data = encode("transfer(address,uint256)", &[address_word(1), uint_word(3)]);
    data[..4].copy_from_slice(&[0xde, 0xad, 0xbe, 0xef]);
    [
        encode("pause()", &[]),
        encode(
            "permit(address,address,uint256,uint256,uint8,bytes32,bytes32)",
            &[
                address_word(1),
                address_word(2),
                uint_word(3),
                uint_word(4),
                uint_word(u8::MAX),
                repeat_word(5),
                repeat_word(6),
            ],
        ),
        data,
    ]
}

#[test]
fn test_is_payment() {
    for calldata in payment_calldatas() {
        assert!(IB20Calls::is_payment(&calldata))
    }

    for calldata in non_payment_calldatas() {
        assert!(!IB20Calls::is_payment(&calldata))
    }
}

#[test]
fn payment_with_wrong_length_is_not_a_payment() {
    let mut data = encode("transfer(address,uint256)", &[address_word(1), uint_word(3)]);
    data.push(0);
    assert!(!IB20Calls::is_payment(&data));
    data.truncate(35);
    assert!(!IB20Calls::is_payment(&data));
    assert!(!IB20Calls::is_payment(&[]));
    assert!(!IB20Calls::is_payment(&selector("transfer(address,uint256)")));
}

#[test]
fn known_selectors_match_the_standard_ones() {
    assert_eq!(selector("transfer(address,uint256)"), [0xa9, 0x05, 0x9c, 0xbb]);
    assert_eq!(selector("approve(address,uint256)"), [0x09, 0x5e, 0xa7, 0xb3]);
}

use base_core::abi::PrecompileOutcome;
use base_core::b20::dispatch::{decode_b20_call, B20Call, CallEnv, DecodeFailure};
use base_core::b20::B20Token;
use base_core::b403_registry::B403Registry;
use base_core::primitives::Address;
use base_core::spec::BaseBSpec;
use base_core::word::U256;

fn token_address() -> Address {
    let mut b = [0u8; 20];
    b[0] = 0x84;
    b[1] = 0x53;
    b[19] = 0x07;
    Address::from_bytes(b)
}

fn selector(signature: &str) -> [u8; 4] {
    let digest = alloy_primitives::keccak256(signature.as_bytes());
    [digest[0], digest[1], digest[2], digest[3]]
}

fn address_word(a: Address) -> [u8; 32] {
    let mut w = [0u8; 32];
    w[12..].copy_from_slice(&a.to_bytes());
    w
}

fn uint_word(v: u128) -> [u8; 32] {
    let mut w = [0u8; 32];
    w[16..].copy_from_slice(&v.to_be_bytes());
    w
}

fn encode(signature: &str, words: &[[u8; 32]]) -> Vec<u8> {
    let mut out = selector(signature).to_vec();
    for w in words {
        out.extend_from_slice(w);
    }
    out
}

fn env() -> CallEnv {
    CallEnv { gas_limit: 1_000_000, is_static: false, timestamp: U256::from_u64(100), chain_id: 8453 }
}

fn issued_token(spec: BaseBSpec, admin: Address) -> B20Token {
    let mut t = B20Token::from_address(token_address(), spec).unwrap();
    t.initialize(admin, "Token", "TOK", "USD", admin).unwrap();
    t.grant_role(admin, B20Token::issuer_role(), admin).unwrap();
    t
}

/// The gas a call with `words` argument words reports: six per 32-byte word of calldata,
/// the selector taking one.
fn gas(words: u64) -> u64 {
    6 * (words + 1)
}

fn success(words: u64, bytes: Vec<u8>) -> PrecompileOutcome {
    PrecompileOutcome::Success(gas(words), bytes)
}

fn revert(words: u64, bytes: Vec<u8>) -> PrecompileOutcome {
    PrecompileOutcome::Revert(gas(words), bytes)
}

#[test]
fn decodes_static_arguments() {
    let to = Address::with_last_byte(9);
    let data = encode("transfer(address,uint256)", &[address_word(to), uint_word(77)]);
    match decode_b20_call(&data).unwrap() {
        B20Call::Transfer { to: t, amount } => {
            assert_eq!(t, to);
            assert_eq!(amount, U256::from_u64(77));
        }
        other => panic!("unexpected {other:?}"),
    }
    let mut policy = [0u8; 32];
    policy[24..].copy_from_slice(&0x0102_0304_0506_0708u64.to_be_bytes());
    policy[0] = 0xff;
    match decode_b20_call(&encode("changeTransferPolicyId(uint64)", &[policy])).unwrap() {
        B20Call::ChangeTransferPolicyId { new_policy_id } => {
            assert_eq!(new_policy_id, 0x0102_0304_0506_0708)
        }
        other => panic!("unexpected {other:?}"),
    }
    assert_eq!(
        decode_b20_call(&[0xde, 0xad, 0xbe, 0xef]).unwrap_err(),
        DecodeFailure::UnknownSelector
    );
    let short = encode("transfer(address,uint256)", &[address_word(to)]);
    assert_eq!(decode_b20_call(&short).unwrap_err(), DecodeFailure::Malformed);
}

#[test]
fn views_return_abi_encoded_values() {
    let admin = Address::with_last_byte(1);
    let registry = B403Registry::new(BaseBSpec::Beryl);
    let mut t = issued_token(BaseBSpec::Beryl, admin);
    t.mint(admin, admin, U256::from_u64(500), &registry).unwrap();

    let mut name = uint_word(32).to_vec();
    name.extend_from_slice(&uint_word(5));
    let mut padded = [0u8; 32];
    padded[..5].copy_from_slice(b"Token");
    name.extend_from_slice(&padded);
    assert_eq!(t.call(&registry, &encode("name()", &[]), admin, &env()), success(0, name));
    assert_eq!(t.call(&registry, &encode("decimals()", &[]), admin, &env()), success(0, uint_word(6).to_vec()));
    assert_eq!(
        t.call(&registry, &encode("balanceOf(address)", &[address_word(admin)]), admin, &env()),
        success(1, uint_word(500).to_vec())
    );
    assert_eq!(
        t.call(&registry, &encode("PAUSE_ROLE()", &[]), admin, &env()),
        success(0, alloy_primitives::keccak256(b"PAUSE_ROLE").to_vec())
    );
    assert_eq!(
        t.call(
            &registry,
            &encode("hasRole(address,bytes32)", &[address_word(admin), [0u8; 32]]),
            admin,
            &env()
        ),
        success(2, uint_word(1).to_vec())
    );
}

#[test]
fn transfers_run_through_the_dispatcher() {
    let admin = Address::with_last_byte(1);
    let bob = Address::with_last_byte(2);
    let registry = B403Registry::new(BaseBSpec::Beryl);
    let mut t = issued_token(BaseBSpec::Beryl, admin);
    t.mint(admin, admin, U256::from_u64(500), &registry).unwrap();

    let ok = t.call(
        &registry,
        &encode("transfer(address,uint256)", &[address_word(bob), uint_word(200)]),
        admin,
        &env(),
    );
    assert_eq!(ok, success(2, uint_word(1).to_vec()));
    assert_eq!(t.balance_of(bob).unwrap(), U256::from_u64(200));

    let failed = t.call(
        &registry,
        &encode("transfer(address,uint256)", &[address_word(admin), uint_word(201)]),
        bob,
        &env(),
    );
    let mut expected = selector("InsufficientBalance(uint256,uint256,address)").to_vec();
    expected.extend_from_slice(&uint_word(200));
    expected.extend_from_slice(&uint_word(201));
    expected.extend_from_slice(&address_word(token_address()));
    assert_eq!(failed, revert(2, expected));
    assert_eq!(t.balance_of(bob).unwrap(), U256::from_u64(200));

    let burn = t.call(&registry, &encode("burn(uint256)", &[uint_word(100)]), admin, &env());
    assert_eq!(burn, success(1, Vec::new()));
    assert_eq!(t.total_supply().unwrap(), U256::from_u64(400));
}

#[test]
fn static_calls_may_not_change_state() {
    let admin = Address::with_last_byte(1);
    let registry = B403Registry::new(BaseBSpec::Beryl);
    let mut t = issued_token(BaseBSpec::Beryl, admin);
    let static_env = CallEnv { is_static: true, ..env() };
    let r = t.call(&registry, &encode("pause()", &[]), admin, &static_env);
    assert_eq!(r, revert(0, selector("StaticCallNotAllowed()").to_vec()));
    assert!(!t.paused().unwrap());
    let view = t.call(&registry, &encode("paused()", &[]), admin, &static_env);
    assert_eq!(view, success(0, uint_word(0).to_vec()));
}

#[test]
fn dispatcher_rejects_bad_calldata() {
    let admin = Address::with_last_byte(1);
    let registry = B403Registry::new(BaseBSpec::Azul);
    let mut t = issued_token(BaseBSpec::Azul, admin);

    assert_eq!(t.call(&registry, &[1, 2], admin, &env()), revert(0, Vec::new()));

    let mut unknown = selector("UnknownFunctionSelector(bytes4)").to_vec();
    unknown.extend_from_slice(&[0xde, 0xad, 0xbe, 0xef]);
    unknown.extend_from_slice(&[0u8; 28]);
    assert_eq!(
        t.call(&registry, &[0xde, 0xad, 0xbe, 0xef], admin, &env()),
        revert(0, unknown)
    );

    let nonces = selector("nonces(address)");
    let mut gated = selector("UnknownFunctionSelector(bytes4)").to_vec();
    gated.extend_from_slice(&nonces);
    gated.extend_from_slice(&[0u8; 28]);
    assert_eq!(
        t.call(&registry, &encode("nonces(address)", &[address_word(admin)]), admin, &env()),
        revert(1, gated)
    );

    let short = encode("balanceOf(address)", &[]);
    assert_eq!(t.call(&registry, &short, admin, &env()), revert(0, Vec::new()));

    let no_gas = CallEnv { gas_limit: 5, ..env() };
    assert_eq!(t.call(&registry, &encode("paused()", &[]), admin, &no_gas), PrecompileOutcome::OutOfGas);
}

#[test]
fn uninitialized_tokens_reject_every_call() {
    let registry = B403Registry::new(BaseBSpec::Beryl);
    let mut t = B20Token::from_address(token_address(), BaseBSpec::Beryl).unwrap();
    assert_eq!(
        t.call(&registry, &encode("name()", &[]), Address::with_last_byte(1), &env()),
        revert(0, selector("Uninitialized()").to_vec())
    );
}

#[test]
fn unauthorized_role_changes_revert() {
    let admin = Address::with_last_byte(1);
    let other = Address::with_last_byte(2);
    let registry = B403Registry::new(BaseBSpec::Beryl);
    let mut t = issued_token(BaseBSpec::Beryl, admin);
    let role = alloy_primitives::keccak256(b"PAUSE_ROLE").0;
    let r = t.call(
        &registry,
        &encode("grantRole(bytes32,address)", &[role, address_word(other)]),
        other,
        &env(),
    );
    assert_eq!(r, revert(2, selector("Unauthorized()").to_vec()));
    let ok = t.call(
        &registry,
        &encode("grantRole(bytes32,address)", &[role, address_word(other)]),
        admin,
        &env(),
    );
    assert_eq!(ok, success(2, Vec::new()));
    assert!(t.has_role(other, B20Token::pause_role()).unwrap());
}

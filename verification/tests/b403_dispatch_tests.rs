use base_core::abi::PrecompileOutcome;
use base_core::b20::dispatch::{CallEnv, DecodeFailure};
use base_core::b403_registry::dispatch::{decode_b403_call, B403Call};
use base_core::b403_registry::{B403Registry, PolicyType};
use base_core::primitives::Address;
use base_core::spec::BaseBSpec;
use base_core::word::U256;

fn selector(signature: &str) -> [u8; 4] {
    let digest = alloy_primitives::keccak256(signature.as_bytes());
    [digest[0], digest[1], digest[2], digest[3]]
}

fn address_word(a: Address) -> [u8; 32] {
    let mut w = [0u8; 32];
    w[12..].copy_from_slice(&a.to_bytes());
    w
}

fn uint_word(v: u64) -> [u8; 32] {
    let mut w = [0u8; 32];
    w[24..].copy_from_slice(&v.to_be_bytes());
    w
}

fn encode(signature: &str, words: &[[u8; 32]]) -> Vec<u8> {
    let mut out = selector(signature).to_vec();
    for w in words {
        out.extend_from_slice(w);
    }
    out
}

fn env() -> CallEnv {
    CallEnv { gas_limit: 1_000_000, is_static: false, timestamp: U256::from_u64(100), chain_id: 8453 }
}

fn word_of(v: u64) -> Vec<u8> {
    uint_word(v).to_vec()
}

fn success(r: PrecompileOutcome) -> Vec<u8> {
    match r {
        PrecompileOutcome::Success(_, bytes) => bytes,
        other => panic!("expected success, got {other:?}"),
    }
}

/// The gas a call with calldata `data` reports: six per started 32-byte word.
fn gas_of(data: &[u8]) -> u64 {
    6 * ((data.len() as u64 + 31) / 32)
}

fn with_accounts_calldata(admin: Address, code: u64, accounts: &[Address]) -> Vec<u8> {
    let mut words = vec![address_word(admin), uint_word(code), uint_word(96), uint_word(accounts.len() as u64)];
    for a in accounts {
        words.push(address_word(*a));
    }
    encode("createPolicyWithAccounts(address,uint8,address[])", &words)
}

#[test]
fn creates_and_queries_a_whitelist_through_calldata() {
    let mut reg = B403Registry::new(BaseBSpec::Azul);
    let admin = Address::with_last_byte(1);
    let user = Address::with_last_byte(2);

    let counter = success(reg.call(&encode("policyIdCounter()", &[]), admin, &env()));
    assert_eq!(counter, word_of(2));

    let created = success(reg.call(
        &encode("createPolicy(address,uint8)", &[address_word(admin), uint_word(0)]),
        admin,
        &env(),
    ));
    assert_eq!(created, word_of(2));

    let exists = success(reg.call(&encode("policyExists(uint64)", &[uint_word(2)]), admin, &env()));
    assert_eq!(exists, word_of(1));

    let data = success(reg.call(&encode("policyData(uint64)", &[uint_word(2)]), admin, &env()));
    let mut expected = word_of(0);
    expected.extend_from_slice(&address_word(admin));
    assert_eq!(data, expected);

    let query = encode("isAuthorized(uint64,address)", &[uint_word(2), address_word(user)]);
    assert_eq!(success(reg.call(&query, admin, &env())), word_of(0));

    let add = encode(
        "modifyPolicyWhitelist(uint64,address,bool)",
        &[uint_word(2), address_word(user), uint_word(1)],
    );
    assert_eq!(success(reg.call(&add, admin, &env())), Vec::<u8>::new());
    assert_eq!(success(reg.call(&query, admin, &env())), word_of(1));
}

#[test]
fn creates_a_policy_with_accounts() {
    let mut reg = B403Registry::new(BaseBSpec::Azul);
    let admin = Address::with_last_byte(1);
    let a = Address::with_last_byte(3);
    let b = Address::with_last_byte(4);
    let data = with_accounts_calldata(admin, 1, &[a, b]);
    match decode_b403_call(&data).unwrap() {
        B403Call::CreatePolicyWithAccounts { admin: got, policy_type, accounts } => {
            assert_eq!(got, admin);
            assert_eq!(policy_type, PolicyType::Blacklist);
            assert_eq!(accounts, vec![a, b]);
        }
        other => panic!("unexpected {other:?}"),
    }
    assert_eq!(success(reg.call(&data, admin, &env())), word_of(2));
    let query = encode("isAuthorized(uint64,address)", &[uint_word(2), address_word(a)]);
    assert_eq!(success(reg.call(&query, admin, &env())), word_of(0));
}

#[test]
fn malformed_account_arrays_revert_with_empty_data() {
    let admin = Address::with_last_byte(1);
    let a = Address::with_last_byte(3);
    let mut data = with_accounts_calldata(admin, 0, &[a, a]);
    data.truncate(data.len() - 1);
    assert_eq!(decode_b403_call(&data).unwrap_err(), DecodeFailure::Malformed);
    let mut reg = B403Registry::new(BaseBSpec::Azul);
    assert_eq!(reg.call(&data, admin, &env()), PrecompileOutcome::Revert(gas_of(&data), Vec::new()));

    let mut far = with_accounts_calldata(admin, 0, &[a]);
    far[4 + 64..4 + 96].copy_from_slice(&uint_word(1_000));
    assert_eq!(decode_b403_call(&far).unwrap_err(), DecodeFailure::Malformed);

    let empty = with_accounts_calldata(admin, 0, &[]);
    match decode_b403_call(&empty).unwrap() {
        B403Call::CreatePolicyWithAccounts { accounts, .. } => assert!(accounts.is_empty()),
        other => panic!("unexpected {other:?}"),
    }
}

#[test]
fn azul_selectors_are_unknown_before_azul() {
    let mut reg = B403Registry::new(BaseBSpec::PreAzul);
    let user = Address::with_last_byte(2);
    let data = encode("isAuthorizedSender(uint64,address)", &[uint_word(1), address_word(user)]);
    let mut expected = selector("UnknownFunctionSelector(bytes4)").to_vec();
    expected.extend_from_slice(&data[..4]);
    expected.extend_from_slice(&[0u8; 28]);
    assert_eq!(reg.call(&data, user, &env()), PrecompileOutcome::Revert(gas_of(&data), expected));

    let mut azul = B403Registry::new(BaseBSpec::Azul);
    assert_eq!(success(azul.call(&data, user, &env())), word_of(1));
}

#[test]
fn static_calls_cannot_create_policies() {
    let mut reg = B403Registry::new(BaseBSpec::Azul);
    let admin = Address::with_last_byte(1);
    let mut e = env();
    e.is_static = true;
    let data = encode("createPolicy(address,uint8)", &[address_word(admin), uint_word(0)]);
    assert_eq!(
        reg.call(&data, admin, &e),
        PrecompileOutcome::Revert(gas_of(&data), selector("StaticCallNotAllowed()").to_vec())
    );
    assert_eq!(success(reg.call(&encode("policyIdCounter()", &[]), admin, &e)), word_of(2));
}

#[test]
fn short_unknown_and_out_of_gas_calls() {
    let mut reg = B403Registry::new(BaseBSpec::Azul);
    let admin = Address::with_last_byte(1);
    assert_eq!(reg.call(&[0x01, 0x02], admin, &env()), PrecompileOutcome::Revert(6, Vec::new()));
    let short = encode("policyExists(uint64)", &[]);
    assert_eq!(reg.call(&short, admin, &env()), PrecompileOutcome::Revert(6, Vec::new()));
    let mut e = env();
    e.gas_limit = 5;
    assert_eq!(reg.call(&encode("policyIdCounter()", &[]), admin, &e), PrecompileOutcome::OutOfGas);
    let unknown = [0xde, 0xad, 0xbe, 0xef];
    assert!(matches!(reg.call(&unknown, admin, &env()), PrecompileOutcome::Revert(6, b) if b.len() == 36));
}

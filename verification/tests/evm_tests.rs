use base_core::beryl::{busd_admin_for_chain, ensure_native_erc20s, is_beryl_transition, DEVNET_CHAIN_ID};
use base_core::b20::roles::default_admin_role;
use base_core::b20_factory::B20Tokens;
use base_core::bootstrap::busd_address;
use base_core::evm_factory::{
    b20_factory_address, b403_registry_address, base_b_precompile_at, BaseEvmFactory,
    BasePrecompileKind,
};
use base_core::primitives::Address;
use base_core::spec::BaseBSpec;

const BERYL_TIMESTAMP: u64 = 10;
const CHAIN_ID: u64 = 1;

#[test]
fn ensure_native_erc20s_deploys_busd_on_beryl_transition() {
    let mut tokens = B20Tokens::new(BaseBSpec::Beryl);

    ensure_native_erc20s(Some(BERYL_TIMESTAMP), BERYL_TIMESTAMP, CHAIN_ID, &mut tokens).unwrap();

    let token = tokens.get(&busd_address()).expect("BUSD should exist");
    assert!(token.is_initialized().unwrap());
    assert_eq!(token.symbol().unwrap(), "BUSD");
}

#[test]
fn ensure_native_erc20s_skips_after_beryl_transition() {
    let mut tokens = B20Tokens::new(BaseBSpec::Beryl);

    ensure_native_erc20s(Some(BERYL_TIMESTAMP), BERYL_TIMESTAMP + 2, CHAIN_ID, &mut tokens)
        .unwrap();

    assert!(tokens.get(&busd_address()).is_none());
}

#[test]
fn beryl_transition_is_the_first_active_block() {
    assert!(!is_beryl_transition(Some(10), 8));
    assert!(is_beryl_transition(Some(10), 10));
    assert!(is_beryl_transition(Some(10), 11));
    assert!(!is_beryl_transition(Some(10), 12));
    assert!(is_beryl_transition(Some(0), 0));
    assert!(!is_beryl_transition(Some(0), 2));
    assert!(!is_beryl_transition(None, 10));
}

#[test]
fn ensure_native_erc20s_uses_the_chain_admin() {
    let mut tokens = B20Tokens::new(BaseBSpec::Beryl);
    ensure_native_erc20s(Some(0), 0, DEVNET_CHAIN_ID, &mut tokens).unwrap();
    let token = tokens.get(&busd_address()).unwrap();
    assert!(token.has_role(busd_admin_for_chain(DEVNET_CHAIN_ID), default_admin_role()).unwrap());
    assert!(!token.has_role(busd_admin_for_chain(CHAIN_ID), default_admin_role()).unwrap());
}

#[test]
fn busd_admin_depends_on_the_chain() {
    let devnet = busd_admin_for_chain(84538453);
    assert_eq!(
        devnet.to_bytes(),
        [
            0x99, 0x65, 0x50, 0x7D, 0x1a, 0x55, 0xbC, 0xC2, 0x69, 0x5C, 0x58, 0xba, 0x16, 0xFB,
            0x37, 0xd8, 0x19, 0xB0, 0xA4, 0xdc
        ]
    );
    let mut proxy_admin = [0u8; 20];
    proxy_admin[0] = 0x42;
    proxy_admin[19] = 0x18;
    assert_eq!(busd_admin_for_chain(8453).to_bytes(), proxy_admin);
}

#[test]
fn base_b_precompiles_start_at_azul() {
    assert_eq!(BaseEvmFactory::base_b_precompiles(false), None);
    assert_eq!(BaseEvmFactory::base_b_precompiles(true), Some(BaseBSpec::Azul));
}

#[test]
fn precompile_lookup_prefers_system_addresses() {
    let token = Address::from_bytes([0x84, 0x53, 0, 0, 0, 0, 0, 0, 0, 0, 0, 0, 0, 0, 0, 0, 0, 0, 0x12, 0x34]);
    let plain = Address::with_last_byte(7);
    assert_eq!(base_b_precompile_at(BaseBSpec::PreAzul, &token), None);
    assert_eq!(base_b_precompile_at(BaseBSpec::PreAzul, &b20_factory_address()), None);
    assert_eq!(
        base_b_precompile_at(BaseBSpec::Azul, &b20_factory_address()),
        Some(BasePrecompileKind::B20Factory)
    );
    assert_eq!(
        base_b_precompile_at(BaseBSpec::Beryl, &b403_registry_address()),
        Some(BasePrecompileKind::B403Registry)
    );
    assert_eq!(base_b_precompile_at(BaseBSpec::Azul, &token), Some(BasePrecompileKind::B20Token));
    assert_eq!(base_b_precompile_at(BaseBSpec::Azul, &plain), None);
}

use base_core::b20::roles::default_admin_role;
use base_core::b20_factory::B20Tokens;
use base_core::bootstrap::{busd_address, B20Bootstrap};
use base_core::primitives::Address;
use base_core::spec::BaseBSpec;

#[test]
fn ensure_busd_deploys_canonical_token_once() {
    let admin = Address::with_last_byte(1);
    let mut tokens = B20Tokens::new(BaseBSpec::Beryl);

    let address = B20Bootstrap::ensure_busd(&mut tokens, admin).unwrap();
    assert_eq!(address, busd_address());

    let token = tokens.get(&busd_address()).unwrap();
    assert!(token.is_initialized().unwrap());
    assert_eq!(token.name().unwrap(), "Base USD");
    assert_eq!(token.symbol().unwrap(), "BUSD");
    assert_eq!(token.currency().unwrap(), "USD");
    assert_eq!(token.decimals().unwrap(), 6);
    assert!(token.has_role(admin, default_admin_role()).unwrap());

    let address = B20Bootstrap::ensure_busd(&mut tokens, admin).unwrap();
    assert_eq!(address, busd_address());
}

#[test]
fn busd_address_uses_reserved_protocol_range() {
    let mut lower_bytes = [0u8; 8];
    lower_bytes.copy_from_slice(&busd_address().to_bytes()[12..]);

    assert_eq!(u64::from_be_bytes(lower_bytes), 0);
}

#[test]
fn ensure_busd_leaves_an_existing_token_alone() {
    let admin = Address::with_last_byte(1);
    let other = Address::with_last_byte(9);
    let mut tokens = B20Tokens::new(BaseBSpec::Beryl);
    B20Bootstrap::ensure_busd(&mut tokens, admin).unwrap();
    B20Bootstrap::ensure_busd(&mut tokens, other).unwrap();
    let token = tokens.get(&busd_address()).unwrap();
    assert!(token.has_role(admin, default_admin_role()).unwrap());
    assert!(!token.has_role(other, default_admin_role()).unwrap());
}

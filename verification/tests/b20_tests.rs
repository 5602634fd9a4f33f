use base_core::b20::roles::{default_admin_role, ungrantable_role};
use base_core::b20::B20Token;
use base_core::b403_registry::{AuthRole, B403Registry, PolicyType};
use base_core::error::{B20Error, BasePrecompileError, RolesAuthError};
use base_core::primitives::{Address, B256};
use base_core::spec::BaseBSpec;
use base_core::word::U256;

fn token_address() -> Address {
    let mut b = [0u8; 20];
    b[0] = 0x84;
    b[1] = 0x53;
    b[19] = 0x07;
    Address::from_bytes(b)
}

fn u(v: u128) -> U256 {
    U256::from_u128(v)
}

fn issued_token(spec: BaseBSpec, admin: Address) -> B20Token {
    let mut t = B20Token::from_address(token_address(), spec).unwrap();
    t.initialize(admin, "Token", "TOK", "USD", admin).unwrap();
    t.grant_role(admin, B20Token::issuer_role(), admin).unwrap();
    t
}

#[test]
fn from_address_requires_the_b20_prefix() {
    assert!(B20Token::from_address(Address::with_last_byte(7), BaseBSpec::Beryl).is_err());
    let t = B20Token::from_address(token_address(), BaseBSpec::Beryl).unwrap();
    assert!(!t.is_initialized().unwrap());
    assert_eq!(t.total_supply().unwrap(), U256::zero());
}

#[test]
fn initialize_sets_metadata_cap_policy_and_admin() {
    let admin = Address::with_last_byte(1);
    let mut t = B20Token::from_address(token_address(), BaseBSpec::Beryl).unwrap();
    t.initialize(admin, "Token", "TOK", "USD", admin).unwrap();
    assert!(t.is_initialized().unwrap());
    assert_eq!(t.name().unwrap(), "Token");
    assert_eq!(t.symbol().unwrap(), "TOK");
    assert_eq!(t.currency().unwrap(), "USD");
    assert_eq!(t.supply_cap().unwrap(), u(u128::MAX));
    assert_eq!(t.transfer_policy_id().unwrap(), 1);
    assert!(t.has_role(admin, default_admin_role()).unwrap());
    assert_eq!(t.get_role_admin(ungrantable_role()).unwrap(), ungrantable_role());
    assert_eq!(t.get_role_admin(B20Token::issuer_role()).unwrap(), default_admin_role());
}

#[test]
fn mint_and_transfer_conserve_supply() {
    let admin = Address::with_last_byte(1);
    let alice = Address::with_last_byte(2);
    let bob = Address::with_last_byte(3);
    let registry = B403Registry::new(BaseBSpec::Beryl);
    let mut t = issued_token(BaseBSpec::Beryl, admin);
    t.mint(admin, alice, u(1000), &registry).unwrap();
    assert_eq!(t.total_supply().unwrap(), u(1000));
    assert_eq!(t.transfer(alice, bob, u(300), &registry), Ok(true));
    assert_eq!(t.balance_of(alice).unwrap(), u(700));
    assert_eq!(t.balance_of(bob).unwrap(), u(300));
    assert_eq!(t.total_supply().unwrap(), u(1000));
    assert_eq!(
        t.transfer(bob, alice, u(301), &registry),
        Err(BasePrecompileError::B20(B20Error::InsufficientBalance {
            available: u(300),
            required: u(301),
            token: token_address(),
        }))
    );
}

#[test]
fn mint_requires_the_issuer_role_and_respects_the_cap() {
    let admin = Address::with_last_byte(1);
    let alice = Address::with_last_byte(2);
    let registry = B403Registry::new(BaseBSpec::Beryl);
    let mut t = issued_token(BaseBSpec::Beryl, admin);
    assert_eq!(
        t.mint(alice, alice, u(1), &registry),
        Err(BasePrecompileError::RolesAuthError(RolesAuthError::Unauthorized))
    );
    t.set_supply_cap(admin, u(100)).unwrap();
    assert_eq!(
        t.mint(admin, alice, u(101), &registry),
        Err(BasePrecompileError::B20(B20Error::SupplyCapExceeded))
    );
    t.mint(admin, alice, u(100), &registry).unwrap();
    assert_eq!(
        t.set_supply_cap(admin, u(99)),
        Err(BasePrecompileError::B20(B20Error::InvalidSupplyCap))
    );
    assert_eq!(
        t.set_supply_cap(admin, U256::max()),
        Err(BasePrecompileError::B20(B20Error::SupplyCapExceeded))
    );
}

#[test]
fn mint_to_an_invalid_recipient_fails_from_beryl_on() {
    let admin = Address::with_last_byte(1);
    let registry = B403Registry::new(BaseBSpec::Beryl);
    let mut t = issued_token(BaseBSpec::Beryl, admin);
    assert_eq!(
        t.mint(admin, Address::zero(), u(1), &registry),
        Err(BasePrecompileError::B20(B20Error::InvalidRecipient))
    );
}

#[test]
fn burn_lowers_supply_and_balance() {
    let admin = Address::with_last_byte(1);
    let registry = B403Registry::new(BaseBSpec::Beryl);
    let mut t = issued_token(BaseBSpec::Beryl, admin);
    t.mint(admin, admin, u(50), &registry).unwrap();
    t.burn(admin, u(20)).unwrap();
    assert_eq!(t.balance_of(admin).unwrap(), u(30));
    assert_eq!(t.total_supply().unwrap(), u(30));
    t.burn_with_memo(admin, u(30), B256::repeat_byte(4)).unwrap();
    assert_eq!(t.total_supply().unwrap(), U256::zero());
}

#[test]
fn pause_blocks_transfers_until_unpaused() {
    let admin = Address::with_last_byte(1);
    let alice = Address::with_last_byte(2);
    let registry = B403Registry::new(BaseBSpec::Beryl);
    let mut t = issued_token(BaseBSpec::Beryl, admin);
    t.mint(admin, admin, u(10), &registry).unwrap();
    assert_eq!(
        t.pause(admin),
        Err(BasePrecompileError::RolesAuthError(RolesAuthError::Unauthorized))
    );
    t.grant_role(admin, B20Token::pause_role(), admin).unwrap();
    t.grant_role(admin, B20Token::unpause_role(), admin).unwrap();
    t.pause(admin).unwrap();
    assert!(t.paused().unwrap());
    assert_eq!(
        t.transfer(admin, alice, u(1), &registry),
        Err(BasePrecompileError::B20(B20Error::ContractPaused))
    );
    t.unpause(admin).unwrap();
    assert_eq!(t.transfer(admin, alice, u(1), &registry), Ok(true));
}

#[test]
fn transfer_from_spends_a_limited_allowance_only() {
    let admin = Address::with_last_byte(1);
    let spender = Address::with_last_byte(2);
    let to = Address::with_last_byte(3);
    let registry = B403Registry::new(BaseBSpec::Beryl);
    let mut t = issued_token(BaseBSpec::Beryl, admin);
    t.mint(admin, admin, u(100), &registry).unwrap();
    assert_eq!(t.approve(admin, spender, u(40)), Ok(true));
    assert_eq!(t.transfer_from(spender, admin, to, u(30), &registry), Ok(true));
    assert_eq!(t.allowance(admin, spender).unwrap(), u(10));
    assert_eq!(
        t.transfer_from(spender, admin, to, u(11), &registry),
        Err(BasePrecompileError::B20(B20Error::InsufficientAllowance))
    );
    t.approve(admin, spender, U256::max()).unwrap();
    t.transfer_from(spender, admin, to, u(50), &registry).unwrap();
    assert_eq!(t.allowance(admin, spender).unwrap(), U256::max());
    assert_eq!(t.balance_of(to).unwrap(), u(80));
}

#[test]
fn whitelist_policy_gates_transfers() {
    let admin = Address::with_last_byte(1);
    let alice = Address::with_last_byte(2);
    let bob = Address::with_last_byte(3);
    let mut registry = B403Registry::new(BaseBSpec::Beryl);
    let policy = registry.create_policy(admin, PolicyType::Whitelist, admin).unwrap();
    assert_eq!(policy, 2);
    registry.modify_policy_whitelist(admin, policy, alice, true).unwrap();
    registry.modify_policy_whitelist(admin, policy, bob, true).unwrap();
    let mut t = issued_token(BaseBSpec::Beryl, admin);
    t.mint(admin, alice, u(10), &registry).unwrap();
    t.change_transfer_policy_id(admin, policy, &registry).unwrap();
    assert_eq!(t.transfer(alice, bob, u(1), &registry), Ok(true));
    registry.modify_policy_whitelist(admin, policy, bob, false).unwrap();
    assert_eq!(
        t.transfer(alice, bob, u(1), &registry),
        Err(BasePrecompileError::B20(B20Error::PolicyForbids))
    );
    assert_eq!(
        t.change_transfer_policy_id(admin, 99, &registry),
        Err(BasePrecompileError::B20(B20Error::InvalidTransferPolicyId))
    );
}

#[test]
fn burn_blocked_needs_a_blocked_sender() {
    let admin = Address::with_last_byte(1);
    let alice = Address::with_last_byte(2);
    let mut registry = B403Registry::new(BaseBSpec::Beryl);
    let policy = registry.create_policy(admin, PolicyType::Blacklist, admin).unwrap();
    let mut t = issued_token(BaseBSpec::Beryl, admin);
    t.grant_role(admin, B20Token::burn_blocked_role(), admin).unwrap();
    t.mint(admin, alice, u(10), &registry).unwrap();
    t.change_transfer_policy_id(admin, policy, &registry).unwrap();
    assert_eq!(
        t.burn_blocked(admin, alice, u(10), &registry),
        Err(BasePrecompileError::B20(B20Error::PolicyForbids))
    );
    registry.modify_policy_blacklist(admin, policy, alice, true).unwrap();
    t.burn_blocked(admin, alice, u(10), &registry).unwrap();
    assert_eq!(t.balance_of(alice).unwrap(), U256::zero());
    assert_eq!(t.total_supply().unwrap(), U256::zero());
}

#[test]
fn ungrantable_role_cannot_be_granted() {
    let admin = Address::with_last_byte(1);
    let mut t = issued_token(BaseBSpec::Beryl, admin);
    assert_eq!(
        t.grant_role(admin, ungrantable_role(), admin),
        Err(BasePrecompileError::RolesAuthError(RolesAuthError::Unauthorized))
    );
    assert!(!t.has_role(admin, ungrantable_role()).unwrap());
}

#[test]
fn roles_are_granted_revoked_and_renounced() {
    let admin = Address::with_last_byte(1);
    let alice = Address::with_last_byte(2);
    let mut t = issued_token(BaseBSpec::Beryl, admin);
    let role = B20Token::pause_role();
    t.grant_role(admin, role, alice).unwrap();
    assert!(t.has_role(alice, role).unwrap());
    t.revoke_role(admin, role, alice).unwrap();
    assert!(!t.has_role(alice, role).unwrap());
    t.grant_role(admin, role, alice).unwrap();
    t.renounce_role(alice, role).unwrap();
    assert!(!t.has_role(alice, role).unwrap());
    assert!(t.renounce_role(alice, role).is_err());
    t.set_role_admin(admin, role, B20Token::issuer_role()).unwrap();
    assert_eq!(t.get_role_admin(role).unwrap(), B20Token::issuer_role());
    assert!(t.check_role(admin, B20Token::issuer_role()).is_ok());
}

#[test]
fn rewards_accrue_pro_rata_to_opted_in_holders() {
    let admin = Address::with_last_byte(1);
    let alice = Address::with_last_byte(2);
    let registry = B403Registry::new(BaseBSpec::Beryl);
    let mut t = issued_token(BaseBSpec::Beryl, admin);
    t.mint(admin, alice, u(1000), &registry).unwrap();
    t.mint(admin, admin, u(500), &registry).unwrap();
    assert_eq!(
        t.distribute_reward(admin, u(100), &registry),
        Err(BasePrecompileError::B20(B20Error::NoOptedInSupply))
    );
    t.set_reward_recipient(alice, alice, &registry).unwrap();
    assert_eq!(t.get_opted_in_supply().unwrap(), 1000);
    t.distribute_reward(admin, u(100), &registry).unwrap();
    assert_eq!(t.get_global_reward_per_token().unwrap(), u(100_000_000_000_000_000));
    assert_eq!(t.get_pending_rewards(alice).unwrap(), 100);
    let paid = t.claim_rewards(alice, &registry).unwrap();
    assert_eq!(paid, u(100));
    assert_eq!(t.balance_of(alice).unwrap(), u(1100));
    assert_eq!(t.get_opted_in_supply().unwrap(), 1100);
    assert_eq!(t.get_pending_rewards(alice).unwrap(), 0);
    assert_eq!(
        t.distribute_reward(admin, U256::zero(), &registry),
        Err(BasePrecompileError::B20(B20Error::InvalidAmount))
    );
}

#[test]
fn auth_roles_follow_the_hardfork() {
    assert_eq!(AuthRole::sender(BaseBSpec::PreAzul), AuthRole::Transfer);
    assert_eq!(AuthRole::sender(BaseBSpec::Azul), AuthRole::Sender);
    assert_eq!(AuthRole::recipient(BaseBSpec::Beryl), AuthRole::Recipient);
    assert_eq!(AuthRole::mint_recipient(BaseBSpec::Azul), AuthRole::MintRecipient);
    assert_eq!(AuthRole::transfer(), AuthRole::Transfer);
    assert_eq!(AuthRole::transfer_or(AuthRole::Sender, BaseBSpec::PreAzul), AuthRole::Transfer);
}

#[test]
fn registry_authorizes_built_in_and_simple_policies() {
    let admin = Address::with_last_byte(1);
    let alice = Address::with_last_byte(2);
    let mut registry = B403Registry::new(BaseBSpec::Azul);
    assert_eq!(registry.is_authorized_as(0, alice, AuthRole::Transfer), Ok(false));
    assert_eq!(registry.is_authorized_as(1, alice, AuthRole::Transfer), Ok(true));
    let black = registry.create_policy(admin, PolicyType::Blacklist, admin).unwrap();
    assert_eq!(registry.is_authorized_as(black, alice, AuthRole::Sender), Ok(true));
    registry.modify_policy_blacklist(admin, black, alice, true).unwrap();
    assert_eq!(registry.is_authorized_as(black, alice, AuthRole::Sender), Ok(false));
    assert_eq!(registry.policy_id_counter(), Ok(3));
    assert_eq!(registry.policy_exists(black), Ok(true));
    assert_eq!(registry.policy_exists(3), Ok(false));
}

#[test]
fn permit_rejects_expired_and_unsigned_permits() {
    let admin = Address::with_last_byte(1);
    let owner = Address::with_last_byte(2);
    let spender = Address::with_last_byte(3);
    let mut t = issued_token(BaseBSpec::Beryl, admin);
    let zero = B256::zero();
    assert_eq!(
        t.permit(u(10), 8453, owner, spender, u(5), u(9), 27, zero, zero),
        Err(BasePrecompileError::B20(B20Error::PermitExpired))
    );
    assert_eq!(
        t.permit(u(10), 8453, owner, spender, u(5), u(10), 0, B256::repeat_byte(1), B256::repeat_byte(2)),
        Err(BasePrecompileError::B20(B20Error::InvalidSignature))
    );
    assert_eq!(
        t.permit(u(10), 8453, owner, spender, u(5), u(10), 27, zero, zero),
        Err(BasePrecompileError::B20(B20Error::InvalidSignature))
    );
    assert_eq!(t.nonces(owner).unwrap(), U256::zero());
    assert_eq!(t.allowance(owner, spender).unwrap(), U256::zero());
}

#[test]
fn domain_separator_follows_eip712() {
    let admin = Address::with_last_byte(1);
    let t = issued_token(BaseBSpec::Beryl, admin);
    let mut encoded = Vec::new();
    encoded.extend_from_slice(
        alloy_primitives::keccak256(
            b"EIP712Domain(string name,string version,uint256 chainId,address verifyingContract)",
        )
        .as_slice(),
    );
    encoded.extend_from_slice(alloy_primitives::keccak256(b"Token").as_slice());
    encoded.extend_from_slice(alloy_primitives::keccak256(b"1").as_slice());
    let mut chain = [0u8; 32];
    chain[30] = 0x21;
    chain[31] = 0x05;
    encoded.extend_from_slice(&chain);
    encoded.extend_from_slice(&[0u8; 12]);
    encoded.extend_from_slice(&token_address().to_bytes());
    let expected = alloy_primitives::keccak256(&encoded);
    assert_eq!(t.domain_separator(8453).unwrap().to_bytes(), expected.0);
}

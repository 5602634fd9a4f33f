//! B20 token standard: Base's native fungible token.
//!
//! ERC-20-like balances, allowances and transfers with role-based access control,
//! pausability, supply caps and transfer policies of the [`B403Registry`].
//!
//! The token's storage is held in the [`B20Token`] value; the registry it consults is passed
//! to the operations that need it.

pub mod calls;
pub mod dispatch;
pub mod permit;
pub mod rewards;
pub mod roles;

use vstd::prelude::*;

use crate::address::{is_b20_prefix, spec_has_b20_prefix};
use crate::b20::rewards::UserRewardInfo;
use crate::b403_registry::{AuthRole, B403Registry};
use crate::error::{b20_err, fails_with, overflow, B20Error, BasePrecompileError, Result};
use crate::primitives::{keccak256, keccak256_digest, spec_zero_addr, zero_address, Address, B256};
use crate::b20::roles::{default_admin_role, spec_ungrantable_role, unauthorized};
use crate::spec::BaseBSpec;
use crate::storage::mapping::Mapping;
use crate::word::{self, pow_128, word_modulus, U256};

verus! {

/// `u128::MAX`, the largest supply cap.
pub fn u128_max() -> (r: U256)
    ensures
        r.value() == pow_128() - 1,
{
    U256::from_u128(u128::MAX)
}

/// The bytes `PAUSE_ROLE`.
pub open spec fn pause_role_name() -> Seq<u8> {
    seq![80u8, 65u8, 85u8, 83u8, 69u8, 95u8, 82u8, 79u8, 76u8, 69u8]
}

/// The bytes `UNPAUSE_ROLE`.
pub open spec fn unpause_role_name() -> Seq<u8> {
    seq![85u8, 78u8, 80u8, 65u8, 85u8, 83u8, 69u8, 95u8, 82u8, 79u8, 76u8, 69u8]
}

/// The bytes `ISSUER_ROLE`.
pub open spec fn issuer_role_name() -> Seq<u8> {
    seq![73u8, 83u8, 83u8, 85u8, 69u8, 82u8, 95u8, 82u8, 79u8, 76u8, 69u8]
}

/// The bytes `BURN_BLOCKED_ROLE`.
pub open spec fn burn_blocked_role_name() -> Seq<u8> {
    seq![66u8, 85u8, 82u8, 78u8, 95u8, 66u8, 76u8, 79u8, 67u8, 75u8, 69u8, 68u8, 95u8, 82u8, 79u8, 76u8, 69u8]
}

/// The role hash for pausing: `keccak256("PAUSE_ROLE")`.
pub open spec fn spec_pause_role() -> Seq<u8> {
    keccak256_digest(pause_role_name())
}

/// The role hash for unpausing: `keccak256("UNPAUSE_ROLE")`.
pub open spec fn spec_unpause_role() -> Seq<u8> {
    keccak256_digest(unpause_role_name())
}

/// The role hash for minting and burning: `keccak256("ISSUER_ROLE")`.
pub open spec fn spec_issuer_role() -> Seq<u8> {
    keccak256_digest(issuer_role_name())
}

/// The role hash for burning from blocked accounts: `keccak256("BURN_BLOCKED_ROLE")`.
pub open spec fn spec_burn_blocked_role() -> Seq<u8> {
    keccak256_digest(burn_blocked_role_name())
}

/// The default admin role (the zero hash).
pub open spec fn spec_default_admin_role() -> Seq<u8> {
    Seq::new(32, |i: int| 0u8)
}

/// Events of B20 tokens.
#[derive(Clone, Copy, Debug)]
pub enum B20Event {
    /// Tokens moved (`from` zero for mints, `to` zero for burns).
    Transfer { from: Address, to: Address, amount: U256 },
    /// An allowance was set.
    Approval { owner: Address, spender: Address, amount: U256 },
    /// Tokens were minted.
    Mint { to: Address, amount: U256 },
    /// Tokens were burned.
    Burn { from: Address, amount: U256 },
    /// Tokens were burned from a blocked account.
    BurnBlocked { from: Address, amount: U256 },
    /// A transfer carried a memo.
    TransferWithMemo { from: Address, to: Address, amount: U256, memo: B256 },
    /// The transfer policy changed.
    TransferPolicyUpdate { updater: Address, new_policy_id: u64 },
    /// The supply cap changed.
    SupplyCapUpdate { updater: Address, new_supply_cap: U256 },
    /// The token was paused or unpaused.
    PauseStateUpdate { updater: Address, is_paused: bool },
    /// A role was granted or revoked.
    RoleMembershipUpdated { role: B256, account: Address, sender: Address, has_role: bool },
    /// The admin role of a role changed.
    RoleAdminUpdated { role: B256, new_admin_role: B256, sender: Address },
    /// Rewards were distributed.
    RewardDistributed { funder: Address, amount: U256 },
    /// A holder set its reward recipient.
    RewardRecipientSet { holder: Address, recipient: Address },
}

/// The storage of a B20 token.
pub struct B20Token {
    /// The token's address.
    pub address: Address,
    /// Active hardfork.
    pub spec: BaseBSpec,
    /// Whether the token account was materialized (its code set).
    pub initialized: bool,
    /// Role membership by (account, role).
    pub roles: Mapping<(Address, B256), bool>,
    /// Admin role of each role (unset reads as the default admin role).
    pub role_admins: Mapping<B256, B256>,
    /// Token name.
    pub name: String,
    /// Token symbol.
    pub symbol: String,
    /// Currency denomination.
    pub currency: String,
    /// B403 policy governing transfers.
    pub transfer_policy_id: u64,
    /// Total supply.
    pub total_supply: U256,
    /// Balances.
    pub balances: Mapping<Address, U256>,
    /// Allowances by (owner, spender).
    pub allowances: Mapping<(Address, Address), U256>,
    /// EIP-2612 permit nonces.
    pub permit_nonces: Mapping<Address, U256>,
    /// Whether transfers are paused.
    pub paused: bool,
    /// Maximum mintable supply.
    pub supply_cap: U256,
    /// Accumulated reward per opted-in token, scaled by `ACC_PRECISION`.
    pub global_reward_per_token: U256,
    /// Total balance of holders opted into rewards.
    pub opted_in_supply: u128,
    /// Per-holder reward state.
    pub user_reward_info: Mapping<Address, UserRewardInfo>,
    /// Emitted events, oldest first.
    pub events: Vec<B20Event>,
}

/// A resolved transfer recipient: where the balance is credited, and the virtual alias that
/// was named, if any.
pub struct Recipient {
    /// The effective address where the balance is credited.
    pub target: Address,
    /// The virtual address, if one was named.
    pub virtual_addr: Option<Address>,
}

impl Recipient {
    /// A recipient with no virtual indirection.
    pub fn direct(addr: Address) -> (r: Recipient)
        ensures
            r.target == addr,
            r.virtual_addr is None,
    {
        Recipient { target: addr, virtual_addr: None }
    }

    /// Resolves a recipient; no address is virtual, so the recipient is `addr` itself.
    pub fn resolve(addr: Address) -> (r: Result<Recipient>)
        ensures
            r matches Ok(rec) && rec.target == addr && rec.virtual_addr is None,
    {
        Ok(Recipient::direct(addr))
    }

    /// Rejects the zero address and B20 token addresses as recipients.
    pub fn validate(&self) -> (r: Result<()>)
        ensures
            r is Err <==> (self.target@ == zero_address() || spec_has_b20_prefix(self.target@)),
            r matches Err(e) ==> e == b20_err(B20Error::InvalidRecipient),
    {
        if self.target.is_zero() || is_b20_prefix(&self.target) {
            return Err(BasePrecompileError::B20(B20Error::InvalidRecipient));
        }
        Ok(())
    }

    /// The primary `Transfer(from, to, amount)` event (`to` is the virtual alias if any).
    pub fn build_transfer_event(&self, from: Address, amount: U256) -> (r: B20Event)
        ensures
            r == (B20Event::Transfer {
                from,
                to: match self.virtual_addr {
                    Some(v) => v,
                    None => self.target,
                },
                amount,
            }),
    {
        let to = match self.virtual_addr {
            Some(v) => v,
            None => self.target,
        };
        B20Event::Transfer { from, to, amount }
    }

    /// The forwarding `Transfer(virtual, target, amount)` event of a virtual recipient.
    pub fn build_virtual_transfer_event(&self, amount: U256) -> (r: Option<B20Event>)
        ensures
            r == match self.virtual_addr {
                Some(v) => Some(B20Event::Transfer { from: v, to: self.target, amount }),
                None => None::<B20Event>,
            },
    {
        match self.virtual_addr {
            Some(v) => Some(B20Event::Transfer { from: v, to: self.target, amount }),
            None => None,
        }
    }
}

/// The balance change of account `a` when `amount` moves from `from` to `to` (credited only
/// when `credit` holds).
pub open spec fn moved(old: nat, a: Seq<u8>, from: Seq<u8>, to: Seq<u8>, credit: bool, amount: nat) -> int {
    old as int - (if a == from {
        amount as int
    } else {
        0
    }) + (if credit && a == to {
        amount as int
    } else {
        0
    })
}

impl B20Token {
    /// The balance of account `a`.
    pub open spec fn bal(&self, a: Seq<u8>) -> nat {
        self.balances.get(a).value()
    }

    /// The allowance that `owner` granted `spender`.
    pub open spec fn allowance_of(&self, owner: Seq<u8>, spender: Seq<u8>) -> nat {
        self.allowances.get((owner, spender)).value()
    }

    /// Whether `account` holds `role`.
    pub open spec fn holds(&self, account: Seq<u8>, role: Seq<u8>) -> bool {
        self.roles.get((account, role))
    }

    /// The token's invariant: the total supply is the sum of all balances, and stays within
    /// the supply cap, which stays below `2^128`.
    pub open spec fn wf(&self) -> bool {
        &&& spec_has_b20_prefix(self.address@)
        &&& self.total_supply.value() == self.balances.total()
        &&& self.total_supply.value() <= self.supply_cap.value()
        &&& self.supply_cap.value() < pow_128()
    }

    /// `self` holds the balances of `old` after `amount` moved from `from` to `to`; nothing is
    /// credited when `to` is the zero address, so the amount is burned.
    pub open spec fn moved_from(&self, old: &B20Token, from: Address, to: Address, amount: U256) -> bool {
        let credit = to@ != zero_address();
        &&& forall|a: Seq<u8>|
            #![trigger self.balances.get(a)]
            self.balances.get(a).value() == moved(old.bal(a), a, from@, to@, credit, amount.value())
        &&& self.balances.total() == old.balances.total() - (if credit {
            0
        } else {
            amount.value()
        })
    }

    /// `self` holds the balances of `old` with `amount` credited to `to`.
    pub open spec fn minted_to(&self, old: &B20Token, to: Address, amount: U256) -> bool {
        &&& forall|a: Seq<u8>|
            #![trigger self.balances.get(a)]
            self.balances.get(a).value() == old.bal(a) + (if a == to@ {
                amount.value()
            } else {
                0
            })
        &&& self.balances.total() == old.balances.total() + amount.value()
    }

    /// A token handle at `address` whose storage is empty.
    pub open spec fn is_fresh(&self, address: Seq<u8>, spec: BaseBSpec) -> bool {
        &&& self.address@ == address
        &&& self.spec == spec
        &&& !self.initialized
        &&& self.roles@ == Map::<(Seq<u8>, Seq<u8>), bool>::empty()
        &&& self.role_admins@ == Map::<Seq<u8>, B256>::empty()
        &&& self.name@ == Seq::<char>::empty()
        &&& self.symbol@ == Seq::<char>::empty()
        &&& self.currency@ == Seq::<char>::empty()
        &&& self.transfer_policy_id == 0
        &&& self.total_supply.value() == 0
        &&& self.balances@ == Map::<Seq<u8>, U256>::empty()
        &&& self.balances.total() == 0
        &&& self.allowances@ == Map::<(Seq<u8>, Seq<u8>), U256>::empty()
        &&& self.permit_nonces@ == Map::<Seq<u8>, U256>::empty()
        &&& !self.paused
        &&& self.supply_cap.value() == 0
        &&& self.global_reward_per_token.value() == 0
        &&& self.opted_in_supply == 0
        &&& self.user_reward_info@ == Map::<Seq<u8>, UserRewardInfo>::empty()
        &&& self.events@ == Seq::<B20Event>::empty()
    }

    /// The storage of a token at `address` before anything was written.
    fn fresh(address: Address, spec: BaseBSpec) -> (r: B20Token)
        requires
            spec_has_b20_prefix(address@),
        ensures
            r.is_fresh(address@, spec),
            r.address == address,
            r.wf(),
    {
        B20Token {
            address,
            spec,
            initialized: false,
            roles: Mapping::new(),
            role_admins: Mapping::new(),
            name: String::new(),
            symbol: String::new(),
            currency: String::new(),
            transfer_policy_id: 0,
            total_supply: U256::zero(),
            balances: Mapping::new(),
            allowances: Mapping::new(),
            permit_nonces: Mapping::new(),
            paused: false,
            supply_cap: U256::zero(),
            global_reward_per_token: U256::zero(),
            opted_in_supply: 0,
            user_reward_info: Mapping::new(),
            events: Vec::new(),
        }
    }

    /// A handle on the token at `address`, which must carry the B20 prefix.
    pub fn from_address(address: Address, spec: BaseBSpec) -> (r: Result<B20Token>)
        ensures
            r is Err <==> !spec_has_b20_prefix(address@),
            r matches Err(e) ==> e == b20_err(B20Error::InvalidToken),
            r matches Ok(t) ==> t.is_fresh(address@, spec) && t.address == address && t.wf(),
    {
        if !is_b20_prefix(&address) {
            return Err(BasePrecompileError::B20(B20Error::InvalidToken));
        }
        Ok(B20Token::fresh(address, spec))
    }

    /// A handle on the token at `address`, which the caller knows to carry the B20 prefix.
    pub fn from_address_unchecked(address: Address, spec: BaseBSpec) -> (r: B20Token)
        requires
            spec_has_b20_prefix(address@),
        ensures
            r.is_fresh(address@, spec),
            r.address == address,
            r.wf(),
    {
        B20Token::fresh(address, spec)
    }

    /// Returns the token name.
    pub fn name(&self) -> (r: Result<String>)
        ensures
            r matches Ok(s) && s@ == self.name@,
    {
        Ok(self.name.clone())
    }

    /// Returns the token symbol.
    pub fn symbol(&self) -> (r: Result<String>)
        ensures
            r matches Ok(s) && s@ == self.symbol@,
    {
        Ok(self.symbol.clone())
    }

    /// Returns the token decimals (always 6).
    pub fn decimals(&self) -> (r: Result<u8>)
        ensures
            r == Ok::<u8, BasePrecompileError>(6),
    {
        Ok(6)
    }

    /// Returns the currency denomination.
    pub fn currency(&self) -> (r: Result<String>)
        ensures
            r matches Ok(s) && s@ == self.currency@,
    {
        Ok(self.currency.clone())
    }

    /// Returns the current total supply.
    pub fn total_supply(&self) -> (r: Result<U256>)
        ensures
            r == Ok::<U256, BasePrecompileError>(self.total_supply),
    {
        Ok(self.total_supply)
    }

    /// Returns the maximum mintable supply.
    pub fn supply_cap(&self) -> (r: Result<U256>)
        ensures
            r == Ok::<U256, BasePrecompileError>(self.supply_cap),
    {
        Ok(self.supply_cap)
    }

    /// Returns whether the token is paused.
    pub fn paused(&self) -> (r: Result<bool>)
        ensures
            r == Ok::<bool, BasePrecompileError>(self.paused),
    {
        Ok(self.paused)
    }

    /// Returns the B403 transfer policy ID.
    pub fn transfer_policy_id(&self) -> (r: Result<u64>)
        ensures
            r == Ok::<u64, BasePrecompileError>(self.transfer_policy_id),
    {
        Ok(self.transfer_policy_id)
    }

    /// Returns whether the token account was materialized.
    pub fn is_initialized(&self) -> (r: Result<bool>)
        ensures
            r == Ok::<bool, BasePrecompileError>(self.initialized),
    {
        Ok(self.initialized)
    }

    /// The PAUSE_ROLE identifier, `keccak256("PAUSE_ROLE")`.
    pub fn pause_role() -> (r: B256)
        ensures
            r@ == spec_pause_role(),
    {
        let name: [u8; 10] = [80, 65, 85, 83, 69, 95, 82, 79, 76, 69];
        assert(name@ =~= pause_role_name());
        keccak256(&name)
    }

    /// The UNPAUSE_ROLE identifier, `keccak256("UNPAUSE_ROLE")`.
    pub fn unpause_role() -> (r: B256)
        ensures
            r@ == spec_unpause_role(),
    {
        let name: [u8; 12] = [85, 78, 80, 65, 85, 83, 69, 95, 82, 79, 76, 69];
        assert(name@ =~= unpause_role_name());
        keccak256(&name)
    }

    /// The ISSUER_ROLE identifier, `keccak256("ISSUER_ROLE")`.
    pub fn issuer_role() -> (r: B256)
        ensures
            r@ == spec_issuer_role(),
    {
        let name: [u8; 11] = [73, 83, 83, 85, 69, 82, 95, 82, 79, 76, 69];
        assert(name@ =~= issuer_role_name());
        keccak256(&name)
    }

    /// The BURN_BLOCKED_ROLE identifier, `keccak256("BURN_BLOCKED_ROLE")`.
    pub fn burn_blocked_role() -> (r: B256)
        ensures
            r@ == spec_burn_blocked_role(),
    {
        let name: [u8; 17] = [66, 85, 82, 78, 95, 66, 76, 79, 67, 75, 69, 68, 95, 82, 79, 76, 69];
        assert(name@ =~= burn_blocked_role_name());
        keccak256(&name)
    }

    /// Returns the balance of `account`.
    pub fn balance_of(&self, account: Address) -> (r: Result<U256>)
        ensures
            r matches Ok(b) && b == self.balances.get(account@),
    {
        Ok(self.balances.read(&account))
    }

    /// Returns the allowance that `owner` granted `spender`.
    pub fn allowance(&self, owner: Address, spender: Address) -> (r: Result<U256>)
        ensures
            r matches Ok(a) && a == self.allowances.get((owner@, spender@)),
    {
        Ok(self.allowances.read(&(owner, spender)))
    }

    /// Returns the EIP-2612 permit nonce of `owner`.
    pub fn nonces(&self, owner: Address) -> (r: Result<U256>)
        ensures
            r matches Ok(n) && n == self.permit_nonces.get(owner@),
    {
        Ok(self.permit_nonces.read(&owner))
    }

    /// Fails with `ContractPaused` when the token is paused.
    pub fn check_not_paused(&self) -> (r: Result<()>)
        ensures
            r is Err <==> self.paused,
            r matches Err(e) ==> e == b20_err(B20Error::ContractPaused),
    {
        if self.paused {
            return Err(BasePrecompileError::B20(B20Error::ContractPaused));
        }
        Ok(())
    }

    /// Checks and deducts `amount` from the caller's access-key spending limit. Base has no
    /// access keys, so nothing is limited.
    pub fn check_and_update_spending_limit(&mut self, from: Address, amount: U256) -> (r: Result<()>)
        ensures
            r is Ok,
            *final(self) == *old(self),
    {
        Ok(())
    }

    /// Core transfer: debits `from`, credits `to.target` unless it is the zero address (a
    /// burn), and emits `Transfer`.
    fn _transfer(&mut self, from: Address, to: &Recipient, amount: U256) -> (r: Result<()>)
        requires
            old(self).wf(),
            to.virtual_addr is None,
        ensures
            amount.value() > old(self).bal(from@) ==> r == Err::<(), BasePrecompileError>(
                b20_err(
                    B20Error::InsufficientBalance {
                        available: old(self).balances.get(from@),
                        required: amount,
                        token: old(self).address,
                    },
                ),
            ) && *final(self) == *old(self),
            amount.value() <= old(self).bal(from@) ==> {
                &&& r is Ok
                &&& final(self).moved_from(old(self), from, to.target, amount)
                &&& final(self).events@ == old(self).events@.push(
                    B20Event::Transfer { from, to: to.target, amount },
                )
                &&& *final(self) == (B20Token {
                    balances: final(self).balances,
                    events: final(self).events,
                    ..*old(self)
                })
            },
    {
        let from_balance = self.balances.read(&from);
        if word::lt(from_balance, amount) {
            return Err(
                BasePrecompileError::B20(
                    B20Error::insufficient_balance(from_balance, amount, self.address),
                ),
            );
        }
        let ghost b0 = self.balances;
        let new_from_balance = match word::checked_sub(from_balance, amount) {
            Some(v) => v,
            None => {
                return Err(BasePrecompileError::under_overflow());
            },
        };
        self.balances.write(from, new_from_balance);
        if !to.target.is_zero() {
            let to_balance = self.balances.read(&to.target);
            let new_to_balance = match word::checked_add(to_balance, amount) {
                Some(v) => v,
                None => {
                    return Err(BasePrecompileError::under_overflow());
                },
            };
            let ghost b1 = self.balances;
            self.balances.write(to.target, new_to_balance);
            proof {
                assert forall|a: Seq<u8>| #![trigger self.balances.get(a)]
                    self.bal(a) == moved(b0.get(a).value(), a, from@, to.target@, true, amount.value()) by {
                    if a == to.target@ {
                    } else if a == from@ {
                    } else {
                        assert(b1.get(a) == b0.get(a));
                    }
                }
            }
        } else {
            proof {
                assert forall|a: Seq<u8>| #![trigger self.balances.get(a)]
                    self.bal(a) == moved(b0.get(a).value(), a, from@, to.target@, false, amount.value()) by {
                }
            }
        }
        let ev = to.build_transfer_event(from, amount);
        self.events.push(ev);
        Ok(())
    }
}

/// The policy role checked for `t2_role` under hardfork `spec` (before Azul every check is a
/// symmetric transfer check).
pub open spec fn role_in(t2_role: AuthRole, spec: BaseBSpec) -> AuthRole {
    if spec.spec_enabled_in(BaseBSpec::Azul) {
        t2_role
    } else {
        AuthRole::Transfer
    }
}

/// Whether `to` may not receive tokens: the zero address or a token address.
pub open spec fn invalid_recipient(to: Address) -> bool {
    to@ == zero_address() || spec_has_b20_prefix(to@)
}

/// `Ok(())` when an authorization check passed, `PolicyForbids` when it failed.
pub open spec fn forbid_unless(auth: Result<bool>) -> Result<()> {
    match auth {
        Err(e) => Err(e),
        Ok(true) => Ok(()),
        Ok(false) => Err(b20_err(B20Error::PolicyForbids)),
    }
}

impl B20Token {
    /// Authorization of a transfer from `from` to `to` by the token's transfer policy. From
    /// Beryl on, a sender that fails is not followed by a recipient check.
    pub open spec fn spec_transfer_authorized(
        &self,
        registry: &B403Registry,
        from: Address,
        to: Address,
    ) -> Result<bool> {
        let pid = self.transfer_policy_id;
        match registry.spec_authorized_as(pid, from, role_in(AuthRole::Sender, self.spec)) {
            Err(e) => Err(e),
            Ok(s) => if self.spec.spec_enabled_in(BaseBSpec::Beryl) && !s {
                Ok(false)
            } else {
                match registry.spec_authorized_as(pid, to, role_in(AuthRole::Recipient, self.spec)) {
                    Err(e) => Err(e),
                    Ok(r) => Ok(s && r),
                }
            },
        }
    }

    /// The checks of a transfer: not paused, a valid recipient, authorized by the policy.
    pub open spec fn spec_validate_transfer(&self, registry: &B403Registry, from: Address, to: Address) -> Result<()> {
        if self.paused {
            Err(b20_err(B20Error::ContractPaused))
        } else if invalid_recipient(to) {
            Err(b20_err(B20Error::InvalidRecipient))
        } else {
            forbid_unless(self.spec_transfer_authorized(registry, from, to))
        }
    }

    /// The checks of a mint recipient: from Beryl on not paused and a valid recipient; always
    /// authorized as mint recipient by the policy.
    pub open spec fn spec_validate_mint(&self, registry: &B403Registry, to: Address) -> Result<()> {
        if self.spec.spec_enabled_in(BaseBSpec::Beryl) && self.paused {
            Err(b20_err(B20Error::ContractPaused))
        } else if self.spec.spec_enabled_in(BaseBSpec::Beryl) && invalid_recipient(to) {
            Err(b20_err(B20Error::InvalidRecipient))
        } else {
            forbid_unless(
                registry.spec_authorized_as(
                    self.transfer_policy_id,
                    to,
                    role_in(AuthRole::MintRecipient, self.spec),
                ),
            )
        }
    }

    /// The checks of a mint of `amount` to `to` by `sender`.
    pub open spec fn spec_mint_check(
        &self,
        registry: &B403Registry,
        sender: Address,
        to: Address,
        amount: U256,
    ) -> Result<()> {
        if !self.holds(sender@, spec_issuer_role()) {
            Err(unauthorized())
        } else {
            match self.spec_validate_mint(registry, to) {
                Err(e) => Err(e),
                Ok(_) => if self.total_supply.value() + amount.value() >= word_modulus() {
                    Err(overflow())
                } else if self.total_supply.value() + amount.value() > self.supply_cap.value() {
                    Err(b20_err(B20Error::SupplyCapExceeded))
                } else {
                    Ok(())
                },
            }
        }
    }

    /// The checks of a burn of `amount` by `sender`, which must hold `role`.
    pub open spec fn spec_burn_check(&self, sender: Address, amount: U256, role: Seq<u8>) -> Result<()> {
        if self.spec.spec_enabled_in(BaseBSpec::Beryl) && self.paused {
            Err(b20_err(B20Error::ContractPaused))
        } else if !self.holds(sender@, role) {
            Err(unauthorized())
        } else {
            Ok(())
        }
    }

    /// The insufficient balance error of a debit of `amount` from `from`.
    pub open spec fn insufficient(&self, from: Address, amount: U256) -> BasePrecompileError {
        b20_err(
            B20Error::InsufficientBalance {
                available: self.balances.get(from@),
                required: amount,
                token: self.address,
            },
        )
    }

    /// Checks pause state, validates the recipient and ensures that the transfer is authorized.
    fn validate_transfer(&self, from: Address, to: &Recipient, registry: &B403Registry) -> (r:
        Result<()>)
        ensures
            r == self.spec_validate_transfer(registry, from, to.target),
    {
        self.check_not_paused()?;
        to.validate()?;
        self.ensure_transfer_authorized(from, to.target, registry)
    }

    /// Ensures that `to` may receive minted tokens; from Beryl on also checks the pause state
    /// and the recipient.
    fn validate_mint(&self, to: &Recipient, registry: &B403Registry) -> (r: Result<()>)
        ensures
            r == self.spec_validate_mint(registry, to.target),
    {
        if self.spec.is_enabled_in(BaseBSpec::Beryl) {
            self.check_not_paused()?;
            to.validate()?;
        }
        let role = AuthRole::mint_recipient(self.spec);
        if !registry.is_authorized_as(self.transfer_policy_id, to.target, role)? {
            return Err(BasePrecompileError::B20(B20Error::policy_forbids()));
        }
        Ok(())
    }

    /// Whether the token's transfer policy authorizes a transfer from `from` to `to`; from
    /// Beryl on the recipient is not checked when the sender fails.
    pub fn is_transfer_authorized(&self, from: Address, to: Address, registry: &B403Registry) -> (r:
        Result<bool>)
        ensures
            r == self.spec_transfer_authorized(registry, from, to),
            registry.spec_authorized_as(self.transfer_policy_id, from, role_in(AuthRole::Sender, self.spec))
                == Ok::<bool, BasePrecompileError>(false) ==> r matches Err(_) || r
                == Ok::<bool, BasePrecompileError>(false),
            r == Ok::<bool, BasePrecompileError>(true) ==> registry.spec_authorized_as(
                self.transfer_policy_id,
                from,
                role_in(AuthRole::Sender, self.spec),
            ) == Ok::<bool, BasePrecompileError>(true) && registry.spec_authorized_as(
                self.transfer_policy_id,
                to,
                role_in(AuthRole::Recipient, self.spec),
            ) == Ok::<bool, BasePrecompileError>(true),
    {
        let policy_id = self.transfer_policy_id;
        let sender_auth = registry.is_authorized_as(policy_id, from, AuthRole::sender(self.spec))?;
        if self.spec.is_enabled_in(BaseBSpec::Beryl) && !sender_auth {
            return Ok(false);
        }
        let recipient_auth = registry.is_authorized_as(
            policy_id,
            to,
            AuthRole::recipient(self.spec),
        )?;
        Ok(sender_auth && recipient_auth)
    }

    /// Fails with `PolicyForbids` unless the transfer policy authorizes the transfer.
    pub fn ensure_transfer_authorized(&self, from: Address, to: Address, registry: &B403Registry) -> (r:
        Result<()>)
        ensures
            r == forbid_unless(self.spec_transfer_authorized(registry, from, to)),
    {
        if !self.is_transfer_authorized(from, to, registry)? {
            return Err(BasePrecompileError::B20(B20Error::policy_forbids()));
        }
        Ok(())
    }

    /// Mints `amount` to `to.target`: the caller must hold the issuer role, the recipient must
    /// pass the mint checks and the new supply must stay within the cap.
    fn _mint(&mut self, msg_sender: Address, to: &Recipient, amount: U256, registry: &B403Registry) -> (r:
        Result<()>)
        requires
            old(self).wf(),
            to.virtual_addr is None,
        ensures
            old(self).spec_mint_check(registry, msg_sender, to.target, amount) is Err ==> r
                == old(self).spec_mint_check(registry, msg_sender, to.target, amount)
                && *final(self) == *old(self),
            old(self).spec_mint_check(registry, msg_sender, to.target, amount) is Ok ==> {
                &&& r is Ok
                &&& final(self).total_supply.value() == old(self).total_supply.value()
                    + amount.value()
                &&& final(self).minted_to(old(self), to.target, amount)
                &&& final(self).events@ == old(self).events@.push(
                    B20Event::Transfer { from: spec_zero_addr(), to: to.target, amount },
                )
                &&& *final(self) == (B20Token {
                    total_supply: final(self).total_supply,
                    balances: final(self).balances,
                    events: final(self).events,
                    ..*old(self)
                })
            },
            final(self).wf(),
    {
        let issuer = B20Token::issuer_role();
        self.check_role(msg_sender, issuer)?;
        let total_supply = self.total_supply;
        self.validate_mint(to, registry)?;
        let new_supply = match word::checked_add(total_supply, amount) {
            Some(v) => v,
            None => {
                return Err(BasePrecompileError::under_overflow());
            },
        };
        if word::lt(self.supply_cap, new_supply) {
            return Err(BasePrecompileError::B20(B20Error::supply_cap_exceeded()));
        }
        self.total_supply = new_supply;
        let ghost b0 = self.balances;
        let to_balance = self.balances.read(&to.target);
        let new_to_balance = match word::checked_add(to_balance, amount) {
            Some(v) => v,
            None => {
                return Err(BasePrecompileError::under_overflow());
            },
        };
        self.balances.write(to.target, new_to_balance);
        proof {
            assert forall|a: Seq<u8>| #![trigger self.balances.get(a)]
                self.bal(a) == b0.get(a).value() + (if a == to.target@ { amount.value() } else { 0 }) by {
            }
        }
        let ev = to.build_transfer_event(Address::zero(), amount);
        self.events.push(ev);
        Ok(())
    }
}

impl B20Token {
    /// How the token `new` and the result `r` of [`B20Token::mint`] relate to the token
    /// `self` it was called on.
    pub open spec fn post_mint(
        &self,
        new: &B20Token,
        msg_sender: Address,
        to: Address,
        amount: U256,
        registry: &B403Registry,
        r: Result<()>,
    ) -> bool {
        &&& self.spec_mint_check(registry, msg_sender, to, amount) is Err ==> r
            == self.spec_mint_check(registry, msg_sender, to, amount) && *new
            == *self
        &&& self.spec_mint_check(registry, msg_sender, to, amount) is Ok ==> {
            &&& r is Ok
            &&& new.total_supply.value() == self.total_supply.value()
                + amount.value()
            &&& new.minted_to(self, to, amount)
            &&& new.events@ == self.events@.push(
                B20Event::Transfer { from: spec_zero_addr(), to, amount },
            ).push(B20Event::Mint { to, amount })
            &&& *new == (B20Token {
                total_supply: new.total_supply,
                balances: new.balances,
                events: new.events,
                ..*self
            })
        }
    }

    /// Mints `amount` to `to` and emits `Transfer` and `Mint`.
    ///
    /// Fails with `Unauthorized` unless the caller holds the issuer role, from Beryl on with
    /// `ContractPaused` or `InvalidRecipient`, with `PolicyForbids` when the policy rejects the
    /// recipient, and with `SupplyCapExceeded` when the supply would exceed the cap.
    pub fn mint(&mut self, msg_sender: Address, to: Address, amount: U256, registry: &B403Registry) -> (r:
        Result<()>)
        requires
            old(self).wf(),
        ensures
            final(self).wf(),
            old(self).post_mint(final(self), msg_sender, to, amount, registry, r),
    {
        let to_r = Recipient::resolve(to)?;
        self._mint(msg_sender, &to_r, amount, registry)?;
        self.events.push(B20Event::Mint { to, amount });
        if let Some(hop) = to_r.build_virtual_transfer_event(amount) {
            self.events.push(hop);
        }
        Ok(())
    }

    /// How the token `new` and the result `r` of [`B20Token::mint_with_memo`] relate to the token
    /// `self` it was called on.
    pub open spec fn post_mint_with_memo(
        &self,
        new: &B20Token,
        msg_sender: Address,
        to: Address,
        amount: U256,
        memo: B256,
        registry: &B403Registry,
        r: Result<()>,
    ) -> bool {
        &&& self.spec_mint_check(registry, msg_sender, to, amount) is Err ==> r
            == self.spec_mint_check(registry, msg_sender, to, amount) && *new
            == *self
        &&& self.spec_mint_check(registry, msg_sender, to, amount) is Ok ==> {
            &&& r is Ok
            &&& new.total_supply.value() == self.total_supply.value()
                + amount.value()
            &&& new.minted_to(self, to, amount)
            &&& new.events@ == self.events@.push(
                B20Event::Transfer { from: spec_zero_addr(), to, amount },
            ).push(B20Event::TransferWithMemo { from: spec_zero_addr(), to, amount, memo }).push(
                B20Event::Mint { to, amount },
            )
            &&& *new == (B20Token {
                total_supply: new.total_supply,
                balances: new.balances,
                events: new.events,
                ..*self
            })
        }
    }

    /// Like [`B20Token::mint`], with a memo: emits `Transfer`, `TransferWithMemo` and `Mint`.
    pub fn mint_with_memo(
        &mut self,
        msg_sender: Address,
        to: Address,
        amount: U256,
        memo: B256,
        registry: &B403Registry,
    ) -> (r: Result<()>)
        requires
            old(self).wf(),
        ensures
            final(self).wf(),
            old(self).post_mint_with_memo(final(self), msg_sender, to, amount, memo, registry, r),
    {
        let to_r = Recipient::resolve(to)?;
        self._mint(msg_sender, &to_r, amount, registry)?;
        self.events.push(B20Event::TransferWithMemo { from: Address::zero(), to, amount, memo });
        self.events.push(B20Event::Mint { to, amount });
        if let Some(hop) = to_r.build_virtual_transfer_event(amount) {
            self.events.push(hop);
        }
        Ok(())
    }

    /// Burns `amount` from `from` (which must hold it) and lowers the total supply; `role`
    /// is the role that the caller must hold.
    fn burn_from_checked(&mut self, msg_sender: Address, from: Address, amount: U256) -> (r: Result<
        (),
    >)
        requires
            old(self).wf(),
        ensures
            final(self).wf(),
            amount.value() > old(self).bal(from@) ==> r == Err::<(), BasePrecompileError>(
                old(self).insufficient(from, amount),
            ) && *final(self) == *old(self),
            amount.value() <= old(self).bal(from@) ==> {
                &&& r is Ok
                &&& final(self).total_supply.value() == old(self).total_supply.value()
                    - amount.value()
                &&& final(self).moved_from(old(self), from, spec_zero_addr(), amount)
                &&& final(self).events@ == old(self).events@.push(
                    B20Event::Transfer { from, to: spec_zero_addr(), amount },
                )
                &&& *final(self) == (B20Token {
                    total_supply: final(self).total_supply,
                    balances: final(self).balances,
                    events: final(self).events,
                    ..*old(self)
                })
            },
    {
        proof {
            old(self).balances.lemma_get_le_total(from@);
        }
        self._transfer(from, &Recipient::direct(Address::zero()), amount)?;
        let total_supply = self.total_supply;
        let new_supply = match word::checked_sub(total_supply, amount) {
            Some(v) => v,
            None => {
                return Err(
                    BasePrecompileError::B20(
                        B20Error::insufficient_balance(total_supply, amount, self.address),
                    ),
                );
            },
        };
        self.total_supply = new_supply;
        Ok(())
    }

    /// Burns `amount` from the caller, which must hold the issuer role; from Beryl on the
    /// token must not be paused.
    fn _burn(&mut self, msg_sender: Address, amount: U256) -> (r: Result<()>)
        requires
            old(self).wf(),
        ensures
            final(self).wf(),
            old(self).spec_burn_check(msg_sender, amount, spec_issuer_role()) is Err ==> r
                == old(self).spec_burn_check(msg_sender, amount, spec_issuer_role())
                && *final(self) == *old(self),
            old(self).spec_burn_check(msg_sender, amount, spec_issuer_role()) is Ok
                && amount.value() > old(self).bal(msg_sender@) ==> r == Err::<
                (),
                BasePrecompileError,
            >(old(self).insufficient(msg_sender, amount)) && *final(self) == *old(self),
            old(self).spec_burn_check(msg_sender, amount, spec_issuer_role()) is Ok
                && amount.value() <= old(self).bal(msg_sender@) ==> {
                &&& r is Ok
                &&& final(self).total_supply.value() == old(self).total_supply.value()
                    - amount.value()
                &&& final(self).moved_from(old(self), msg_sender, spec_zero_addr(), amount)
                &&& final(self).events@ == old(self).events@.push(
                    B20Event::Transfer { from: msg_sender, to: spec_zero_addr(), amount },
                )
                &&& *final(self) == (B20Token {
                    total_supply: final(self).total_supply,
                    balances: final(self).balances,
                    events: final(self).events,
                    ..*old(self)
                })
            },
    {
        if self.spec.is_enabled_in(BaseBSpec::Beryl) {
            self.check_not_paused()?;
        }
        let issuer = B20Token::issuer_role();
        self.check_role(msg_sender, issuer)?;
        self.burn_from_checked(msg_sender, msg_sender, amount)
    }

    /// How the token `new` and the result `r` of [`B20Token::burn`] relate to the token
    /// `self` it was called on.
    pub open spec fn post_burn(
        &self,
        new: &B20Token,
        msg_sender: Address,
        amount: U256,
        r: Result<()>,
    ) -> bool {
        &&& self.spec_burn_check(msg_sender, amount, spec_issuer_role()) is Err ==> r
            == self.spec_burn_check(msg_sender, amount, spec_issuer_role())
            && *new == *self
        &&& self.spec_burn_check(msg_sender, amount, spec_issuer_role()) is Ok
            && amount.value() > self.bal(msg_sender@) ==> r == Err::<
            (),
            BasePrecompileError,
        >(self.insufficient(msg_sender, amount)) && *new == *self
        &&& self.spec_burn_check(msg_sender, amount, spec_issuer_role()) is Ok
            && amount.value() <= self.bal(msg_sender@) ==> {
            &&& r is Ok
            &&& new.total_supply.value() == self.total_supply.value()
                - amount.value()
            &&& new.moved_from(self, msg_sender, spec_zero_addr(), amount)
            &&& new.events@ == self.events@.push(
                B20Event::Transfer { from: msg_sender, to: spec_zero_addr(), amount },
            ).push(B20Event::Burn { from: msg_sender, amount })
            &&& *new == (B20Token {
                total_supply: new.total_supply,
                balances: new.balances,
                events: new.events,
                ..*self
            })
        }
    }

    /// Burns `amount` from the caller's balance and emits `Transfer` and `Burn`.
    pub fn burn(&mut self, msg_sender: Address, amount: U256) -> (r: Result<()>)
        requires
            old(self).wf(),
        ensures
            final(self).wf(),
            old(self).post_burn(final(self), msg_sender, amount, r),
    {
        self._burn(msg_sender, amount)?;
        self.events.push(B20Event::Burn { from: msg_sender, amount });
        Ok(())
    }

    /// How the token `new` and the result `r` of [`B20Token::burn_with_memo`] relate to the token
    /// `self` it was called on.
    pub open spec fn post_burn_with_memo(
        &self,
        new: &B20Token,
        msg_sender: Address,
        amount: U256,
        memo: B256,
        r: Result<()>,
    ) -> bool {
        &&& self.spec_burn_check(msg_sender, amount, spec_issuer_role()) is Err ==> r
            == self.spec_burn_check(msg_sender, amount, spec_issuer_role())
            && *new == *self
        &&& self.spec_burn_check(msg_sender, amount, spec_issuer_role()) is Ok
            && amount.value() > self.bal(msg_sender@) ==> r == Err::<
            (),
            BasePrecompileError,
        >(self.insufficient(msg_sender, amount)) && *new == *self
        &&& self.spec_burn_check(msg_sender, amount, spec_issuer_role()) is Ok
            && amount.value() <= self.bal(msg_sender@) ==> {
            &&& r is Ok
            &&& new.total_supply.value() == self.total_supply.value()
                - amount.value()
            &&& new.moved_from(self, msg_sender, spec_zero_addr(), amount)
            &&& new.events@ == self.events@.push(
                B20Event::Transfer { from: msg_sender, to: spec_zero_addr(), amount },
            ).push(
                B20Event::TransferWithMemo { from: msg_sender, to: spec_zero_addr(), amount, memo },
            ).push(B20Event::Burn { from: msg_sender, amount })
            &&& *new == (B20Token {
                total_supply: new.total_supply,
                balances: new.balances,
                events: new.events,
                ..*self
            })
        }
    }

    /// Like [`B20Token::burn`], with a memo: emits `Transfer`, `TransferWithMemo` and `Burn`.
    pub fn burn_with_memo(&mut self, msg_sender: Address, amount: U256, memo: B256) -> (r: Result<
        (),
    >)
        requires
            old(self).wf(),
        ensures
            final(self).wf(),
            old(self).post_burn_with_memo(final(self), msg_sender, amount, memo, r),
    {
        self._burn(msg_sender, amount)?;
        self.events.push(
            B20Event::TransferWithMemo { from: msg_sender, to: Address::zero(), amount, memo },
        );
        self.events.push(B20Event::Burn { from: msg_sender, amount });
        Ok(())
    }

    /// The checks of burning from a blocked account: from Beryl on not paused, the caller
    /// holds the burn-blocked role, and the policy does not authorize `from` as a sender.
    pub open spec fn spec_burn_blocked_check(&self, registry: &B403Registry, sender: Address, from: Address) -> Result<()> {
        match self.spec_burn_check(sender, U256::spec_zero_word(), spec_burn_blocked_role()) {
            Err(e) => Err(e),
            Ok(_) => match registry.spec_authorized_as(
                self.transfer_policy_id,
                from,
                role_in(AuthRole::Sender, self.spec),
            ) {
                Err(e) => Err(e),
                Ok(true) => Err(b20_err(B20Error::PolicyForbids)),
                Ok(false) => Ok(()),
            },
        }
    }

    /// How the token `new` and the result `r` of [`B20Token::burn_blocked`] relate to the token
    /// `self` it was called on.
    pub open spec fn post_burn_blocked(
        &self,
        new: &B20Token,
        msg_sender: Address,
        from: Address,
        amount: U256,
        registry: &B403Registry,
        r: Result<()>,
    ) -> bool {
        &&& self.spec_burn_blocked_check(registry, msg_sender, from) is Err ==> r
            == self.spec_burn_blocked_check(registry, msg_sender, from) && *new
            == *self
        &&& self.spec_burn_blocked_check(registry, msg_sender, from) is Ok && amount.value()
            > self.bal(from@) ==> r == Err::<(), BasePrecompileError>(
            self.insufficient(from, amount),
        ) && *new == *self
        &&& self.spec_burn_blocked_check(registry, msg_sender, from) is Ok && amount.value()
            <= self.bal(from@) ==> {
            &&& r is Ok
            &&& new.total_supply.value() == self.total_supply.value()
                - amount.value()
            &&& new.moved_from(self, from, spec_zero_addr(), amount)
            &&& new.events@ == self.events@.push(
                B20Event::Transfer { from, to: spec_zero_addr(), amount },
            ).push(B20Event::BurnBlocked { from, amount })
            &&& *new == (B20Token {
                total_supply: new.total_supply,
                balances: new.balances,
                events: new.events,
                ..*self
            })
        }
    }

    /// Burns `amount` from `from`, an account that the transfer policy blocks from sending,
    /// and emits `Transfer` and `BurnBlocked`.
    pub fn burn_blocked(&mut self, msg_sender: Address, from: Address, amount: U256, registry: &B403Registry) -> (r:
        Result<()>)
        requires
            old(self).wf(),
        ensures
            final(self).wf(),
            old(self).post_burn_blocked(final(self), msg_sender, from, amount, registry, r),
    {
        if self.spec.is_enabled_in(BaseBSpec::Beryl) {
            self.check_not_paused()?;
        }
        let role = B20Token::burn_blocked_role();
        self.check_role(msg_sender, role)?;
        let policy_id = self.transfer_policy_id;
        if registry.is_authorized_as(policy_id, from, AuthRole::sender(self.spec))? {
            return Err(BasePrecompileError::B20(B20Error::policy_forbids()));
        }
        self.burn_from_checked(msg_sender, from, amount)?;
        self.events.push(B20Event::BurnBlocked { from, amount });
        Ok(())
    }

    /// How the token `new` and the result `r` of [`B20Token::approve`] relate to the token
    /// `self` it was called on.
    pub open spec fn post_approve(
        &self,
        new: &B20Token,
        msg_sender: Address,
        spender: Address,
        amount: U256,
        r: Result<bool>,
    ) -> bool {
        &&& r == Ok::<bool, BasePrecompileError>(true)
        &&& new.allowances@ == self.allowances@.insert((msg_sender@, spender@), amount)
        &&& new.events@ == self.events@.push(
            B20Event::Approval { owner: msg_sender, spender, amount },
        )
        &&& *new == (B20Token {
            allowances: new.allowances,
            events: new.events,
            ..*self
        })
    }

    /// Sets the allowance of `spender` over the caller's tokens to `amount`, emits
    /// `Approval` and returns `true`.
    pub fn approve(&mut self, msg_sender: Address, spender: Address, amount: U256) -> (r: Result<
        bool,
    >)
        requires
            old(self).wf(),
        ensures
            final(self).wf(),
            old(self).post_approve(final(self), msg_sender, spender, amount, r),
    {
        self.set_allowance(msg_sender, spender, amount);
        self.events.push(B20Event::Approval { owner: msg_sender, spender, amount });
        Ok(true)
    }

    fn set_allowance(&mut self, owner: Address, spender: Address, amount: U256)
        ensures
            final(self).allowances@ == old(self).allowances@.insert((owner@, spender@), amount),
            *final(self) == (B20Token { allowances: final(self).allowances, ..*old(self) }),
    {
        self.allowances.write((owner, spender), amount);
    }
}

/// `Ok(true)` for a passed check, its error otherwise.
pub open spec fn bool_result(r: Result<()>) -> Result<bool> {
    match r {
        Ok(_) => Ok(true),
        Err(e) => Err(e),
    }
}

impl B20Token {
    /// The result of a transfer of `amount` from `from` to `to`: the transfer checks, then
    /// `InsufficientBalance`.
    pub open spec fn spec_transfer_result(&self, registry: &B403Registry, from: Address, to: Address, amount: U256) -> Result<()> {
        match self.spec_validate_transfer(registry, from, to) {
            Err(e) => Err(e),
            Ok(_) => if amount.value() > self.bal(from@) {
                Err(self.insufficient(from, amount))
            } else {
                Ok(())
            },
        }
    }

    /// `t` is this token after a transfer of `amount` from `from` to `to`: unchanged when the
    /// transfer fails; otherwise the amount moved and a `Transfer` event was emitted.
    pub open spec fn transfer_outcome(&self, t: B20Token, registry: &B403Registry, from: Address, to: Address, amount: U256) -> bool {
        match self.spec_transfer_result(registry, from, to, amount) {
            Err(_) => t == *self,
            Ok(_) => {
                &&& t.moved_from(self, from, to, amount)
                &&& t.events@ == self.events@.push(B20Event::Transfer { from, to, amount })
                &&& t == (B20Token { balances: t.balances, events: t.events, ..*self })
            },
        }
    }
}

impl B20Token {
    /// How the token `new` and the result `r` of [`B20Token::transfer`] relate to the token
    /// `self` it was called on.
    pub open spec fn post_transfer(
        &self,
        new: &B20Token,
        msg_sender: Address,
        to: Address,
        amount: U256,
        registry: &B403Registry,
        r: Result<bool>,
    ) -> bool {
        &&& r == bool_result(self.spec_transfer_result(registry, msg_sender, to, amount))
        &&& self.transfer_outcome(*new, registry, msg_sender, to, amount)
    }

    /// Transfers `amount` from the caller to `to`, emits `Transfer` and returns `true`.
    ///
    /// Fails with `ContractPaused`, `InvalidRecipient`, `PolicyForbids` (or the registry's
    /// error) as [`B20Token::spec_validate_transfer`] says, then with `InsufficientBalance`.
    pub fn transfer(&mut self, msg_sender: Address, to: Address, amount: U256, registry: &B403Registry) -> (r:
        Result<bool>)
        requires
            old(self).wf(),
        ensures
            final(self).wf(),
            old(self).post_transfer(final(self), msg_sender, to, amount, registry, r),
    {
        let to_r = Recipient::resolve(to)?;
        self.validate_transfer(msg_sender, &to_r, registry)?;
        self.check_and_update_spending_limit(msg_sender, amount)?;
        self._transfer(msg_sender, &to_r, amount)?;
        if let Some(hop) = to_r.build_virtual_transfer_event(amount) {
            self.events.push(hop);
        }
        Ok(true)
    }

    /// How the token `new` and the result `r` of [`B20Token::transfer_with_memo`] relate to the token
    /// `self` it was called on.
    pub open spec fn post_transfer_with_memo(
        &self,
        new: &B20Token,
        msg_sender: Address,
        to: Address,
        amount: U256,
        memo: B256,
        registry: &B403Registry,
        r: Result<()>,
    ) -> bool {
        &&& self.spec_validate_transfer(registry, msg_sender, to) is Err ==> r == self.spec_validate_transfer(registry, msg_sender, to) && *new == *self
        &&& self.spec_validate_transfer(registry, msg_sender, to) is Ok && amount.value()
            > self.bal(msg_sender@) ==> r == Err::<(), BasePrecompileError>(
            self.insufficient(msg_sender, amount),
        ) && *new == *self
        &&& self.spec_validate_transfer(registry, msg_sender, to) is Ok && amount.value()
            <= self.bal(msg_sender@) ==> {
            &&& r is Ok
            &&& new.moved_from(self, msg_sender, to, amount)
            &&& new.events@ == self.events@.push(
                B20Event::Transfer { from: msg_sender, to, amount },
            ).push(B20Event::TransferWithMemo { from: msg_sender, to, amount, memo })
            &&& *new == (B20Token {
                balances: new.balances,
                events: new.events,
                ..*self
            })
        }
    }

    /// Like [`B20Token::transfer`], with a memo: emits `Transfer` and `TransferWithMemo`.
    pub fn transfer_with_memo(
        &mut self,
        msg_sender: Address,
        to: Address,
        amount: U256,
        memo: B256,
        registry: &B403Registry,
    ) -> (r: Result<()>)
        requires
            old(self).wf(),
        ensures
            final(self).wf(),
            old(self).post_transfer_with_memo(final(self), msg_sender, to, amount, memo, registry, r),
    {
        let to_r = Recipient::resolve(to)?;
        self.validate_transfer(msg_sender, &to_r, registry)?;
        self.check_and_update_spending_limit(msg_sender, amount)?;
        self._transfer(msg_sender, &to_r, amount)?;
        self.events.push(B20Event::TransferWithMemo { from: msg_sender, to, amount, memo });
        if let Some(hop) = to_r.build_virtual_transfer_event(amount) {
            self.events.push(hop);
        }
        Ok(())
    }

    /// Transfers `amount` from `from` to `to` without an allowance, for other precompiles
    /// only; the same checks as [`B20Token::transfer`] apply to `from`.
    pub fn system_transfer_from(&mut self, from: Address, to: Address, amount: U256, registry: &B403Registry) -> (r:
        Result<bool>)
        requires
            old(self).wf(),
        ensures
            final(self).wf(),
            r == bool_result(old(self).spec_transfer_result(registry, from, to, amount)),
            old(self).transfer_outcome(*final(self), registry, from, to, amount),
    {
        let to_r = Recipient::resolve(to)?;
        self.validate_transfer(from, &to_r, registry)?;
        self.check_and_update_spending_limit(from, amount)?;
        self._transfer(from, &to_r, amount)?;
        if let Some(hop) = to_r.build_virtual_transfer_event(amount) {
            self.events.push(hop);
        }
        Ok(true)
    }

    /// The allowances after `spender` spent `amount` of what `owner` allowed it: an unlimited
    /// allowance (`2^256 - 1`) stays unlimited, another one is lowered by `amount`.
    pub open spec fn spent_allowance(&self, owner: Address, spender: Address, amount: U256) -> Map<
        (Seq<u8>, Seq<u8>),
        U256,
    > {
        let allowed = self.allowances.get((owner@, spender@));
        if allowed.value() == word_modulus() - 1 {
            self.allowances@
        } else {
            self.allowances@.insert(
                (owner@, spender@),
                U256::from_value((allowed.value() - amount.value()) as nat),
            )
        }
    }

    /// Transfers `amount` from `from` to `to` on the caller's allowance. The allowance is
    /// spent before the balance is checked, so a failed debit leaves it spent.
    fn _transfer_from(
        &mut self,
        msg_sender: Address,
        from: Address,
        to: &Recipient,
        amount: U256,
        registry: &B403Registry,
    ) -> (r: Result<bool>)
        requires
            old(self).wf(),
            to.virtual_addr is None,
        ensures
            final(self).wf(),
            old(self).spec_validate_transfer(registry, from, to.target) is Err ==> fails_with(r, old(self).spec_validate_transfer(registry, from, to.target)) && *final(self) == *old(self),
            old(self).spec_validate_transfer(registry, from, to.target) is Ok && amount.value()
                > old(self).allowance_of(from@, msg_sender@) ==> r == Err::<
                bool,
                BasePrecompileError,
            >(b20_err(B20Error::InsufficientAllowance)) && *final(self) == *old(self),
            old(self).spec_validate_transfer(registry, from, to.target) is Ok && amount.value()
                <= old(self).allowance_of(from@, msg_sender@) ==> {
                &&& final(self).allowances@ == old(self).spent_allowance(from, msg_sender, amount)
                &&& amount.value() > old(self).bal(from@) ==> {
                    &&& r == Err::<bool, BasePrecompileError>(old(self).insufficient(from, amount))
                    &&& *final(self) == (B20Token {
                        allowances: final(self).allowances,
                        ..*old(self)
                    })
                }
                &&& amount.value() <= old(self).bal(from@) ==> {
                    &&& r == Ok::<bool, BasePrecompileError>(true)
                    &&& final(self).moved_from(old(self), from, to.target, amount)
                    &&& final(self).events@ == old(self).events@.push(
                        B20Event::Transfer { from, to: to.target, amount },
                    )
                    &&& *final(self) == (B20Token {
                        allowances: final(self).allowances,
                        balances: final(self).balances,
                        events: final(self).events,
                        ..*old(self)
                    })
                }
            },
    {
        self.validate_transfer(from, to, registry)?;
        let allowed = self.allowances.read(&(from, msg_sender));
        if word::lt(allowed, amount) {
            return Err(BasePrecompileError::B20(B20Error::insufficient_allowance()));
        }
        if !word::eq(allowed, U256::max()) {
            let new_allowance = match word::checked_sub(allowed, amount) {
                Some(v) => v,
                None => {
                    return Err(BasePrecompileError::B20(B20Error::insufficient_allowance()));
                },
            };
            proof {
                word::lemma_word_of_value(new_allowance);
            }
            self.set_allowance(from, msg_sender, new_allowance);
        }
        self._transfer(from, to, amount)?;
        Ok(true)
    }
}

impl B20Token {
    /// How the token `new` and the result `r` of [`B20Token::transfer_from`] relate to the token
    /// `self` it was called on.
    pub open spec fn post_transfer_from(
        &self,
        new: &B20Token,
        msg_sender: Address,
        from: Address,
        to: Address,
        amount: U256,
        registry: &B403Registry,
        r: Result<bool>,
    ) -> bool {
        &&& self.spec_validate_transfer(registry, from, to) is Err ==> fails_with(
            r,
            self.spec_validate_transfer(registry, from, to),
        ) && *new == *self
        &&& self.spec_validate_transfer(registry, from, to) is Ok && amount.value() > self.allowance_of(from@, msg_sender@) ==> r == Err::<bool, BasePrecompileError>(
            b20_err(B20Error::InsufficientAllowance),
        ) && *new == *self
        &&& self.spec_validate_transfer(registry, from, to) is Ok && amount.value() <= self.allowance_of(from@, msg_sender@) ==> {
            &&& new.allowances@ == self.spent_allowance(from, msg_sender, amount)
            &&& amount.value() > self.bal(from@) ==> {
                &&& r == Err::<bool, BasePrecompileError>(self.insufficient(from, amount))
                &&& *new == (B20Token {
                    allowances: new.allowances,
                    ..*self
                })
            }
            &&& amount.value() <= self.bal(from@) ==> {
                &&& r == Ok::<bool, BasePrecompileError>(true)
                &&& new.moved_from(self, from, to, amount)
                &&& new.events@ == self.events@.push(
                    B20Event::Transfer { from, to, amount },
                )
                &&& *new == (B20Token {
                    allowances: new.allowances,
                    balances: new.balances,
                    events: new.events,
                    ..*self
                })
            }
        }
    }

    /// Transfers `amount` from `from` to `to` on the caller's allowance, emits `Transfer` and
    /// returns `true`. An unlimited allowance (`2^256 - 1`) is not lowered.
    ///
    /// Fails as [`B20Token::spec_validate_transfer`] says for `from`, then with
    /// `InsufficientAllowance`, then with `InsufficientBalance` (the allowance already spent).
    pub fn transfer_from(
        &mut self,
        msg_sender: Address,
        from: Address,
        to: Address,
        amount: U256,
        registry: &B403Registry,
    ) -> (r: Result<bool>)
        requires
            old(self).wf(),
        ensures
            final(self).wf(),
            old(self).post_transfer_from(final(self), msg_sender, from, to, amount, registry, r),
    {
        let to_r = Recipient::resolve(to)?;
        self._transfer_from(msg_sender, from, &to_r, amount, registry)?;
        if let Some(hop) = to_r.build_virtual_transfer_event(amount) {
            self.events.push(hop);
        }
        Ok(true)
    }

    /// How the token `new` and the result `r` of [`B20Token::transfer_from_with_memo`] relate to the token
    /// `self` it was called on.
    pub open spec fn post_transfer_from_with_memo(
        &self,
        new: &B20Token,
        msg_sender: Address,
        from: Address,
        to: Address,
        amount: U256,
        memo: B256,
        registry: &B403Registry,
        r: Result<bool>,
    ) -> bool {
        &&& self.spec_validate_transfer(registry, from, to) is Err ==> fails_with(
            r,
            self.spec_validate_transfer(registry, from, to),
        ) && *new == *self
        &&& self.spec_validate_transfer(registry, from, to) is Ok && amount.value() > self.allowance_of(from@, msg_sender@) ==> r == Err::<bool, BasePrecompileError>(
            b20_err(B20Error::InsufficientAllowance),
        ) && *new == *self
        &&& self.spec_validate_transfer(registry, from, to) is Ok && amount.value() <= self.allowance_of(from@, msg_sender@) ==> {
            &&& new.allowances@ == self.spent_allowance(from, msg_sender, amount)
            &&& amount.value() > self.bal(from@) ==> {
                &&& r == Err::<bool, BasePrecompileError>(self.insufficient(from, amount))
                &&& *new == (B20Token {
                    allowances: new.allowances,
                    ..*self
                })
            }
            &&& amount.value() <= self.bal(from@) ==> {
                &&& r == Ok::<bool, BasePrecompileError>(true)
                &&& new.moved_from(self, from, to, amount)
                &&& new.events@ == self.events@.push(
                    B20Event::Transfer { from, to, amount },
                ).push(
                    B20Event::TransferWithMemo { from, to, amount, memo },
                )
                &&& *new == (B20Token {
                    allowances: new.allowances,
                    balances: new.balances,
                    events: new.events,
                    ..*self
                })
            }
        }
    }

    /// Like [`B20Token::transfer_from`], with a memo: emits `Transfer` and `TransferWithMemo`.
    pub fn transfer_from_with_memo(
        &mut self,
        msg_sender: Address,
        from: Address,
        to: Address,
        amount: U256,
        memo: B256,
        registry: &B403Registry,
    ) -> (r: Result<bool>)
        requires
            old(self).wf(),
        ensures
            final(self).wf(),
            old(self).post_transfer_from_with_memo(final(self), msg_sender, from, to, amount, memo, registry, r),
    {
        let to_r = Recipient::resolve(to)?;
        self._transfer_from(msg_sender, from, &to_r, amount, registry)?;
        self.events.push(B20Event::TransferWithMemo { from, to, amount, memo });
        if let Some(hop) = to_r.build_virtual_transfer_event(amount) {
            self.events.push(hop);
        }
        Ok(true)
    }

    /// How the token `new` and the result `r` of [`B20Token::change_transfer_policy_id`] relate to the token
    /// `self` it was called on.
    pub open spec fn post_change_transfer_policy_id(
        &self,
        new: &B20Token,
        msg_sender: Address,
        new_policy_id: u64,
        registry: &B403Registry,
        r: Result<()>,
    ) -> bool {
        &&& !self.holds(msg_sender@, spec_default_admin_role()) ==> r == Err::<
            (),
            BasePrecompileError,
        >(unauthorized()) && *new == *self
        &&& self.holds(msg_sender@, spec_default_admin_role())
            && !registry.spec_policy_exists(new_policy_id) ==> r == Err::<
            (),
            BasePrecompileError,
        >(b20_err(B20Error::InvalidTransferPolicyId)) && *new == *self
        &&& self.holds(msg_sender@, spec_default_admin_role()) && registry.spec_policy_exists(
            new_policy_id,
        ) ==> {
            &&& r is Ok
            &&& new.events@ == self.events@.push(
                B20Event::TransferPolicyUpdate { updater: msg_sender, new_policy_id },
            )
            &&& *new == (B20Token {
                transfer_policy_id: new_policy_id,
                events: new.events,
                ..*self
            })
        }
    }

    /// Makes `new_policy_id` the transfer policy; the caller must hold the default admin role
    /// and the policy must exist in the registry.
    pub fn change_transfer_policy_id(
        &mut self,
        msg_sender: Address,
        new_policy_id: u64,
        registry: &B403Registry,
    ) -> (r: Result<()>)
        requires
            old(self).wf(),
        ensures
            final(self).wf(),
            old(self).post_change_transfer_policy_id(final(self), msg_sender, new_policy_id, registry, r),
    {
        self.check_role(msg_sender, default_admin_role())?;
        if !registry.policy_exists(new_policy_id)? {
            return Err(BasePrecompileError::B20(B20Error::invalid_transfer_policy_id()));
        }
        self.transfer_policy_id = new_policy_id;
        self.events.push(B20Event::TransferPolicyUpdate { updater: msg_sender, new_policy_id });
        Ok(())
    }

    /// How the token `new` and the result `r` of [`B20Token::set_supply_cap`] relate to the token
    /// `self` it was called on.
    pub open spec fn post_set_supply_cap(
        &self,
        new: &B20Token,
        msg_sender: Address,
        new_supply_cap: U256,
        r: Result<()>,
    ) -> bool {
        &&& !self.holds(msg_sender@, spec_default_admin_role()) ==> r == Err::<
            (),
            BasePrecompileError,
        >(unauthorized()) && *new == *self
        &&& self.holds(msg_sender@, spec_default_admin_role()) && new_supply_cap.value()
            < self.total_supply.value() ==> r == Err::<(), BasePrecompileError>(
            b20_err(B20Error::InvalidSupplyCap),
        ) && *new == *self
        &&& self.holds(msg_sender@, spec_default_admin_role()) && new_supply_cap.value()
            >= self.total_supply.value() && new_supply_cap.value() >= pow_128()
            ==> r == Err::<(), BasePrecompileError>(b20_err(B20Error::SupplyCapExceeded))
            && *new == *self
        &&& self.holds(msg_sender@, spec_default_admin_role()) && new_supply_cap.value()
            >= self.total_supply.value() && new_supply_cap.value() < pow_128() ==> {
            &&& r is Ok
            &&& new.events@ == self.events@.push(
                B20Event::SupplyCapUpdate { updater: msg_sender, new_supply_cap },
            )
            &&& *new == (B20Token {
                supply_cap: new_supply_cap,
                events: new.events,
                ..*self
            })
        }
    }

    /// Sets the supply cap; the caller must hold the default admin role, and the cap must be
    /// at least the total supply and at most `u128::MAX`.
    pub fn set_supply_cap(&mut self, msg_sender: Address, new_supply_cap: U256) -> (r: Result<()>)
        requires
            old(self).wf(),
        ensures
            final(self).wf(),
            old(self).post_set_supply_cap(final(self), msg_sender, new_supply_cap, r),
    {
        self.check_role(msg_sender, default_admin_role())?;
        if word::lt(new_supply_cap, self.total_supply) {
            return Err(BasePrecompileError::B20(B20Error::invalid_supply_cap()));
        }
        if word::lt(u128_max(), new_supply_cap) {
            return Err(BasePrecompileError::B20(B20Error::supply_cap_exceeded()));
        }
        self.supply_cap = new_supply_cap;
        self.events.push(B20Event::SupplyCapUpdate { updater: msg_sender, new_supply_cap });
        Ok(())
    }

    /// How the token `new` and the result `r` of [`B20Token::pause`] relate to the token
    /// `self` it was called on.
    pub open spec fn post_pause(&self, new: &B20Token, msg_sender: Address, r: Result<()>) -> bool {
        &&& !self.holds(msg_sender@, spec_pause_role()) ==> r == Err::<(), BasePrecompileError>(
            unauthorized(),
        ) && *new == *self
        &&& self.holds(msg_sender@, spec_pause_role()) ==> {
            &&& r is Ok
            &&& new.events@ == self.events@.push(
                B20Event::PauseStateUpdate { updater: msg_sender, is_paused: true },
            )
            &&& *new == (B20Token {
                paused: true,
                events: new.events,
                ..*self
            })
        }
    }

    /// Pauses all transfers; the caller must hold the pause role.
    pub fn pause(&mut self, msg_sender: Address) -> (r: Result<()>)
        requires
            old(self).wf(),
        ensures
            final(self).wf(),
            old(self).post_pause(final(self), msg_sender, r),
    {
        self.check_role(msg_sender, B20Token::pause_role())?;
        self.paused = true;
        self.events.push(B20Event::PauseStateUpdate { updater: msg_sender, is_paused: true });
        Ok(())
    }

    /// How the token `new` and the result `r` of [`B20Token::unpause`] relate to the token
    /// `self` it was called on.
    pub open spec fn post_unpause(
        &self,
        new: &B20Token,
        msg_sender: Address,
        r: Result<()>,
    ) -> bool {
        &&& !self.holds(msg_sender@, spec_unpause_role()) ==> r == Err::<
            (),
            BasePrecompileError,
        >(unauthorized()) && *new == *self
        &&& self.holds(msg_sender@, spec_unpause_role()) ==> {
            &&& r is Ok
            &&& new.events@ == self.events@.push(
                B20Event::PauseStateUpdate { updater: msg_sender, is_paused: false },
            )
            &&& *new == (B20Token {
                paused: false,
                events: new.events,
                ..*self
            })
        }
    }

    /// Unpauses transfers; the caller must hold the unpause role.
    pub fn unpause(&mut self, msg_sender: Address) -> (r: Result<()>)
        requires
            old(self).wf(),
        ensures
            final(self).wf(),
            old(self).post_unpause(final(self), msg_sender, r),
    {
        self.check_role(msg_sender, B20Token::unpause_role())?;
        self.paused = false;
        self.events.push(B20Event::PauseStateUpdate { updater: msg_sender, is_paused: false });
        Ok(())
    }

    /// `t` is this token after initialization with the given metadata by `msg_sender`,
    /// with `admin` as default admin.
    pub open spec fn initialized_into(
        &self,
        t: B20Token,
        msg_sender: Address,
        name: Seq<char>,
        symbol: Seq<char>,
        currency: Seq<char>,
        admin: Address,
    ) -> bool {
        &&& t.name@ == name
        &&& t.symbol@ == symbol
        &&& t.currency@ == currency
        &&& t.supply_cap.value() == pow_128() - 1
        &&& t.role_admins@ == self.role_admins@.insert(
            spec_ungrantable_role(),
            B256::spec_repeat(0xff),
        )
        &&& t.roles@ == self.roles@.insert((admin@, spec_default_admin_role()), true)
        &&& t.events@ == self.events@.push(
            B20Event::RoleMembershipUpdated {
                role: B256::spec_repeat(0),
                account: admin,
                sender: msg_sender,
                has_role: true,
            },
        )
        &&& t == (B20Token {
            initialized: true,
            name: t.name,
            symbol: t.symbol,
            currency: t.currency,
            supply_cap: t.supply_cap,
            transfer_policy_id: 1,
            role_admins: t.role_admins,
            roles: t.roles,
            events: t.events,
            ..*self
        })
    }

    /// Initializes the token: marks its account as materialized, stores the metadata, sets
    /// the supply cap to `u128::MAX` and the transfer policy to allow-all (`1`), makes the
    /// ungrantable role its own admin and grants `admin` the default admin role.
    pub fn initialize(
        &mut self,
        msg_sender: Address,
        name: &str,
        symbol: &str,
        currency: &str,
        admin: Address,
    ) -> (r: Result<()>)
        requires
            old(self).wf(),
        ensures
            final(self).wf(),
            r is Ok,
            old(self).initialized_into(*final(self), msg_sender, name@, symbol@, currency@, admin),
    {
        self.initialized = true;
        self.name = name.to_owned();
        self.symbol = symbol.to_owned();
        self.currency = currency.to_owned();
        self.supply_cap = u128_max();
        self.transfer_policy_id = 1;
        self.initialize_roles()?;
        self.grant_default_admin(msg_sender, admin)
    }
}


/// A sender that the token's transfer policy does not authorize cannot transfer: every
/// transfer from it fails, and a call of [`B20Token::transfer`] leaves the token unchanged.
/// When the token is not paused and the recipient is valid, the failure is `PolicyForbids`
/// from Beryl on, and before Beryl whenever the recipient check itself succeeds.
pub proof fn lemma_unauthorized_sender_cannot_transfer(
    t: B20Token,
    new: B20Token,
    registry: B403Registry,
    from: Address,
    to: Address,
    amount: U256,
    r: Result<bool>,
)
    requires
        registry.spec_authorized_as(t.transfer_policy_id, from, role_in(AuthRole::Sender, t.spec))
            == Ok::<bool, BasePrecompileError>(false),
        t.post_transfer(&new, from, to, amount, &registry, r),
    ensures
        t.spec_transfer_result(&registry, from, to, amount) is Err,
        r is Err,
        new == t,
        !t.paused && !invalid_recipient(to) && (t.spec.spec_enabled_in(BaseBSpec::Beryl)
            || registry.spec_authorized_as(
            t.transfer_policy_id,
            to,
            role_in(AuthRole::Recipient, t.spec),
        ) is Ok) ==> r == Err::<bool, BasePrecompileError>(b20_err(B20Error::PolicyForbids)),
{
}

} // verus!

//! The B403 transfer policy registry.
//!
//! Manages whitelist, blacklist and compound transfer policies that B20 tokens reference to gate
//! sender and recipient authorization. Policy `0` rejects everyone, policy `1` allows everyone;
//! user policies get consecutive identifiers from `2` on.

pub mod dispatch;

use vstd::prelude::*;

use crate::error::{
    b403_err, overflow, B403RegistryError, BasePrecompileError, PanicKind, Result,
};
use crate::primitives::{spec_zero_addr, Address};
use crate::spec::BaseBSpec;
use crate::storage::mapping::{MapKey, Mapping, StorageValue};

verus! {

/// Built-in policy ID that always rejects authorization.
pub const REJECT_ALL_POLICY_ID: u64 = 0;

/// Built-in policy ID that always allows authorization.
pub const ALLOW_ALL_POLICY_ID: u64 = 1;

/// Stored discriminant of a whitelist policy.
pub const WHITELIST_CODE: u8 = 0;

/// Stored discriminant of a blacklist policy.
pub const BLACKLIST_CODE: u8 = 1;

/// Stored discriminant of a compound policy.
pub const COMPOUND_CODE: u8 = 2;

/// Stored discriminant of an invalid policy type.
pub const INVALID_CODE: u8 = 255;

/// The type of a policy.
#[derive(Clone, Copy, Debug, PartialEq, Eq, Structural)]
pub enum PolicyType {
    /// Only listed accounts are authorized.
    Whitelist,
    /// Listed accounts are restricted.
    Blacklist,
    /// Delegates each role to a simple sub-policy.
    Compound,
    /// An undecodable type.
    Invalid,
}

/// The stored discriminant of a policy type.
pub open spec fn spec_type_code(t: PolicyType) -> u8 {
    match t {
        PolicyType::Whitelist => WHITELIST_CODE,
        PolicyType::Blacklist => BLACKLIST_CODE,
        PolicyType::Compound => COMPOUND_CODE,
        PolicyType::Invalid => INVALID_CODE,
    }
}

impl PolicyType {
    /// The stored discriminant of this policy type.
    pub fn code(self) -> (r: u8)
        ensures
            r == spec_type_code(self),
    {
        match self {
            PolicyType::Whitelist => WHITELIST_CODE,
            PolicyType::Blacklist => BLACKLIST_CODE,
            PolicyType::Compound => COMPOUND_CODE,
            PolicyType::Invalid => INVALID_CODE,
        }
    }

    /// Validates that this is a simple policy type and returns the discriminant to store.
    ///
    /// Before Azul, `Compound` and `Invalid` are accepted and stored as the invalid
    /// discriminant; from Azul on only `Whitelist` and `Blacklist` are accepted.
    pub fn ensure_is_simple(self, spec: BaseBSpec) -> (r: Result<u8>)
        ensures
            r == spec_ensure_is_simple(self, spec),
    {
        match self {
            PolicyType::Whitelist | PolicyType::Blacklist => Ok(self.code()),
            PolicyType::Compound | PolicyType::Invalid => {
                if spec.is_enabled_in(BaseBSpec::Azul) {
                    Err(BasePrecompileError::B403RegistryError(
                        B403RegistryError::IncompatiblePolicyType,
                    ))
                } else {
                    Ok(INVALID_CODE)
                }
            },
        }
    }
}

/// What [`PolicyType::ensure_is_simple`] returns.
pub open spec fn spec_ensure_is_simple(t: PolicyType, spec: BaseBSpec) -> Result<u8> {
    match t {
        PolicyType::Whitelist | PolicyType::Blacklist => Ok(spec_type_code(t)),
        _ => if spec.spec_enabled_in(BaseBSpec::Azul) {
            Err(b403_err(B403RegistryError::IncompatiblePolicyType))
        } else {
            Ok(INVALID_CODE)
        },
    }
}

/// Base policy metadata.
#[derive(Clone, Copy, Debug)]
pub struct PolicyData {
    /// Discriminant of the policy type.
    pub policy_type: u8,
    /// Address authorized to modify this policy.
    pub admin: Address,
}

/// The sub-policies of a compound policy.
#[derive(Clone, Copy, Debug)]
pub struct CompoundPolicyData {
    /// Sub-policy ID used to authorize the sender.
    pub sender_policy_id: u64,
    /// Sub-policy ID used to authorize the recipient.
    pub recipient_policy_id: u64,
    /// Sub-policy ID used to authorize mint recipients.
    pub mint_recipient_policy_id: u64,
}

/// The stored record of a policy.
#[derive(Clone, Copy, Debug)]
pub struct PolicyRecord {
    /// Base policy data.
    pub base: PolicyData,
    /// Compound policy data; only relevant for compound policies.
    pub compound: CompoundPolicyData,
}

impl StorageValue for PolicyRecord {
    open spec fn spec_zero() -> PolicyRecord {
        PolicyRecord {
            base: PolicyData { policy_type: 0, admin: spec_zero_addr() },
            compound: CompoundPolicyData {
                sender_policy_id: 0,
                recipient_policy_id: 0,
                mint_recipient_policy_id: 0,
            },
        }
    }

    fn zero_value() -> (r: PolicyRecord) {
        PolicyRecord {
            base: PolicyData { policy_type: 0, admin: Address { bytes: [0u8; 20] } },
            compound: CompoundPolicyData {
                sender_policy_id: 0,
                recipient_policy_id: 0,
                mint_recipient_policy_id: 0,
            },
        }
    }

    open spec fn weight(self) -> nat {
        0
    }

    proof fn lemma_zero_weight() {
    }
}

/// The bytes of the zero address.
pub open spec fn zero_bytes() -> Seq<u8> {
    Seq::new(20, |i: int| 0u8)
}

impl PolicyData {
    /// Whether the policy type is simple (whitelist or blacklist).
    pub open spec fn spec_is_simple(self) -> bool {
        self.policy_type == WHITELIST_CODE || self.policy_type == BLACKLIST_CODE
    }

    /// Whether this is the data of a never-written policy.
    pub open spec fn spec_is_default(self) -> bool {
        self.policy_type == 0 && self.admin@ == zero_bytes()
    }

    /// Returns `true` if the policy type is a simple policy (whitelist or blacklist).
    pub fn is_simple(&self) -> (r: bool)
        ensures
            r == self.spec_is_simple(),
    {
        self.policy_type == WHITELIST_CODE || self.policy_type == BLACKLIST_CODE
    }

    /// Returns `true` if the policy data indicates a compound policy.
    pub fn is_compound(&self) -> (r: bool)
        ensures
            r == (self.policy_type == COMPOUND_CODE),
    {
        self.policy_type == COMPOUND_CODE
    }

    /// Returns `true` if the policy data is the default (never written) value.
    pub fn is_default(&self) -> (r: bool)
        ensures
            r == self.spec_is_default(),
    {
        let z = Address::zero();
        assert(z@ == zero_bytes());
        self.policy_type == 0 && self.admin.same(&z)
    }

    /// Decodes the stored policy type.
    ///
    /// Undecodable discriminants fail; a compound type fails before Azul.
    pub fn policy_type(&self, spec: BaseBSpec) -> (r: Result<PolicyType>)
        ensures
            r == spec_decode_policy_type(self.policy_type, spec),
    {
        let is_t2 = spec.is_enabled_in(BaseBSpec::Azul);
        let decoded = if self.policy_type == WHITELIST_CODE {
            Some(PolicyType::Whitelist)
        } else if self.policy_type == BLACKLIST_CODE {
            Some(PolicyType::Blacklist)
        } else if self.policy_type == COMPOUND_CODE {
            Some(PolicyType::Compound)
        } else {
            None
        };
        match decoded {
            Some(ty) if is_t2 || ty != PolicyType::Compound => Ok(ty),
            _ => Err(
                if is_t2 {
                    BasePrecompileError::B403RegistryError(B403RegistryError::InvalidPolicyType)
                } else {
                    BasePrecompileError::under_overflow()
                },
            ),
        }
    }
}

/// The decoded policy type of a stored discriminant under hardfork `spec`.
pub open spec fn spec_decode_policy_type(code: u8, spec: BaseBSpec) -> Result<PolicyType> {
    let is_t2 = spec.spec_enabled_in(BaseBSpec::Azul);
    if code == WHITELIST_CODE {
        Ok(PolicyType::Whitelist)
    } else if code == BLACKLIST_CODE {
        Ok(PolicyType::Blacklist)
    } else if code == COMPOUND_CODE && is_t2 {
        Ok(PolicyType::Compound)
    } else if is_t2 {
        Err(b403_err(B403RegistryError::InvalidPolicyType))
    } else {
        Err(overflow())
    }
}

/// Authorization role for policy checks.
#[derive(Clone, Copy, Debug, PartialEq, Eq, Structural)]
pub enum AuthRole {
    /// Check both sender and recipient (symmetric transfer check).
    Transfer,
    /// Check sender authorization only.
    Sender,
    /// Check recipient authorization only.
    Recipient,
    /// Check mint recipient authorization only.
    MintRecipient,
}

impl AuthRole {
    /// `t2_variant` from Azul on, `Transfer` before.
    pub fn transfer_or(t2_variant: AuthRole, spec: BaseBSpec) -> (r: AuthRole)
        ensures
            r == (if spec.spec_enabled_in(BaseBSpec::Azul) { t2_variant } else { AuthRole::Transfer }),
    {
        if spec.is_enabled_in(BaseBSpec::Azul) {
            t2_variant
        } else {
            AuthRole::Transfer
        }
    }

    /// Always `Transfer`.
    pub fn transfer() -> (r: AuthRole)
        ensures
            r == AuthRole::Transfer,
    {
        AuthRole::Transfer
    }

    /// `Sender` from Azul on, `Transfer` before.
    pub fn sender(spec: BaseBSpec) -> (r: AuthRole)
        ensures
            r == (if spec.spec_enabled_in(BaseBSpec::Azul) { AuthRole::Sender } else { AuthRole::Transfer }),
    {
        Self::transfer_or(AuthRole::Sender, spec)
    }

    /// `Recipient` from Azul on, `Transfer` before.
    pub fn recipient(spec: BaseBSpec) -> (r: AuthRole)
        ensures
            r == (if spec.spec_enabled_in(BaseBSpec::Azul) { AuthRole::Recipient } else { AuthRole::Transfer }),
    {
        Self::transfer_or(AuthRole::Recipient, spec)
    }

    /// `MintRecipient` from Azul on, `Transfer` before.
    pub fn mint_recipient(spec: BaseBSpec) -> (r: AuthRole)
        ensures
            r == (if spec.spec_enabled_in(BaseBSpec::Azul) { AuthRole::MintRecipient } else { AuthRole::Transfer }),
    {
        Self::transfer_or(AuthRole::MintRecipient, spec)
    }
}

/// Events of the B403 registry.
#[derive(Clone, Copy, Debug)]
pub enum B403RegistryEvent {
    /// A policy was created.
    PolicyCreated { policy_id: u64, updater: Address, policy_type: PolicyType },
    /// The admin of a policy changed.
    PolicyAdminUpdated { policy_id: u64, updater: Address, admin: Address },
    /// An account was added to or removed from a whitelist.
    WhitelistUpdated { policy_id: u64, updater: Address, account: Address, allowed: bool },
    /// An account was added to or removed from a blacklist.
    BlacklistUpdated { policy_id: u64, updater: Address, account: Address, restricted: bool },
    /// A compound policy was created.
    CompoundPolicyCreated {
        policy_id: u64,
        creator: Address,
        sender_policy_id: u64,
        recipient_policy_id: u64,
        mint_recipient_policy_id: u64,
    },
}

/// The policy type reported in a creation event for a stored discriminant.
pub open spec fn spec_event_type(code: u8) -> PolicyType {
    if code == WHITELIST_CODE {
        PolicyType::Whitelist
    } else if code == BLACKLIST_CODE {
        PolicyType::Blacklist
    } else if code == COMPOUND_CODE {
        PolicyType::Compound
    } else {
        PolicyType::Invalid
    }
}

fn event_type(code: u8) -> (r: PolicyType)
    ensures
        r == spec_event_type(code),
{
    if code == WHITELIST_CODE {
        PolicyType::Whitelist
    } else if code == BLACKLIST_CODE {
        PolicyType::Blacklist
    } else if code == COMPOUND_CODE {
        PolicyType::Compound
    } else {
        PolicyType::Invalid
    }
}

/// The registry of B403 transfer policies.
pub struct B403Registry {
    /// Active hardfork.
    pub spec: BaseBSpec,
    /// Raw counter of created policies (read through [`B403Registry::policy_id_counter`]).
    pub policy_id_counter: u64,
    /// Policy records by ID.
    pub policy_records: Mapping<u64, PolicyRecord>,
    /// Per-policy address sets of simple policies.
    pub policy_set: Mapping<(u64, Address), bool>,
    /// Emitted events, oldest first.
    pub events: Vec<B403RegistryEvent>,
}

/// Authorization of the built-in policies: `Some(true)` for allow-all, `Some(false)` for
/// reject-all, `None` otherwise.
pub open spec fn spec_builtin(policy_id: u64) -> Option<bool> {
    if policy_id == ALLOW_ALL_POLICY_ID {
        Some(true)
    } else if policy_id == REJECT_ALL_POLICY_ID {
        Some(false)
    } else {
        None
    }
}

impl B403Registry {
    /// The next policy ID (the raw counter, but at least `2`).
    pub open spec fn spec_counter(&self) -> u64 {
        if self.policy_id_counter < 2 {
            2
        } else {
            self.policy_id_counter
        }
    }

    /// The stored record of a policy.
    pub open spec fn record(&self, id: u64) -> PolicyRecord {
        self.policy_records.get(id)
    }

    /// Whether `user` is in the address set of policy `id`.
    pub open spec fn in_set(&self, id: u64, user: Address) -> bool {
        self.policy_set.get((id, user@))
    }

    /// Whether a policy ID exists (built-in or created).
    pub open spec fn spec_policy_exists(&self, id: u64) -> bool {
        spec_builtin(id) is Some || id < self.spec_counter()
    }

    /// The data of a policy, or `PolicyNotFound` from Azul on for a never-created one.
    pub open spec fn spec_get_policy_data(&self, id: u64) -> Result<PolicyData> {
        let data = self.record(id).base;
        if self.spec.spec_enabled_in(BaseBSpec::Azul) && data.spec_is_default() && id
            >= self.spec_counter() {
            Err(b403_err(B403RegistryError::PolicyNotFound))
        } else {
            Ok(data)
        }
    }

    /// Authorization of `user` by the simple policy `id` with data `data`.
    pub open spec fn spec_is_simple(&self, id: u64, user: Address, data: PolicyData) -> Result<
        bool,
    > {
        let in_set = self.in_set(id, user);
        match spec_decode_policy_type(data.policy_type, self.spec) {
            Ok(PolicyType::Whitelist) => Ok(in_set),
            Ok(PolicyType::Blacklist) => Ok(!in_set),
            Ok(_) => Err(b403_err(B403RegistryError::IncompatiblePolicyType)),
            Err(e) => Err(e),
        }
    }

    /// Authorization of `user` by policy `id`, which must be simple or built-in.
    pub open spec fn spec_authorized_simple(&self, id: u64, user: Address) -> Result<bool> {
        match spec_builtin(id) {
            Some(a) => Ok(a),
            None => match self.spec_get_policy_data(id) {
                Ok(data) => self.spec_is_simple(id, user, data),
                Err(e) => Err(e),
            },
        }
    }

    /// Authorization of `user` in `role` by policy `id`.
    pub open spec fn spec_authorized_as(&self, id: u64, user: Address, role: AuthRole) -> Result<
        bool,
    > {
        match spec_builtin(id) {
            Some(a) => Ok(a),
            None => match self.spec_get_policy_data(id) {
                Err(e) => Err(e),
                Ok(data) => if data.policy_type == COMPOUND_CODE {
                    let c = self.record(id).compound;
                    match role {
                        AuthRole::Sender => self.spec_authorized_simple(c.sender_policy_id, user),
                        AuthRole::Recipient => self.spec_authorized_simple(
                            c.recipient_policy_id,
                            user,
                        ),
                        AuthRole::MintRecipient => self.spec_authorized_simple(
                            c.mint_recipient_policy_id,
                            user,
                        ),
                        AuthRole::Transfer => match self.spec_authorized_simple(
                            c.sender_policy_id,
                            user,
                        ) {
                            Err(e) => Err(e),
                            Ok(s) => if self.spec.spec_enabled_in(BaseBSpec::Azul) && !s {
                                Ok(false)
                            } else {
                                match self.spec_authorized_simple(c.recipient_policy_id, user) {
                                    Err(e) => Err(e),
                                    Ok(r) => Ok(s && r),
                                }
                            },
                        },
                    }
                } else {
                    self.spec_is_simple(id, user, data)
                },
            },
        }
    }

    /// Whether the registry state other than the event log is unchanged between two states.
    pub open spec fn same_state(&self, other: &B403Registry) -> bool {
        &&& self.spec == other.spec
        &&& self.policy_id_counter == other.policy_id_counter
        &&& self.policy_records@ == other.policy_records@
        &&& self.policy_set@ == other.policy_set@
    }

    /// An empty registry under hardfork `spec`.
    pub fn new(spec: BaseBSpec) -> (r: B403Registry)
        ensures
            r.spec == spec,
            r.policy_id_counter == 0,
            r.policy_records@ == Map::<u64, PolicyRecord>::empty(),
            r.policy_set@ == Map::<(u64, Seq<u8>), bool>::empty(),
            r.events@ == Seq::<B403RegistryEvent>::empty(),
    {
        B403Registry {
            spec,
            policy_id_counter: 0,
            policy_records: Mapping::new(),
            policy_set: Mapping::new(),
            events: Vec::new(),
        }
    }

    /// Initializes the registry (nothing to store: the counter starts from its default).
    pub fn initialize(&mut self) -> (r: Result<()>)
        ensures
            r is Ok,
            final(self).same_state(old(self)),
            final(self).events@ == old(self).events@,
    {
        Ok(())
    }

    /// Returns the next policy ID to be assigned (always at least `2`).
    pub fn policy_id_counter(&self) -> (r: Result<u64>)
        ensures
            r == Ok::<u64, BasePrecompileError>(self.spec_counter()),
    {
        if self.policy_id_counter < 2 {
            Ok(2)
        } else {
            Ok(self.policy_id_counter)
        }
    }

    /// Authorization result of the built-in policies; `None` for user-created policies.
    pub fn builtin_authorization(&self, policy_id: u64) -> (r: Option<bool>)
        ensures
            r == spec_builtin(policy_id),
    {
        if policy_id == ALLOW_ALL_POLICY_ID {
            Some(true)
        } else if policy_id == REJECT_ALL_POLICY_ID {
            Some(false)
        } else {
            None
        }
    }

    /// Returns `true` if the given policy ID exists (built-in or user-created).
    pub fn policy_exists(&self, policy_id: u64) -> (r: Result<bool>)
        ensures
            r == Ok::<bool, BasePrecompileError>(self.spec_policy_exists(policy_id)),
    {
        if self.builtin_authorization(policy_id).is_some() {
            return Ok(true);
        }
        let counter = self.policy_id_counter()?;
        Ok(policy_id < counter)
    }

    /// Returns the data of a policy; from Azul on, fails with `PolicyNotFound` for a policy
    /// that was never created.
    pub fn get_policy_data(&self, policy_id: u64) -> (r: Result<PolicyData>)
        ensures
            r == self.spec_get_policy_data(policy_id),
    {
        let data = self.policy_records.read(&policy_id).base;
        if self.spec.is_enabled_in(BaseBSpec::Azul) && data.is_default() && policy_id
            >= self.policy_id_counter()? {
            return Err(BasePrecompileError::B403RegistryError(B403RegistryError::PolicyNotFound));
        }
        Ok(data)
    }

    fn set_policy_data(&mut self, policy_id: u64, data: PolicyData)
        ensures
            final(self).policy_records@ == old(self).policy_records@.insert(
                policy_id,
                PolicyRecord { base: data, compound: old(self).record(policy_id).compound },
            ),
            final(self).spec == old(self).spec,
            final(self).policy_id_counter == old(self).policy_id_counter,
            final(self).policy_set@ == old(self).policy_set@,
            final(self).events@ == old(self).events@,
    {
        let mut record = self.policy_records.read(&policy_id);
        record.base = data;
        self.policy_records.write(policy_id, record);
    }

    fn set_policy_set(&mut self, policy_id: u64, account: Address, value: bool)
        ensures
            final(self).policy_set@ == old(self).policy_set@.insert((policy_id, account@), value),
            final(self).spec == old(self).spec,
            final(self).policy_id_counter == old(self).policy_id_counter,
            final(self).policy_records@ == old(self).policy_records@,
            final(self).events@ == old(self).events@,
    {
        self.policy_set.write((policy_id, account), value);
    }

    /// Returns the type and admin of a policy.
    ///
    /// From Azul on the built-in policies report `Whitelist` (reject-all) and `Blacklist`
    /// (allow-all) with the zero admin; before Azul a non-existing policy fails with
    /// `PolicyNotFound`.
    pub fn policy_data(&self, policy_id: u64) -> (r: Result<(PolicyType, Address)>)
        ensures
            r matches Ok((t, a)) ==> self.spec_policy_data(policy_id) == Ok::<
                (PolicyType, Seq<u8>),
                BasePrecompileError,
            >((t, a@)),
            r matches Err(e) ==> self.spec_policy_data(policy_id) == Err::<
                (PolicyType, Seq<u8>),
                BasePrecompileError,
            >(e),
    {
        if self.spec.is_enabled_in(BaseBSpec::Azul) {
            if self.builtin_authorization(policy_id).is_some() {
                let t = if policy_id == REJECT_ALL_POLICY_ID {
                    PolicyType::Whitelist
                } else {
                    PolicyType::Blacklist
                };
                return Ok((t, Address::zero()));
            }
        } else {
            if !self.policy_exists(policy_id)? {
                return Err(
                    BasePrecompileError::B403RegistryError(B403RegistryError::PolicyNotFound),
                );
            }
        }
        let data = self.get_policy_data(policy_id)?;
        let t = data.policy_type(self.spec)?;
        Ok((t, data.admin))
    }

    /// What [`B403Registry::policy_data`] returns: the type and the admin's bytes.
    pub open spec fn spec_policy_data(&self, id: u64) -> Result<(PolicyType, Seq<u8>)> {
        if self.spec.spec_enabled_in(BaseBSpec::Azul) && spec_builtin(id) is Some {
            Ok(
                (
                    if id == REJECT_ALL_POLICY_ID {
                        PolicyType::Whitelist
                    } else {
                        PolicyType::Blacklist
                    },
                    zero_bytes(),
                ),
            )
        } else if !self.spec.spec_enabled_in(BaseBSpec::Azul) && !self.spec_policy_exists(id) {
            Err(b403_err(B403RegistryError::PolicyNotFound))
        } else {
            match self.spec_get_policy_data(id) {
                Err(e) => Err(e),
                Ok(data) => match spec_decode_policy_type(data.policy_type, self.spec) {
                    Err(e) => Err(e),
                    Ok(t) => Ok((t, data.admin@)),
                },
            }
        }
    }

    /// Returns the sub-policy IDs (sender, recipient, mint recipient) of a compound policy.
    pub fn compound_policy_data(&self, policy_id: u64) -> (r: Result<(u64, u64, u64)>)
        ensures
            r == self.spec_compound_policy_data(policy_id),
    {
        let data = self.get_policy_data(policy_id)?;
        if !data.is_compound() {
            let err = if self.policy_exists(policy_id)? {
                B403RegistryError::IncompatiblePolicyType
            } else {
                B403RegistryError::PolicyNotFound
            };
            return Err(BasePrecompileError::B403RegistryError(err));
        }
        let c = self.policy_records.read(&policy_id).compound;
        Ok((c.sender_policy_id, c.recipient_policy_id, c.mint_recipient_policy_id))
    }

    /// What [`B403Registry::compound_policy_data`] returns.
    pub open spec fn spec_compound_policy_data(&self, id: u64) -> Result<(u64, u64, u64)> {
        match self.spec_get_policy_data(id) {
            Err(e) => Err(e),
            Ok(data) => if data.policy_type != COMPOUND_CODE {
                if self.spec_policy_exists(id) {
                    Err(b403_err(B403RegistryError::IncompatiblePolicyType))
                } else {
                    Err(b403_err(B403RegistryError::PolicyNotFound))
                }
            } else {
                let c = self.record(id).compound;
                Ok((c.sender_policy_id, c.recipient_policy_id, c.mint_recipient_policy_id))
            },
        }
    }

    /// Authorization for the simple (non-compound) policy with the given data.
    fn is_simple(&self, policy_id: u64, user: Address, data: &PolicyData) -> (r: Result<bool>)
        ensures
            r == self.spec_is_simple(policy_id, user, *data),
    {
        let is_in_set = self.policy_set.read(&(policy_id, user));
        match data.policy_type(self.spec)? {
            PolicyType::Whitelist => Ok(is_in_set),
            PolicyType::Blacklist => Ok(!is_in_set),
            PolicyType::Compound | PolicyType::Invalid => Err(
                BasePrecompileError::B403RegistryError(B403RegistryError::IncompatiblePolicyType),
            ),
        }
    }

    /// Authorization by a policy that the caller knows to be simple or built-in.
    fn is_authorized_simple(&self, policy_id: u64, user: Address) -> (r: Result<bool>)
        ensures
            r == self.spec_authorized_simple(policy_id, user),
    {
        if let Some(auth) = self.builtin_authorization(policy_id) {
            return Ok(auth);
        }
        let data = self.get_policy_data(policy_id)?;
        self.is_simple(policy_id, user, &data)
    }

    /// Core role-based authorization check: built-in policies answer directly, compound
    /// policies delegate to their sub-policy for the role, simple policies consult their set.
    pub fn is_authorized_as(&self, policy_id: u64, user: Address, role: AuthRole) -> (r: Result<
        bool,
    >)
        ensures
            r == self.spec_authorized_as(policy_id, user, role),
            spec_builtin(policy_id) is None && self.spec_compound_policy_data(policy_id) is Ok ==> {
                let (s, rc, m) = self.spec_compound_policy_data(policy_id)->Ok_0;
                &&& role == AuthRole::Sender ==> r == self.spec_authorized_simple(s, user)
                &&& role == AuthRole::Recipient ==> r == self.spec_authorized_simple(rc, user)
                &&& role == AuthRole::MintRecipient ==> r == self.spec_authorized_simple(m, user)
            },
    {
        if let Some(auth) = self.builtin_authorization(policy_id) {
            return Ok(auth);
        }
        let data = self.get_policy_data(policy_id)?;
        if data.is_compound() {
            let compound = self.policy_records.read(&policy_id).compound;
            return match role {
                AuthRole::Sender => self.is_authorized_simple(compound.sender_policy_id, user),
                AuthRole::Recipient => self.is_authorized_simple(
                    compound.recipient_policy_id,
                    user,
                ),
                AuthRole::MintRecipient => self.is_authorized_simple(
                    compound.mint_recipient_policy_id,
                    user,
                ),
                AuthRole::Transfer => {
                    let sender_auth = self.is_authorized_simple(compound.sender_policy_id, user)?;
                    if self.spec.is_enabled_in(BaseBSpec::Azul) && !sender_auth {
                        return Ok(false);
                    }
                    let recipient_auth = self.is_authorized_simple(
                        compound.recipient_policy_id,
                        user,
                    )?;
                    Ok(sender_auth && recipient_auth)
                },
            };
        }
        self.is_simple(policy_id, user, &data)
    }

    /// Validates that a policy ID references a built-in or an existing simple policy.
    pub fn validate_simple_policy(&self, policy_id: u64) -> (r: Result<()>)
        ensures
            r == self.spec_validate_simple(policy_id),
    {
        if self.builtin_authorization(policy_id).is_some() {
            return Ok(());
        }
        if policy_id >= self.policy_id_counter()? {
            return Err(BasePrecompileError::B403RegistryError(B403RegistryError::PolicyNotFound));
        }
        let data = self.get_policy_data(policy_id)?;
        if !data.is_simple() {
            return Err(BasePrecompileError::B403RegistryError(B403RegistryError::PolicyNotSimple));
        }
        Ok(())
    }

    /// The first failure of validating three sub-policies in order.
    pub open spec fn spec_validate_three(&self, a: u64, b: u64, c: u64) -> Result<()> {
        match self.spec_validate_simple(a) {
            Err(e) => Err(e),
            Ok(_) => match self.spec_validate_simple(b) {
                Err(e) => Err(e),
                Ok(_) => self.spec_validate_simple(c),
            },
        }
    }

    /// What [`B403Registry::validate_simple_policy`] returns.
    pub open spec fn spec_validate_simple(&self, id: u64) -> Result<()> {
        if spec_builtin(id) is Some {
            Ok(())
        } else if id >= self.spec_counter() {
            Err(b403_err(B403RegistryError::PolicyNotFound))
        } else {
            match self.spec_get_policy_data(id) {
                Err(e) => Err(e),
                Ok(data) => if !data.spec_is_simple() {
                    Err(b403_err(B403RegistryError::PolicyNotSimple))
                } else {
                    Ok(())
                },
            }
        }
    }

    /// How the registry `new` and the result `r` of [`B403Registry::create_policy`] relate to the registry
    /// `self` it was called on.
    pub open spec fn post_create_policy(&self, new: &B403Registry, msg_sender: Address, policy_type: PolicyType, admin: Address, r: Result<u64>) -> bool {
        &&& match spec_ensure_is_simple(policy_type, self.spec) {
            Err(e) => r == Err::<u64, BasePrecompileError>(e) && new.same_state(self)
                && new.events@ == self.events@,
            Ok(code) => if self.spec_counter() == u64::MAX {
                r == Err::<u64, BasePrecompileError>(overflow()) && new.same_state(
                    self,
                ) && new.events@ == self.events@
            } else {
                let id = self.spec_counter();
                &&& r == Ok::<u64, BasePrecompileError>(id)
                &&& new.spec == self.spec
                &&& new.policy_id_counter == id + 1
                &&& new.policy_records@ == self.policy_records@.insert(
                    id,
                    PolicyRecord {
                        base: PolicyData { policy_type: code, admin },
                        compound: self.record(id).compound,
                    },
                )
                &&& new.policy_set@ == self.policy_set@
                &&& new.events@ == self.events@.push(
                    B403RegistryEvent::PolicyCreated {
                        policy_id: id,
                        updater: msg_sender,
                        policy_type: spec_event_type(code),
                    },
                ).push(
                    B403RegistryEvent::PolicyAdminUpdated {
                        policy_id: id,
                        updater: msg_sender,
                        admin,
                    },
                )
            },
        }
    }

    /// Creates a new simple (whitelist or blacklist) policy administered by `admin` and
    /// returns its ID.
    pub fn create_policy(&mut self, msg_sender: Address, policy_type: PolicyType, admin: Address) -> (r:
        Result<u64>)
        ensures
            old(self).post_create_policy(final(self), msg_sender, policy_type, admin, r),
    {
        let code = policy_type.ensure_is_simple(self.spec)?;
        let new_policy_id = self.policy_id_counter()?;
        if new_policy_id == u64::MAX {
            return Err(BasePrecompileError::under_overflow());
        }
        self.policy_id_counter = new_policy_id + 1;
        self.set_policy_data(new_policy_id, PolicyData { policy_type: code, admin });
        self.events.push(
            B403RegistryEvent::PolicyCreated {
                policy_id: new_policy_id,
                updater: msg_sender,
                policy_type: event_type(code),
            },
        );
        self.events.push(
            B403RegistryEvent::PolicyAdminUpdated {
                policy_id: new_policy_id,
                updater: msg_sender,
                admin,
            },
        );
        Ok(new_policy_id)
    }

    /// How the registry `new` and the result `r` of [`B403Registry::create_policy_with_accounts`] relate to the registry
    /// `self` it was called on.
    pub open spec fn post_create_policy_with_accounts(&self, new: &B403Registry, msg_sender: Address, admin: Address, policy_type: PolicyType, accounts: &Vec<Address>, r: Result<u64>) -> bool {
        &&& match spec_ensure_is_simple(policy_type, self.spec) {
            Err(e) => r == Err::<u64, BasePrecompileError>(e) && new.same_state(self)
                && new.events@ == self.events@,
            Ok(code) => if self.spec_counter() == u64::MAX {
                r == Err::<u64, BasePrecompileError>(overflow()) && new.same_state(
                    self,
                ) && new.events@ == self.events@
            } else {
                let id = self.spec_counter();
                let simple = policy_type == PolicyType::Whitelist || policy_type
                    == PolicyType::Blacklist;
                let added = if simple || accounts@.len() == 0 {
                    accounts@
                } else {
                    accounts@.take(1)
                };
                &&& new.spec == self.spec
                &&& new.policy_id_counter == id + 1
                &&& new.policy_records@ == self.policy_records@.insert(
                    id,
                    PolicyRecord {
                        base: PolicyData { policy_type: code, admin },
                        compound: self.record(id).compound,
                    },
                )
                &&& new.policy_set@ == spec_add_accounts(
                    self.policy_set@,
                    id,
                    added,
                )
                &&& if simple || accounts@.len() == 0 {
                    &&& r == Ok::<u64, BasePrecompileError>(id)
                    &&& new.events@ == self.events@ + spec_account_events(
                        policy_type,
                        id,
                        msg_sender,
                        accounts@,
                    ) + seq![
                        B403RegistryEvent::PolicyCreated {
                            policy_id: id,
                            updater: msg_sender,
                            policy_type: spec_event_type(code),
                        },
                        B403RegistryEvent::PolicyAdminUpdated {
                            policy_id: id,
                            updater: msg_sender,
                            admin,
                        },
                    ]
                } else {
                    &&& r == Err::<u64, BasePrecompileError>(
                        b403_err(B403RegistryError::IncompatiblePolicyType),
                    )
                    &&& new.events@ == self.events@
                }
            },
        }
    }

    /// Creates a simple policy and pre-populates its set with `accounts`.
    ///
    /// Before Azul an invalid or compound type is stored as the invalid discriminant; then the
    /// first account is still added before the call fails with `IncompatiblePolicyType`.
    pub fn create_policy_with_accounts(
        &mut self,
        msg_sender: Address,
        admin: Address,
        policy_type: PolicyType,
        accounts: &Vec<Address>,
    ) -> (r: Result<u64>)
        ensures
            old(self).post_create_policy_with_accounts(final(self), msg_sender, admin, policy_type, accounts, r),
    {
        let code = policy_type.ensure_is_simple(self.spec)?;
        if self.spec.is_enabled_in(BaseBSpec::Azul) {
            let mut j: usize = 0;
            while j < accounts.len()
                invariant
                    j <= accounts@.len(),
                decreases accounts@.len() - j,
            {
                if is_virtual(&accounts[j]) {
                    return Err(
                        BasePrecompileError::B403RegistryError(
                            B403RegistryError::VirtualAddressNotAllowed,
                        ),
                    );
                }
                j = j + 1;
            }
        }
        let new_policy_id = self.policy_id_counter()?;
        if new_policy_id == u64::MAX {
            return Err(BasePrecompileError::under_overflow());
        }
        self.policy_id_counter = new_policy_id + 1;
        self.set_policy_data(new_policy_id, PolicyData { policy_type: code, admin });
        let ghost old_set = self.policy_set@;
        let ghost old_events = self.events@;
        let mut i: usize = 0;
        while i < accounts.len()
            invariant
                i <= accounts@.len(),
                policy_type == PolicyType::Whitelist || policy_type == PolicyType::Blacklist || i
                    == 0,
                self.policy_set@ == spec_add_accounts(old_set, new_policy_id, accounts@.take(i as int)),
                self.events@ == old_events + spec_account_events(
                    policy_type,
                    new_policy_id,
                    msg_sender,
                    accounts@.take(i as int),
                ),
                self.spec == old(self).spec,
                old_set == old(self).policy_set@,
                old_events == old(self).events@,
                new_policy_id == old(self).spec_counter(),
                spec_ensure_is_simple(policy_type, old(self).spec) == Ok::<u8, BasePrecompileError>(code),
                self.policy_id_counter == new_policy_id + 1,
                self.policy_records@ == old(self).policy_records@.insert(
                    new_policy_id,
                    PolicyRecord {
                        base: PolicyData { policy_type: code, admin },
                        compound: old(self).record(new_policy_id).compound,
                    },
                ),
            decreases accounts@.len() - i,
        {
            let account = accounts[i];
            self.set_policy_set(new_policy_id, account, true);
            proof {
                assert(accounts@.take(i + 1).drop_last() =~= accounts@.take(i as int));
            }
            match policy_type {
                PolicyType::Whitelist => {
                    self.events.push(
                        B403RegistryEvent::WhitelistUpdated {
                            policy_id: new_policy_id,
                            updater: msg_sender,
                            account,
                            allowed: true,
                        },
                    );
                },
                PolicyType::Blacklist => {
                    self.events.push(
                        B403RegistryEvent::BlacklistUpdated {
                            policy_id: new_policy_id,
                            updater: msg_sender,
                            account,
                            restricted: true,
                        },
                    );
                },
                PolicyType::Compound | PolicyType::Invalid => {
                    proof {
                        assert(i == 0);
                        assert(accounts@.take(1) =~= accounts@.take(i + 1));
                        assert(accounts@.take(0) =~= Seq::<Address>::empty());
                        assert(accounts@.take(1).drop_last() =~= Seq::<Address>::empty());
                        assert(self.events@ =~= old_events);
                        assert(accounts@.take(1).last() == account);
                        assert(spec_add_accounts(old_set, new_policy_id, accounts@.take(1).drop_last())
                            == old_set);
                    }
                    return Err(
                        BasePrecompileError::B403RegistryError(
                            B403RegistryError::IncompatiblePolicyType,
                        ),
                    );
                },
            }
            proof {
                let pre = accounts@.take(i as int);
                let post = accounts@.take(i + 1);
                assert(spec_account_events(policy_type, new_policy_id, msg_sender, post)
                    == spec_account_events(policy_type, new_policy_id, msg_sender, pre).push(
                    spec_account_event(policy_type, new_policy_id, msg_sender, accounts@[i as int]),
                ));
            }
            i = i + 1;
        }
        proof {
            assert(accounts@.take(accounts@.len() as int) =~= accounts@);
        }
        self.events.push(
            B403RegistryEvent::PolicyCreated {
                policy_id: new_policy_id,
                updater: msg_sender,
                policy_type: event_type(code),
            },
        );
        self.events.push(
            B403RegistryEvent::PolicyAdminUpdated {
                policy_id: new_policy_id,
                updater: msg_sender,
                admin,
            },
        );
        proof {
            let evs = spec_account_events(policy_type, new_policy_id, msg_sender, accounts@);
            let tail = seq![
                B403RegistryEvent::PolicyCreated {
                    policy_id: new_policy_id,
                    updater: msg_sender,
                    policy_type: spec_event_type(code),
                },
                B403RegistryEvent::PolicyAdminUpdated {
                    policy_id: new_policy_id,
                    updater: msg_sender,
                    admin,
                },
            ];
            assert(self.events@ =~= old_events + evs + tail);
        }
        Ok(new_policy_id)
    }

    /// How the registry `new` and the result `r` of [`B403Registry::set_policy_admin`] relate to the registry
    /// `self` it was called on.
    pub open spec fn post_set_policy_admin(&self, new: &B403Registry, msg_sender: Address, policy_id: u64, admin: Address, r: Result<()>) -> bool {
        &&& match self.spec_get_policy_data(policy_id) {
            Err(e) => r == Err::<(), BasePrecompileError>(e),
            Ok(data) => if data.admin@ != msg_sender@ {
                r == Err::<(), BasePrecompileError>(b403_err(B403RegistryError::Unauthorized))
            } else {
                r is Ok
            },
        }
        &&& r is Ok ==> {
            &&& new.policy_records@ == self.policy_records@.insert(
                policy_id,
                PolicyRecord {
                    base: PolicyData {
                        policy_type: self.record(policy_id).base.policy_type,
                        admin,
                    },
                    compound: self.record(policy_id).compound,
                },
            )
            &&& new.spec == self.spec
            &&& new.policy_id_counter == self.policy_id_counter
            &&& new.policy_set@ == self.policy_set@
            &&& new.events@ == self.events@.push(
                B403RegistryEvent::PolicyAdminUpdated { policy_id, updater: msg_sender, admin },
            )
        }
        &&& r is Err ==> new.same_state(self) && new.events@ == self.events@
    }

    /// Transfers admin control of a policy; only the current admin may do so.
    pub fn set_policy_admin(&mut self, msg_sender: Address, policy_id: u64, admin: Address) -> (r:
        Result<()>)
        ensures
            old(self).post_set_policy_admin(final(self), msg_sender, policy_id, admin, r),
    {
        let data = self.get_policy_data(policy_id)?;
        if !data.admin.same(&msg_sender) {
            return Err(BasePrecompileError::B403RegistryError(B403RegistryError::Unauthorized));
        }
        self.set_policy_data(policy_id, PolicyData { policy_type: data.policy_type, admin });
        self.events.push(
            B403RegistryEvent::PolicyAdminUpdated { policy_id, updater: msg_sender, admin },
        );
        Ok(())
    }

    /// Whether a policy's set may be modified by `sender` as a policy of type `want`: the
    /// error that the modification fails with, if any.
    pub open spec fn spec_modify_check(&self, sender: Address, id: u64, want: PolicyType) -> Option<
        BasePrecompileError,
    > {
        match self.spec_get_policy_data(id) {
            Err(e) => Some(e),
            Ok(data) => if data.admin@ != sender@ {
                Some(b403_err(B403RegistryError::Unauthorized))
            } else {
                match spec_decode_policy_type(data.policy_type, self.spec) {
                    Err(e) => Some(e),
                    Ok(t) => if t != want {
                        Some(b403_err(B403RegistryError::IncompatiblePolicyType))
                    } else {
                        None
                    },
                }
            },
        }
    }

    fn modify_check(&self, msg_sender: &Address, policy_id: u64, want: PolicyType) -> (r: Result<
        (),
    >)
        ensures
            r is Ok <==> self.spec_modify_check(*msg_sender, policy_id, want) is None,
            r matches Err(e) ==> self.spec_modify_check(*msg_sender, policy_id, want) == Some(e),
    {
        let data = self.get_policy_data(policy_id)?;
        if !data.admin.same(msg_sender) {
            return Err(BasePrecompileError::B403RegistryError(B403RegistryError::Unauthorized));
        }
        let t = data.policy_type(self.spec)?;
        if t != want {
            return Err(
                BasePrecompileError::B403RegistryError(B403RegistryError::IncompatiblePolicyType),
            );
        }
        Ok(())
    }

    /// How the registry `new` and the result `r` of [`B403Registry::modify_policy_whitelist`] relate to the registry
    /// `self` it was called on.
    pub open spec fn post_modify_policy_whitelist(&self, new: &B403Registry, msg_sender: Address, policy_id: u64, account: Address, allowed: bool, r: Result<()>) -> bool {
        &&& match self.spec_modify_check(msg_sender, policy_id, PolicyType::Whitelist) {
            Some(e) => r == Err::<(), BasePrecompileError>(e) && new.same_state(
                self,
            ) && new.events@ == self.events@,
            None => {
                &&& r is Ok
                &&& new.policy_set@ == self.policy_set@.insert(
                    (policy_id, account@),
                    allowed,
                )
                &&& new.spec == self.spec
                &&& new.policy_id_counter == self.policy_id_counter
                &&& new.policy_records@ == self.policy_records@
                &&& new.events@ == self.events@.push(
                    B403RegistryEvent::WhitelistUpdated {
                        policy_id,
                        updater: msg_sender,
                        account,
                        allowed,
                    },
                )
            },
        }
    }

    /// Adds (`allowed`) or removes an account from a whitelist policy; admin only.
    pub fn modify_policy_whitelist(
        &mut self,
        msg_sender: Address,
        policy_id: u64,
        account: Address,
        allowed: bool,
    ) -> (r: Result<()>)
        ensures
            old(self).post_modify_policy_whitelist(final(self), msg_sender, policy_id, account, allowed, r),
    {
        if self.spec.is_enabled_in(BaseBSpec::Azul) && is_virtual(&account) {
            return Err(
                BasePrecompileError::B403RegistryError(B403RegistryError::VirtualAddressNotAllowed),
            );
        }
        self.modify_check(&msg_sender, policy_id, PolicyType::Whitelist)?;
        self.set_policy_set(policy_id, account, allowed);
        self.events.push(
            B403RegistryEvent::WhitelistUpdated { policy_id, updater: msg_sender, account, allowed },
        );
        Ok(())
    }

    /// How the registry `new` and the result `r` of [`B403Registry::modify_policy_blacklist`] relate to the registry
    /// `self` it was called on.
    pub open spec fn post_modify_policy_blacklist(&self, new: &B403Registry, msg_sender: Address, policy_id: u64, account: Address, restricted: bool, r: Result<()>) -> bool {
        &&& match self.spec_modify_check(msg_sender, policy_id, PolicyType::Blacklist) {
            Some(e) => r == Err::<(), BasePrecompileError>(e) && new.same_state(
                self,
            ) && new.events@ == self.events@,
            None => {
                &&& r is Ok
                &&& new.policy_set@ == self.policy_set@.insert(
                    (policy_id, account@),
                    restricted,
                )
                &&& new.spec == self.spec
                &&& new.policy_id_counter == self.policy_id_counter
                &&& new.policy_records@ == self.policy_records@
                &&& new.events@ == self.events@.push(
                    B403RegistryEvent::BlacklistUpdated {
                        policy_id,
                        updater: msg_sender,
                        account,
                        restricted,
                    },
                )
            },
        }
    }

    /// Adds (`restricted`) or removes an account from a blacklist policy; admin only.
    pub fn modify_policy_blacklist(
        &mut self,
        msg_sender: Address,
        policy_id: u64,
        account: Address,
        restricted: bool,
    ) -> (r: Result<()>)
        ensures
            old(self).post_modify_policy_blacklist(final(self), msg_sender, policy_id, account, restricted, r),
    {
        if self.spec.is_enabled_in(BaseBSpec::Azul) && is_virtual(&account) {
            return Err(
                BasePrecompileError::B403RegistryError(B403RegistryError::VirtualAddressNotAllowed),
            );
        }
        self.modify_check(&msg_sender, policy_id, PolicyType::Blacklist)?;
        self.set_policy_set(policy_id, account, restricted);
        self.events.push(
            B403RegistryEvent::BlacklistUpdated {
                policy_id,
                updater: msg_sender,
                account,
                restricted,
            },
        );
        Ok(())
    }

    /// How the registry `new` and the result `r` of [`B403Registry::create_compound_policy`] relate to the registry
    /// `self` it was called on.
    pub open spec fn post_create_compound_policy(&self, new: &B403Registry, msg_sender: Address, sender_policy_id: u64, recipient_policy_id: u64, mint_recipient_policy_id: u64, r: Result<u64>) -> bool {
        &&& match self.spec_validate_three(
            sender_policy_id,
            recipient_policy_id,
            mint_recipient_policy_id,
        ) {
            Err(e) => r == Err::<u64, BasePrecompileError>(e),
            Ok(_) => if self.spec_counter() == u64::MAX {
                r == Err::<u64, BasePrecompileError>(overflow())
            } else {
                r == Ok::<u64, BasePrecompileError>(self.spec_counter())
            },
        }
        &&& r is Err ==> new.same_state(self) && new.events@ == self.events@
        &&& r matches Ok(id) ==> {
            &&& new.spec == self.spec
            &&& new.policy_id_counter == id + 1
            &&& new.policy_records@ == self.policy_records@.insert(
                id,
                PolicyRecord {
                    base: PolicyData { policy_type: COMPOUND_CODE, admin: spec_zero_addr() },
                    compound: CompoundPolicyData {
                        sender_policy_id,
                        recipient_policy_id,
                        mint_recipient_policy_id,
                    },
                },
            )
            &&& new.policy_set@ == self.policy_set@
            &&& new.events@ == self.events@.push(
                B403RegistryEvent::CompoundPolicyCreated {
                    policy_id: id,
                    creator: msg_sender,
                    sender_policy_id,
                    recipient_policy_id,
                    mint_recipient_policy_id,
                },
            )
        }
    }

    /// Creates a compound policy referencing three simple sub-policies; it has no admin and
    /// cannot be modified after creation.
    pub fn create_compound_policy(
        &mut self,
        msg_sender: Address,
        sender_policy_id: u64,
        recipient_policy_id: u64,
        mint_recipient_policy_id: u64,
    ) -> (r: Result<u64>)
        ensures
            old(self).post_create_compound_policy(final(self), msg_sender, sender_policy_id, recipient_policy_id, mint_recipient_policy_id, r),
    {
        self.validate_simple_policy(sender_policy_id)?;
        self.validate_simple_policy(recipient_policy_id)?;
        self.validate_simple_policy(mint_recipient_policy_id)?;
        let new_policy_id = self.policy_id_counter()?;
        if new_policy_id == u64::MAX {
            return Err(BasePrecompileError::under_overflow());
        }
        self.policy_id_counter = new_policy_id + 1;
        self.policy_records.write(
            new_policy_id,
            PolicyRecord {
                base: PolicyData { policy_type: COMPOUND_CODE, admin: Address { bytes: [0u8; 20] } },
                compound: CompoundPolicyData {
                    sender_policy_id,
                    recipient_policy_id,
                    mint_recipient_policy_id,
                },
            },
        );
        self.events.push(
            B403RegistryEvent::CompoundPolicyCreated {
                policy_id: new_policy_id,
                creator: msg_sender,
                sender_policy_id,
                recipient_policy_id,
                mint_recipient_policy_id,
            },
        );
        Ok(new_policy_id)
    }
}

/// The address set of policy `id` after adding `accounts` (in order) to `m`.
pub open spec fn spec_add_accounts(
    m: Map<(u64, Seq<u8>), bool>,
    id: u64,
    accounts: Seq<Address>,
) -> Map<(u64, Seq<u8>), bool>
    decreases accounts.len(),
{
    if accounts.len() == 0 {
        m
    } else {
        spec_add_accounts(m, id, accounts.drop_last()).insert((id, accounts.last()@), true)
    }
}

/// The event announcing that `account` was added to a new policy of type `t`.
pub open spec fn spec_account_event(t: PolicyType, id: u64, sender: Address, account: Address) -> B403RegistryEvent {
    if t == PolicyType::Whitelist {
        B403RegistryEvent::WhitelistUpdated { policy_id: id, updater: sender, account, allowed: true }
    } else {
        B403RegistryEvent::BlacklistUpdated {
            policy_id: id,
            updater: sender,
            account,
            restricted: true,
        }
    }
}

/// The events announcing the initial accounts of a new policy of type `t`.
pub open spec fn spec_account_events(
    t: PolicyType,
    id: u64,
    sender: Address,
    accounts: Seq<Address>,
) -> Seq<B403RegistryEvent>
    decreases accounts.len(),
{
    if accounts.len() == 0 {
        Seq::empty()
    } else {
        spec_account_events(t, id, sender, accounts.drop_last()).push(
            spec_account_event(t, id, sender, accounts.last()),
        )
    }
}

/// Whether an address is a virtual (forwarding) address. No address is virtual on Base.
pub fn is_virtual(address: &Address) -> (r: bool)
    ensures
        r == false,
{
    false
}

/// Whether an error indicates a failed policy lookup: from Azul on `InvalidPolicyType` or
/// `PolicyNotFound`, before Azul the under/overflow panic.
pub fn is_policy_lookup_error(e: &BasePrecompileError, spec: BaseBSpec) -> (r: bool)
    ensures
        r == if spec.spec_enabled_in(BaseBSpec::Azul) {
            *e == b403_err(B403RegistryError::InvalidPolicyType) || *e == b403_err(
                B403RegistryError::PolicyNotFound,
            )
        } else {
            *e == overflow()
        },
{
    if spec.is_enabled_in(BaseBSpec::Azul) {
        match e {
            BasePrecompileError::B403RegistryError(B403RegistryError::InvalidPolicyType) => true,
            BasePrecompileError::B403RegistryError(B403RegistryError::PolicyNotFound) => true,
            _ => false,
        }
    } else {
        match e {
            BasePrecompileError::Panic(PanicKind::UnderOverflow) => true,
            _ => false,
        }
    }
}


/// A successful whitelist update decides what a created whitelist policy says of the account:
/// an added account is authorized, in every role, and a removed one is not.
pub proof fn lemma_whitelist_update_decides(
    before: &B403Registry,
    after: &B403Registry,
    sender: Address,
    id: u64,
    account: Address,
    allowed: bool,
    role: AuthRole,
)
    requires
        spec_builtin(id) is None,
        before.spec_modify_check(sender, id, PolicyType::Whitelist) is None,
        after.spec == before.spec,
        after.policy_id_counter == before.policy_id_counter,
        after.policy_records@ == before.policy_records@,
        after.policy_set@ == before.policy_set@.insert((id, account@), allowed),
    ensures
        after.spec_authorized_as(id, account, role) == Ok::<bool, BasePrecompileError>(allowed),
{
    assert(after.record(id) == before.record(id));
    assert(after.in_set(id, account) == allowed);
}

/// A successful blacklist update decides what a created blacklist policy says of the account:
/// a restricted account is not authorized, in any role, and an unrestricted one is.
pub proof fn lemma_blacklist_update_decides(
    before: &B403Registry,
    after: &B403Registry,
    sender: Address,
    id: u64,
    account: Address,
    restricted: bool,
    role: AuthRole,
)
    requires
        spec_builtin(id) is None,
        before.spec_modify_check(sender, id, PolicyType::Blacklist) is None,
        after.spec == before.spec,
        after.policy_id_counter == before.policy_id_counter,
        after.policy_records@ == before.policy_records@,
        after.policy_set@ == before.policy_set@.insert((id, account@), restricted),
    ensures
        after.spec_authorized_as(id, account, role) == Ok::<bool, BasePrecompileError>(!restricted),
{
    assert(after.record(id) == before.record(id));
    assert(after.in_set(id, account) == restricted);
}

/// The built-in policies answer every authorization alone: policy `0` rejects and policy `1`
/// allows every account in every role, whatever the registry holds.
pub proof fn lemma_builtin_policies(reg: &B403Registry, user: Address, role: AuthRole)
    ensures
        reg.spec_authorized_as(REJECT_ALL_POLICY_ID, user, role) == Ok::<bool, BasePrecompileError>(
            false,
        ),
        reg.spec_authorized_as(ALLOW_ALL_POLICY_ID, user, role) == Ok::<bool, BasePrecompileError>(
            true,
        ),
{
}


/// A compound policy answers each single role with the sub-policy that
/// `compound_policy_data` reports for it: the sender role with the sender sub-policy, the
/// recipient role with the recipient sub-policy and the mint-recipient role with the
/// mint-recipient sub-policy. A transfer is authorized exactly when the sender and recipient
/// sub-policies both authorize the user.
pub proof fn lemma_compound_roles_follow_sub_policies(reg: B403Registry, id: u64, user: Address)
    requires
        spec_builtin(id) is None,
        reg.spec_compound_policy_data(id) is Ok,
    ensures
        ({
            let (s, rc, m) = reg.spec_compound_policy_data(id)->Ok_0;
            &&& reg.spec_authorized_as(id, user, AuthRole::Sender) == reg.spec_authorized_simple(s, user)
            &&& reg.spec_authorized_as(id, user, AuthRole::Recipient) == reg.spec_authorized_simple(rc, user)
            &&& reg.spec_authorized_as(id, user, AuthRole::MintRecipient) == reg.spec_authorized_simple(m, user)
            &&& (reg.spec_authorized_as(id, user, AuthRole::Transfer) == Ok::<bool, BasePrecompileError>(true)
                <==> reg.spec_authorized_simple(s, user) == Ok::<bool, BasePrecompileError>(true)
                && reg.spec_authorized_simple(rc, user) == Ok::<bool, BasePrecompileError>(true))
        }),
{
}

} // verus!

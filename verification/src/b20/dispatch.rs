//! ABI dispatch of B20 token calls: decoding calldata into a [`B20Call`], and routing it.

use vstd::prelude::*;
use vstd::string::StringSliceAdditionalSpecFns;

use vstd::utf8::encode_utf8;

use crate::abi::{
    arg_address, arg_b256, arg_u256, arg_u64, arg_u8, arg_word, encode_string, encode_word,
    has_args, into_precompile_result, is_error_outcome, same_selector, selector, spec_bool_word,
    spec_selector, spec_string_return, spec_with_gas, with_gas, PrecompileOutcome,
};
use crate::b20::permit::spec_domain_separator;
use crate::b20::{
    spec_burn_blocked_role, spec_issuer_role, spec_pause_role, spec_unpause_role, B20Token,
};
use crate::b403_registry::B403Registry;
use crate::dispatch::{screen_selector, SelectorGate, SelectorSchedule};
use crate::error::{b20_err, B20Error, BasePrecompileError, Result};
use crate::primitives::{Address, B256};
use crate::spec::{input_cost, spec_input_cost, BaseBSpec};
use crate::storage::evm::deduct_gas;
use crate::word::{spec_be_value, spec_word_bytes, U256};

verus! {

/// A decoded call to a B20 token (the token interface and its role management).
#[derive(Clone, Copy, Debug)]
pub enum B20Call {
    /// `hasRole(address,bytes32)`.
    HasRole { account: Address, role: B256 },
    /// `getRoleAdmin(bytes32)`.
    GetRoleAdmin { role: B256 },
    /// `grantRole(bytes32,address)`.
    GrantRole { role: B256, account: Address },
    /// `revokeRole(bytes32,address)`.
    RevokeRole { role: B256, account: Address },
    /// `renounceRole(bytes32)`.
    RenounceRole { role: B256 },
    /// `setRoleAdmin(bytes32,bytes32)`.
    SetRoleAdmin { role: B256, admin_role: B256 },
    /// `name()`.
    Name,
    /// `symbol()`.
    Symbol,
    /// `decimals()`.
    Decimals,
    /// `totalSupply()`.
    TotalSupply,
    /// `balanceOf(address)`.
    BalanceOf { account: Address },
    /// `transfer(address,uint256)`.
    Transfer { to: Address, amount: U256 },
    /// `approve(address,uint256)`.
    Approve { spender: Address, amount: U256 },
    /// `allowance(address,address)`.
    Allowance { owner: Address, spender: Address },
    /// `transferFrom(address,address,uint256)`.
    TransferFrom { from: Address, to: Address, amount: U256 },
    /// `mint(address,uint256)`.
    Mint { to: Address, amount: U256 },
    /// `burn(uint256)`.
    Burn { amount: U256 },
    /// `currency()`.
    Currency,
    /// `supplyCap()`.
    SupplyCap,
    /// `paused()`.
    Paused,
    /// `transferPolicyId()`.
    TransferPolicyId,
    /// `burnBlocked(address,uint256)`.
    BurnBlocked { from: Address, amount: U256 },
    /// `mintWithMemo(address,uint256,bytes32)`.
    MintWithMemo { to: Address, amount: U256, memo: B256 },
    /// `burnWithMemo(uint256,bytes32)`.
    BurnWithMemo { amount: U256, memo: B256 },
    /// `transferWithMemo(address,uint256,bytes32)`.
    TransferWithMemo { to: Address, amount: U256, memo: B256 },
    /// `transferFromWithMemo(address,address,uint256,bytes32)`.
    TransferFromWithMemo { from: Address, to: Address, amount: U256, memo: B256 },
    /// `changeTransferPolicyId(uint64)`.
    ChangeTransferPolicyId { new_policy_id: u64 },
    /// `setSupplyCap(uint256)`.
    SetSupplyCap { new_supply_cap: U256 },
    /// `pause()`.
    Pause,
    /// `unpause()`.
    Unpause,
    /// `PAUSE_ROLE()`.
    PauseRole,
    /// `UNPAUSE_ROLE()`.
    UnpauseRole,
    /// `ISSUER_ROLE()`.
    IssuerRole,
    /// `BURN_BLOCKED_ROLE()`.
    BurnBlockedRole,
    /// `permit(address,address,uint256,uint256,uint8,bytes32,bytes32)`.
    Permit {
        owner: Address,
        spender: Address,
        value: U256,
        deadline: U256,
        v: u8,
        r: B256,
        s: B256,
    },
    /// `nonces(address)`.
    Nonces { owner: Address },
    /// `DOMAIN_SEPARATOR()`.
    DomainSeparator,
}

/// The number of decodable B20 calls.
pub const B20_CALL_COUNT: usize = 37;

/// The canonical signature of the B20 call with index `i`, in decoding order (the role
/// management calls first).
pub open spec fn b20_signature(i: int) -> Seq<u8> {
    if i == 0 {
        "hasRole(address,bytes32)".spec_bytes()
    } else if i == 1 {
        "getRoleAdmin(bytes32)".spec_bytes()
    } else if i == 2 {
        "grantRole(bytes32,address)".spec_bytes()
    } else if i == 3 {
        "revokeRole(bytes32,address)".spec_bytes()
    } else if i == 4 {
        "renounceRole(bytes32)".spec_bytes()
    } else if i == 5 {
        "setRoleAdmin(bytes32,bytes32)".spec_bytes()
    } else if i == 6 {
        "name()".spec_bytes()
    } else if i == 7 {
        "symbol()".spec_bytes()
    } else if i == 8 {
        "decimals()".spec_bytes()
    } else if i == 9 {
        "totalSupply()".spec_bytes()
    } else if i == 10 {
        "balanceOf(address)".spec_bytes()
    } else if i == 11 {
        "transfer(address,uint256)".spec_bytes()
    } else if i == 12 {
        "approve(address,uint256)".spec_bytes()
    } else if i == 13 {
        "allowance(address,address)".spec_bytes()
    } else if i == 14 {
        "transferFrom(address,address,uint256)".spec_bytes()
    } else if i == 15 {
        "mint(address,uint256)".spec_bytes()
    } else if i == 16 {
        "burn(uint256)".spec_bytes()
    } else if i == 17 {
        "currency()".spec_bytes()
    } else if i == 18 {
        "supplyCap()".spec_bytes()
    } else if i == 19 {
        "paused()".spec_bytes()
    } else if i == 20 {
        "transferPolicyId()".spec_bytes()
    } else if i == 21 {
        "burnBlocked(address,uint256)".spec_bytes()
    } else if i == 22 {
        "mintWithMemo(address,uint256,bytes32)".spec_bytes()
    } else if i == 23 {
        "burnWithMemo(uint256,bytes32)".spec_bytes()
    } else if i == 24 {
        "transferWithMemo(address,uint256,bytes32)".spec_bytes()
    } else if i == 25 {
        "transferFromWithMemo(address,address,uint256,bytes32)".spec_bytes()
    } else if i == 26 {
        "changeTransferPolicyId(uint64)".spec_bytes()
    } else if i == 27 {
        "setSupplyCap(uint256)".spec_bytes()
    } else if i == 28 {
        "pause()".spec_bytes()
    } else if i == 29 {
        "unpause()".spec_bytes()
    } else if i == 30 {
        "PAUSE_ROLE()".spec_bytes()
    } else if i == 31 {
        "UNPAUSE_ROLE()".spec_bytes()
    } else if i == 32 {
        "ISSUER_ROLE()".spec_bytes()
    } else if i == 33 {
        "BURN_BLOCKED_ROLE()".spec_bytes()
    } else if i == 34 {
        "permit(address,address,uint256,uint256,uint8,bytes32,bytes32)".spec_bytes()
    } else if i == 35 {
        "nonces(address)".spec_bytes()
    } else if i == 36 {
        "DOMAIN_SEPARATOR()".spec_bytes()
    } else {
        Seq::empty()
    }
}

/// The number of argument words of the B20 call with index `i`.
pub open spec fn b20_arg_words(i: int) -> nat {
    if i == 0 {
        2
    } else if i == 1 {
        1
    } else if i == 2 {
        2
    } else if i == 3 {
        2
    } else if i == 4 {
        1
    } else if i == 5 {
        2
    } else if i == 6 {
        0
    } else if i == 7 {
        0
    } else if i == 8 {
        0
    } else if i == 9 {
        0
    } else if i == 10 {
        1
    } else if i == 11 {
        2
    } else if i == 12 {
        2
    } else if i == 13 {
        2
    } else if i == 14 {
        3
    } else if i == 15 {
        2
    } else if i == 16 {
        1
    } else if i == 17 {
        0
    } else if i == 18 {
        0
    } else if i == 19 {
        0
    } else if i == 20 {
        0
    } else if i == 21 {
        2
    } else if i == 22 {
        3
    } else if i == 23 {
        2
    } else if i == 24 {
        3
    } else if i == 25 {
        4
    } else if i == 26 {
        1
    } else if i == 27 {
        1
    } else if i == 28 {
        0
    } else if i == 29 {
        0
    } else if i == 30 {
        0
    } else if i == 31 {
        0
    } else if i == 32 {
        0
    } else if i == 33 {
        0
    } else if i == 34 {
        7
    } else if i == 35 {
        1
    } else if i == 36 {
        0
    } else {
        0
    }
}

/// The canonical signature of the B20 call with index `i`.
fn b20_signature_str(i: usize) -> (r: &'static str)
    requires
        i < B20_CALL_COUNT,
    ensures
        r.spec_bytes() == b20_signature(i as int),
{
    match i {
        0 => "hasRole(address,bytes32)",
        1 => "getRoleAdmin(bytes32)",
        2 => "grantRole(bytes32,address)",
        3 => "revokeRole(bytes32,address)",
        4 => "renounceRole(bytes32)",
        5 => "setRoleAdmin(bytes32,bytes32)",
        6 => "name()",
        7 => "symbol()",
        8 => "decimals()",
        9 => "totalSupply()",
        10 => "balanceOf(address)",
        11 => "transfer(address,uint256)",
        12 => "approve(address,uint256)",
        13 => "allowance(address,address)",
        14 => "transferFrom(address,address,uint256)",
        15 => "mint(address,uint256)",
        16 => "burn(uint256)",
        17 => "currency()",
        18 => "supplyCap()",
        19 => "paused()",
        20 => "transferPolicyId()",
        21 => "burnBlocked(address,uint256)",
        22 => "mintWithMemo(address,uint256,bytes32)",
        23 => "burnWithMemo(uint256,bytes32)",
        24 => "transferWithMemo(address,uint256,bytes32)",
        25 => "transferFromWithMemo(address,address,uint256,bytes32)",
        26 => "changeTransferPolicyId(uint64)",
        27 => "setSupplyCap(uint256)",
        28 => "pause()",
        29 => "unpause()",
        30 => "PAUSE_ROLE()",
        31 => "UNPAUSE_ROLE()",
        32 => "ISSUER_ROLE()",
        33 => "BURN_BLOCKED_ROLE()",
        34 => "permit(address,address,uint256,uint256,uint8,bytes32,bytes32)",
        35 => "nonces(address)",
        36 => "DOMAIN_SEPARATOR()",
        _ => "DOMAIN_SEPARATOR()",
    }
}

/// The number of argument words of the B20 call with index `i`.
fn b20_arg_words_of(i: usize) -> (r: usize)
    requires
        i < B20_CALL_COUNT,
    ensures
        r == b20_arg_words(i as int),
        r <= 7,
{
    match i {
        0 => 2,
        1 => 1,
        2 => 2,
        3 => 2,
        4 => 1,
        5 => 2,
        6 => 0,
        7 => 0,
        8 => 0,
        9 => 0,
        10 => 1,
        11 => 2,
        12 => 2,
        13 => 2,
        14 => 3,
        15 => 2,
        16 => 1,
        17 => 0,
        18 => 0,
        19 => 0,
        20 => 0,
        21 => 2,
        22 => 3,
        23 => 2,
        24 => 3,
        25 => 4,
        26 => 1,
        27 => 1,
        28 => 0,
        29 => 0,
        30 => 0,
        31 => 0,
        32 => 0,
        33 => 0,
        34 => 7,
        35 => 1,
        36 => 0,
        _ => 0,
    }
}

/// The index of a decoded B20 call.
pub open spec fn b20_call_index(c: B20Call) -> int {
    match c {
        B20Call::HasRole { .. } => 0,
        B20Call::GetRoleAdmin { .. } => 1,
        B20Call::GrantRole { .. } => 2,
        B20Call::RevokeRole { .. } => 3,
        B20Call::RenounceRole { .. } => 4,
        B20Call::SetRoleAdmin { .. } => 5,
        B20Call::Name => 6,
        B20Call::Symbol => 7,
        B20Call::Decimals => 8,
        B20Call::TotalSupply => 9,
        B20Call::BalanceOf { .. } => 10,
        B20Call::Transfer { .. } => 11,
        B20Call::Approve { .. } => 12,
        B20Call::Allowance { .. } => 13,
        B20Call::TransferFrom { .. } => 14,
        B20Call::Mint { .. } => 15,
        B20Call::Burn { .. } => 16,
        B20Call::Currency => 17,
        B20Call::SupplyCap => 18,
        B20Call::Paused => 19,
        B20Call::TransferPolicyId => 20,
        B20Call::BurnBlocked { .. } => 21,
        B20Call::MintWithMemo { .. } => 22,
        B20Call::BurnWithMemo { .. } => 23,
        B20Call::TransferWithMemo { .. } => 24,
        B20Call::TransferFromWithMemo { .. } => 25,
        B20Call::ChangeTransferPolicyId { .. } => 26,
        B20Call::SetSupplyCap { .. } => 27,
        B20Call::Pause => 28,
        B20Call::Unpause => 29,
        B20Call::PauseRole => 30,
        B20Call::UnpauseRole => 31,
        B20Call::IssuerRole => 32,
        B20Call::BurnBlockedRole => 33,
        B20Call::Permit { .. } => 34,
        B20Call::Nonces { .. } => 35,
        B20Call::DomainSeparator => 36,
    }
}

/// Whether the arguments of `c` are those that calldata `data` holds.
pub open spec fn b20_args_match(data: Seq<u8>, c: B20Call) -> bool {
    match c {
        B20Call::HasRole { account, role } => {
            &&& account@ == arg_word(data, 0).subrange(12, 32)
            &&& role@ == arg_word(data, 1)
        },
        B20Call::GetRoleAdmin { role } => role@ == arg_word(data, 0),
        B20Call::GrantRole { role, account } => {
            &&& role@ == arg_word(data, 0)
            &&& account@ == arg_word(data, 1).subrange(12, 32)
        },
        B20Call::RevokeRole { role, account } => {
            &&& role@ == arg_word(data, 0)
            &&& account@ == arg_word(data, 1).subrange(12, 32)
        },
        B20Call::RenounceRole { role } => role@ == arg_word(data, 0),
        B20Call::SetRoleAdmin { role, admin_role } => {
            &&& role@ == arg_word(data, 0)
            &&& admin_role@ == arg_word(data, 1)
        },
        B20Call::Name => true,
        B20Call::Symbol => true,
        B20Call::Decimals => true,
        B20Call::TotalSupply => true,
        B20Call::BalanceOf { account } => account@ == arg_word(data, 0).subrange(12, 32),
        B20Call::Transfer { to, amount } => {
            &&& to@ == arg_word(data, 0).subrange(12, 32)
            &&& amount.value() == spec_be_value(arg_word(data, 1))
        },
        B20Call::Approve { spender, amount } => {
            &&& spender@ == arg_word(data, 0).subrange(12, 32)
            &&& amount.value() == spec_be_value(arg_word(data, 1))
        },
        B20Call::Allowance { owner, spender } => {
            &&& owner@ == arg_word(data, 0).subrange(12, 32)
            &&& spender@ == arg_word(data, 1).subrange(12, 32)
        },
        B20Call::TransferFrom { from, to, amount } => {
            &&& from@ == arg_word(data, 0).subrange(12, 32)
            &&& to@ == arg_word(data, 1).subrange(12, 32)
            &&& amount.value() == spec_be_value(arg_word(data, 2))
        },
        B20Call::Mint { to, amount } => {
            &&& to@ == arg_word(data, 0).subrange(12, 32)
            &&& amount.value() == spec_be_value(arg_word(data, 1))
        },
        B20Call::Burn { amount } => amount.value() == spec_be_value(arg_word(data, 0)),
        B20Call::Currency => true,
        B20Call::SupplyCap => true,
        B20Call::Paused => true,
        B20Call::TransferPolicyId => true,
        B20Call::BurnBlocked { from, amount } => {
            &&& from@ == arg_word(data, 0).subrange(12, 32)
            &&& amount.value() == spec_be_value(arg_word(data, 1))
        },
        B20Call::MintWithMemo { to, amount, memo } => {
            &&& to@ == arg_word(data, 0).subrange(12, 32)
            &&& amount.value() == spec_be_value(arg_word(data, 1))
            &&& memo@ == arg_word(data, 2)
        },
        B20Call::BurnWithMemo { amount, memo } => {
            &&& amount.value() == spec_be_value(arg_word(data, 0))
            &&& memo@ == arg_word(data, 1)
        },
        B20Call::TransferWithMemo { to, amount, memo } => {
            &&& to@ == arg_word(data, 0).subrange(12, 32)
            &&& amount.value() == spec_be_value(arg_word(data, 1))
            &&& memo@ == arg_word(data, 2)
        },
        B20Call::TransferFromWithMemo { from, to, amount, memo } => {
            &&& from@ == arg_word(data, 0).subrange(12, 32)
            &&& to@ == arg_word(data, 1).subrange(12, 32)
            &&& amount.value() == spec_be_value(arg_word(data, 2))
            &&& memo@ == arg_word(data, 3)
        },
        B20Call::ChangeTransferPolicyId { new_policy_id } => {
            &&& new_policy_id == spec_be_value(arg_word(data, 0).subrange(24, 32))
        },
        B20Call::SetSupplyCap { new_supply_cap } => {
            &&& new_supply_cap.value() == spec_be_value(arg_word(data, 0))
        },
        B20Call::Pause => true,
        B20Call::Unpause => true,
        B20Call::PauseRole => true,
        B20Call::UnpauseRole => true,
        B20Call::IssuerRole => true,
        B20Call::BurnBlockedRole => true,
        B20Call::Permit { owner, spender, value, deadline, v, r, s } => {
            &&& owner@ == arg_word(data, 0).subrange(12, 32)
            &&& spender@ == arg_word(data, 1).subrange(12, 32)
            &&& value.value() == spec_be_value(arg_word(data, 2))
            &&& deadline.value() == spec_be_value(arg_word(data, 3))
            &&& v == arg_word(data, 4)[31]
            &&& r@ == arg_word(data, 5)
            &&& s@ == arg_word(data, 6)
        },
        B20Call::Nonces { owner } => owner@ == arg_word(data, 0).subrange(12, 32),
        B20Call::DomainSeparator => true,
    }
}

/// The B20 call with index `i` and the arguments that `data` holds.
fn build_b20_call(data: &[u8], i: usize) -> (r: B20Call)
    requires
        i < B20_CALL_COUNT,
        has_args(data@, b20_arg_words(i as int)),
    ensures
        b20_call_index(r) == i,
        b20_args_match(data@, r),
{
    match i {
        0 => B20Call::HasRole { account: arg_address(data, 0), role: arg_b256(data, 1) },
        1 => B20Call::GetRoleAdmin { role: arg_b256(data, 0) },
        2 => B20Call::GrantRole { role: arg_b256(data, 0), account: arg_address(data, 1) },
        3 => B20Call::RevokeRole { role: arg_b256(data, 0), account: arg_address(data, 1) },
        4 => B20Call::RenounceRole { role: arg_b256(data, 0) },
        5 => B20Call::SetRoleAdmin { role: arg_b256(data, 0), admin_role: arg_b256(data, 1) },
        6 => B20Call::Name,
        7 => B20Call::Symbol,
        8 => B20Call::Decimals,
        9 => B20Call::TotalSupply,
        10 => B20Call::BalanceOf { account: arg_address(data, 0) },
        11 => B20Call::Transfer { to: arg_address(data, 0), amount: arg_u256(data, 1) },
        12 => B20Call::Approve { spender: arg_address(data, 0), amount: arg_u256(data, 1) },
        13 => B20Call::Allowance { owner: arg_address(data, 0), spender: arg_address(data, 1) },
        14 => B20Call::TransferFrom {
            from: arg_address(data, 0),
            to: arg_address(data, 1),
            amount: arg_u256(data, 2),
        },
        15 => B20Call::Mint { to: arg_address(data, 0), amount: arg_u256(data, 1) },
        16 => B20Call::Burn { amount: arg_u256(data, 0) },
        17 => B20Call::Currency,
        18 => B20Call::SupplyCap,
        19 => B20Call::Paused,
        20 => B20Call::TransferPolicyId,
        21 => B20Call::BurnBlocked { from: arg_address(data, 0), amount: arg_u256(data, 1) },
        22 => B20Call::MintWithMemo {
            to: arg_address(data, 0),
            amount: arg_u256(data, 1),
            memo: arg_b256(data, 2),
        },
        23 => B20Call::BurnWithMemo { amount: arg_u256(data, 0), memo: arg_b256(data, 1) },
        24 => B20Call::TransferWithMemo {
            to: arg_address(data, 0),
            amount: arg_u256(data, 1),
            memo: arg_b256(data, 2),
        },
        25 => B20Call::TransferFromWithMemo {
            from: arg_address(data, 0),
            to: arg_address(data, 1),
            amount: arg_u256(data, 2),
            memo: arg_b256(data, 3),
        },
        26 => B20Call::ChangeTransferPolicyId { new_policy_id: arg_u64(data, 0) },
        27 => B20Call::SetSupplyCap { new_supply_cap: arg_u256(data, 0) },
        28 => B20Call::Pause,
        29 => B20Call::Unpause,
        30 => B20Call::PauseRole,
        31 => B20Call::UnpauseRole,
        32 => B20Call::IssuerRole,
        33 => B20Call::BurnBlockedRole,
        34 => B20Call::Permit {
            owner: arg_address(data, 0),
            spender: arg_address(data, 1),
            value: arg_u256(data, 2),
            deadline: arg_u256(data, 3),
            v: arg_u8(data, 4),
            r: arg_b256(data, 5),
            s: arg_b256(data, 6),
        },
        35 => B20Call::Nonces { owner: arg_address(data, 0) },
        36 => B20Call::DomainSeparator,
        _ => B20Call::DomainSeparator,
    }
}

/// The index of the first B20 call, from index `i` on, whose selector is `sel`
/// ([`B20_CALL_COUNT`] when there is none).
pub open spec fn b20_first_call_from(sel: Seq<u8>, i: int) -> int
    decreases B20_CALL_COUNT - i,
{
    if i >= B20_CALL_COUNT {
        B20_CALL_COUNT as int
    } else if spec_selector(b20_signature(i)) == sel {
        i
    } else {
        b20_first_call_from(sel, i + 1)
    }
}

/// The index of the B20 call that the selector `sel` names ([`B20_CALL_COUNT`] when it names
/// none).
pub open spec fn spec_b20_call_index(sel: Seq<u8>) -> int {
    b20_first_call_from(sel, 0)
}

/// The index of the B20 call that `sel` names.
fn find_b20_call(sel: [u8; 4]) -> (r: usize)
    ensures
        r == spec_b20_call_index(sel@),
        r <= B20_CALL_COUNT,
{
    let mut i: usize = 0;
    while i < B20_CALL_COUNT
        invariant
            i <= B20_CALL_COUNT,
            b20_first_call_from(sel@, 0) == b20_first_call_from(sel@, i as int),
        decreases B20_CALL_COUNT - i,
    {
        let s = selector(b20_signature_str(i));
        if same_selector(s, sel) {
            return i;
        }
        i = i + 1;
    }
    i
}

/// Why calldata does not decode into a call.
#[derive(Clone, Copy, Debug, PartialEq, Eq, Structural)]
pub enum DecodeFailure {
    /// The selector names no function of the interface.
    UnknownSelector,
    /// The arguments are cut short.
    Malformed,
}

/// Decodes the calldata of a B20 call (selector, then static argument words).
///
/// An unknown selector and too few argument words are failures; bytes after the last
/// argument are ignored, and an argument word is read without checking its unused bytes.
pub fn decode_b20_call(data: &[u8]) -> (r: std::result::Result<B20Call, DecodeFailure>)
    requires
        data@.len() >= 4,
    ensures
        ({
            let i = spec_b20_call_index(data@.subrange(0, 4));
            &&& 0 <= i <= B20_CALL_COUNT
            &&& i == B20_CALL_COUNT ==> r == Err::<B20Call, DecodeFailure>(
                DecodeFailure::UnknownSelector,
            )
            &&& i < B20_CALL_COUNT && !has_args(data@, b20_arg_words(i)) ==> r == Err::<
                B20Call,
                DecodeFailure,
            >(DecodeFailure::Malformed)
            &&& i < B20_CALL_COUNT && has_args(data@, b20_arg_words(i)) ==> (r matches Ok(c)
                && b20_call_index(c) == i && b20_args_match(data@, c))
        }),
{
    let sel: [u8; 4] = [data[0], data[1], data[2], data[3]];
    assert(sel@ =~= data@.subrange(0, 4));
    let i = find_b20_call(sel);
    if i == B20_CALL_COUNT {
        return Err(DecodeFailure::UnknownSelector);
    }
    let words = b20_arg_words_of(i);
    if data.len() < 4 + 32 * words {
        return Err(DecodeFailure::Malformed);
    }
    Ok(build_b20_call(data, i))
}

/// What a precompile call sees of its surroundings.
#[derive(Clone, Copy, Debug)]
pub struct CallEnv {
    /// The gas the call may use.
    pub gas_limit: u64,
    /// Whether the call is static, so that it may not change state.
    pub is_static: bool,
    /// The timestamp of the block.
    pub timestamp: U256,
    /// The chain id.
    pub chain_id: u64,
}

/// The revert data of a state-changing call made statically.
pub open spec fn spec_static_call_revert() -> Seq<u8> {
    spec_selector("StaticCallNotAllowed()".spec_bytes())
}

/// Whether `r` is the outcome of a call whose method returned `res`, a `bool`.
pub open spec fn bool_outcome(res: Result<bool>, r: PrecompileOutcome) -> bool {
    match res {
        Ok(b) => r matches PrecompileOutcome::Success(_, bytes) && bytes@ == spec_bool_word(b),
        Err(e) => is_error_outcome(r, e),
    }
}

/// Whether `r` is the outcome of a call whose method returned `res`, with no value.
pub open spec fn unit_outcome(res: Result<()>, r: PrecompileOutcome) -> bool {
    match res {
        Ok(_) => r matches PrecompileOutcome::Success(_, bytes) && bytes@ == Seq::<u8>::empty(),
        Err(e) => is_error_outcome(r, e),
    }
}

/// Whether `r` is a successful outcome returning `data`.
pub open spec fn returns_data(r: PrecompileOutcome, data: Seq<u8>) -> bool {
    r matches PrecompileOutcome::Success(_, bytes) && bytes@ == data
}

/// Whether `r` is a revert with `data`.
pub open spec fn reverts_with(r: PrecompileOutcome, data: Seq<u8>) -> bool {
    r matches PrecompileOutcome::Revert(_, bytes) && bytes@ == data
}

/// Whether a call changes state.
pub open spec fn is_mutating(c: B20Call) -> bool {
    !(c is Name || c is Symbol || c is Decimals || c is Currency || c is TotalSupply
        || c is SupplyCap || c is TransferPolicyId || c is Paused || c is BalanceOf
        || c is Allowance || c is PauseRole || c is UnpauseRole || c is IssuerRole
        || c is BurnBlockedRole || c is Nonces || c is DomainSeparator || c is HasRole
        || c is GetRoleAdmin)
}

impl B20Token {
    /// How the call `c` from `sender` on the token `self` ends with outcome `r` and token
    /// `new`: a view returns the ABI encoding of its value and changes nothing; a state-changing
    /// call made statically reverts with `StaticCallNotAllowed`; any other call does what its
    /// method does, and returns the encoding of the method's value or its error.
    pub open spec fn spec_b20_executed(
        &self,
        new: &B20Token,
        registry: &B403Registry,
        c: B20Call,
        sender: Address,
        env: CallEnv,
        r: PrecompileOutcome,
    ) -> bool {
        if !is_mutating(c) {
            &&& *new == *self
            &&& match c {
                B20Call::Name => returns_data(r, spec_string_return(encode_utf8(self.name@))),
                B20Call::Symbol => returns_data(r, spec_string_return(encode_utf8(self.symbol@))),
                B20Call::Currency => returns_data(r, spec_string_return(encode_utf8(self.currency@))),
                B20Call::Decimals => returns_data(r, spec_word_bytes(6)),
                B20Call::TotalSupply => returns_data(r, spec_word_bytes(self.total_supply.value())),
                B20Call::SupplyCap => returns_data(r, spec_word_bytes(self.supply_cap.value())),
                B20Call::TransferPolicyId => returns_data(
                    r,
                    spec_word_bytes(self.transfer_policy_id as nat),
                ),
                B20Call::Paused => returns_data(r, spec_bool_word(self.paused)),
                B20Call::BalanceOf { account } => returns_data(r, spec_word_bytes(self.bal(account@))),
                B20Call::Allowance { owner, spender } => returns_data(
                    r,
                    spec_word_bytes(self.allowance_of(owner@, spender@)),
                ),
                B20Call::PauseRole => returns_data(r, spec_pause_role()),
                B20Call::UnpauseRole => returns_data(r, spec_unpause_role()),
                B20Call::IssuerRole => returns_data(r, spec_issuer_role()),
                B20Call::BurnBlockedRole => returns_data(r, spec_burn_blocked_role()),
                B20Call::Nonces { owner } => returns_data(
                    r,
                    spec_word_bytes(self.permit_nonces.get(owner@).value()),
                ),
                B20Call::DomainSeparator => returns_data(
                    r,
                    spec_domain_separator(self.name@, env.chain_id, self.address@),
                ),
                B20Call::HasRole { account, role } => returns_data(
                    r,
                    spec_bool_word(self.holds(account@, role@)),
                ),
                B20Call::GetRoleAdmin { role } => returns_data(r, self.admin_of(role@)@),
                _ => false,
            }
        } else if env.is_static {
            &&& *new == *self
            &&& reverts_with(r, spec_static_call_revert())
        } else {
            match c {
                B20Call::Transfer { to, amount } => exists|res: Result<bool>|
                    self.post_transfer(new, sender, to, amount, registry, res) && bool_outcome(
                        res,
                        r,
                    ),
                B20Call::TransferFrom { from, to, amount } => exists|res: Result<bool>|
                    self.post_transfer_from(new, sender, from, to, amount, registry, res)
                        && bool_outcome(res, r),
                B20Call::TransferFromWithMemo { from, to, amount, memo } => exists|
                    res: Result<bool>,
                |
                    self.post_transfer_from_with_memo(new, sender, from, to, amount, memo, registry, res)
                        && bool_outcome(res, r),
                B20Call::Approve { spender, amount } => exists|res: Result<bool>|
                    self.post_approve(new, sender, spender, amount, res) && bool_outcome(res, r),
                B20Call::ChangeTransferPolicyId { new_policy_id } => exists|res: Result<()>|
                    self.post_change_transfer_policy_id(new, sender, new_policy_id, registry, res)
                        && unit_outcome(res, r),
                B20Call::SetSupplyCap { new_supply_cap } => exists|res: Result<()>|
                    self.post_set_supply_cap(new, sender, new_supply_cap, res) && unit_outcome(
                        res,
                        r,
                    ),
                B20Call::Pause => exists|res: Result<()>|
                    self.post_pause(new, sender, res) && unit_outcome(res, r),
                B20Call::Unpause => exists|res: Result<()>|
                    self.post_unpause(new, sender, res) && unit_outcome(res, r),
                B20Call::Mint { to, amount } => exists|res: Result<()>|
                    self.post_mint(new, sender, to, amount, registry, res) && unit_outcome(res, r),
                B20Call::MintWithMemo { to, amount, memo } => exists|res: Result<()>|
                    self.post_mint_with_memo(new, sender, to, amount, memo, registry, res)
                        && unit_outcome(res, r),
                B20Call::Burn { amount } => exists|res: Result<()>|
                    self.post_burn(new, sender, amount, res) && unit_outcome(res, r),
                B20Call::BurnWithMemo { amount, memo } => exists|res: Result<()>|
                    self.post_burn_with_memo(new, sender, amount, memo, res) && unit_outcome(res, r),
                B20Call::BurnBlocked { from, amount } => exists|res: Result<()>|
                    self.post_burn_blocked(new, sender, from, amount, registry, res) && unit_outcome(
                        res,
                        r,
                    ),
                B20Call::TransferWithMemo { to, amount, memo } => exists|res: Result<()>|
                    self.post_transfer_with_memo(new, sender, to, amount, memo, registry, res)
                        && unit_outcome(res, r),
                B20Call::Permit { owner, spender, value, deadline, v, r: sig_r, s: sig_s } => exists|
                    res: Result<()>,
                |
                    self.post_permit(
                        new,
                        env.timestamp,
                        env.chain_id,
                        owner,
                        spender,
                        value,
                        deadline,
                        v,
                        sig_r,
                        sig_s,
                        res,
                    ) && unit_outcome(res, r),
                B20Call::GrantRole { role, account } => exists|res: Result<()>|
                    self.post_grant_role(new, sender, role, account, res) && unit_outcome(res, r),
                B20Call::RevokeRole { role, account } => exists|res: Result<()>|
                    self.post_revoke_role(new, sender, role, account, res) && unit_outcome(res, r),
                B20Call::RenounceRole { role } => exists|res: Result<()>|
                    self.post_renounce_role(new, sender, role, res) && unit_outcome(res, r),
                B20Call::SetRoleAdmin { role, admin_role } => exists|res: Result<()>|
                    self.post_set_role_admin(new, sender, role, admin_role, res) && unit_outcome(
                        res,
                        r,
                    ),
                _ => false,
            }
        }
    }

    /// The outcome of a call that returned `res`, a `bool`.
    fn bool_call_outcome(res: Result<bool>) -> (r: PrecompileOutcome)
        ensures
            bool_outcome(res, r),
    {
        match res {
            Ok(b) => PrecompileOutcome::Success(0, encode_word(U256::from_u64(if b { 1 } else { 0 }))),
            Err(e) => into_precompile_result(e, 0, 0),
        }
    }

    /// The outcome of a call that returned `res`, with no value.
    fn unit_call_outcome(res: Result<()>) -> (r: PrecompileOutcome)
        ensures
            unit_outcome(res, r),
    {
        match res {
            Ok(_) => PrecompileOutcome::Success(0, Vec::new()),
            Err(e) => into_precompile_result(e, 0, 0),
        }
    }

    /// Runs the decoded call `c` from `sender`.
    pub fn execute(&mut self, registry: &B403Registry, c: B20Call, sender: Address, env: &CallEnv) -> (r:
        PrecompileOutcome)
        requires
            old(self).wf(),
        ensures
            final(self).wf(),
            old(self).spec_b20_executed(final(self), registry, c, sender, *env, r),
    {
        if is_mutating_call(&c) && env.is_static {
            let data = selector("StaticCallNotAllowed()");
            return PrecompileOutcome::Revert(0, vstd::slice::slice_to_vec(&data));
        }
        match c {
            B20Call::Name => PrecompileOutcome::Success(0, encode_string(self.name.as_str())),
            B20Call::Symbol => PrecompileOutcome::Success(0, encode_string(self.symbol.as_str())),
            B20Call::Currency => PrecompileOutcome::Success(0, encode_string(self.currency.as_str())),
            B20Call::Decimals => PrecompileOutcome::Success(0, encode_word(U256::from_u64(6))),
            B20Call::TotalSupply => PrecompileOutcome::Success(0, encode_word(self.total_supply)),
            B20Call::SupplyCap => PrecompileOutcome::Success(0, encode_word(self.supply_cap)),
            B20Call::TransferPolicyId => PrecompileOutcome::Success(0,
                encode_word(U256::from_u64(self.transfer_policy_id)),
            ),
            B20Call::Paused => PrecompileOutcome::Success(0,
                encode_word(U256::from_u64(if self.paused { 1 } else { 0 })),
            ),
            B20Call::BalanceOf { account } => PrecompileOutcome::Success(0,
                encode_word(self.balances.read(&account)),
            ),
            B20Call::Allowance { owner, spender } => PrecompileOutcome::Success(0,
                encode_word(self.allowances.read(&(owner, spender))),
            ),
            B20Call::PauseRole => PrecompileOutcome::Success(0, vstd::slice::slice_to_vec(&B20Token::pause_role().bytes)),
            B20Call::UnpauseRole => PrecompileOutcome::Success(0,
                vstd::slice::slice_to_vec(&B20Token::unpause_role().bytes),
            ),
            B20Call::IssuerRole => PrecompileOutcome::Success(0, vstd::slice::slice_to_vec(&B20Token::issuer_role().bytes)),
            B20Call::BurnBlockedRole => PrecompileOutcome::Success(0,
                vstd::slice::slice_to_vec(&B20Token::burn_blocked_role().bytes),
            ),
            B20Call::Nonces { owner } => PrecompileOutcome::Success(0,
                encode_word(self.permit_nonces.read(&owner)),
            ),
            B20Call::DomainSeparator => match self.domain_separator(env.chain_id) {
                Ok(d) => PrecompileOutcome::Success(0, vstd::slice::slice_to_vec(&d.bytes)),
                Err(e) => into_precompile_result(e, 0, 0),
            },
            B20Call::HasRole { account, role } => match self.has_role(account, role) {
                Ok(b) => PrecompileOutcome::Success(0, encode_word(U256::from_u64(if b { 1 } else { 0 }))),
                Err(e) => into_precompile_result(e, 0, 0),
            },
            B20Call::GetRoleAdmin { role } => match self.get_role_admin(role) {
                Ok(a) => PrecompileOutcome::Success(0, vstd::slice::slice_to_vec(&a.bytes)),
                Err(e) => into_precompile_result(e, 0, 0),
            },
            B20Call::Transfer { to, amount } => {
                let res = self.transfer(sender, to, amount, registry);
                B20Token::bool_call_outcome(res)
            },
            B20Call::TransferFrom { from, to, amount } => {
                let res = self.transfer_from(sender, from, to, amount, registry);
                B20Token::bool_call_outcome(res)
            },
            B20Call::TransferFromWithMemo { from, to, amount, memo } => {
                let res = self.transfer_from_with_memo(sender, from, to, amount, memo, registry);
                B20Token::bool_call_outcome(res)
            },
            B20Call::Approve { spender, amount } => {
                let res = self.approve(sender, spender, amount);
                B20Token::bool_call_outcome(res)
            },
            B20Call::ChangeTransferPolicyId { new_policy_id } => {
                let res = self.change_transfer_policy_id(sender, new_policy_id, registry);
                B20Token::unit_call_outcome(res)
            },
            B20Call::SetSupplyCap { new_supply_cap } => {
                let res = self.set_supply_cap(sender, new_supply_cap);
                B20Token::unit_call_outcome(res)
            },
            B20Call::Pause => {
                let res = self.pause(sender);
                B20Token::unit_call_outcome(res)
            },
            B20Call::Unpause => {
                let res = self.unpause(sender);
                B20Token::unit_call_outcome(res)
            },
            B20Call::Mint { to, amount } => {
                let res = self.mint(sender, to, amount, registry);
                B20Token::unit_call_outcome(res)
            },
            B20Call::MintWithMemo { to, amount, memo } => {
                let res = self.mint_with_memo(sender, to, amount, memo, registry);
                B20Token::unit_call_outcome(res)
            },
            B20Call::Burn { amount } => {
                let res = self.burn(sender, amount);
                B20Token::unit_call_outcome(res)
            },
            B20Call::BurnWithMemo { amount, memo } => {
                let res = self.burn_with_memo(sender, amount, memo);
                B20Token::unit_call_outcome(res)
            },
            B20Call::BurnBlocked { from, amount } => {
                let res = self.burn_blocked(sender, from, amount, registry);
                B20Token::unit_call_outcome(res)
            },
            B20Call::TransferWithMemo { to, amount, memo } => {
                let res = self.transfer_with_memo(sender, to, amount, memo, registry);
                B20Token::unit_call_outcome(res)
            },
            B20Call::Permit { owner, spender, value, deadline, v, r, s } => {
                let res = self.permit(
                    env.timestamp,
                    env.chain_id,
                    owner,
                    spender,
                    value,
                    deadline,
                    v,
                    r,
                    s,
                );
                B20Token::unit_call_outcome(res)
            },
            B20Call::GrantRole { role, account } => {
                let res = self.grant_role(sender, role, account);
                B20Token::unit_call_outcome(res)
            },
            B20Call::RevokeRole { role, account } => {
                let res = self.revoke_role(sender, role, account);
                B20Token::unit_call_outcome(res)
            },
            B20Call::RenounceRole { role } => {
                let res = self.renounce_role(sender, role);
                B20Token::unit_call_outcome(res)
            },
            B20Call::SetRoleAdmin { role, admin_role } => {
                let res = self.set_role_admin(sender, role, admin_role);
                B20Token::unit_call_outcome(res)
            },
        }
    }
}

/// Whether the selector `sel` is gated out under `spec`: the permit functions (`permit`,
/// `nonces` and `DOMAIN_SEPARATOR`) are unknown before Beryl.
pub open spec fn spec_b20_gated(spec: BaseBSpec, sel: Seq<u8>) -> bool {
    &&& !spec.spec_enabled_in(BaseBSpec::Beryl)
    &&& {
        ||| sel == spec_selector(b20_signature(34))
        ||| sel == spec_selector(b20_signature(35))
        ||| sel == spec_selector(b20_signature(36))
    }
}

/// The revert data of an unknown selector `sel`.
pub open spec fn spec_unknown_selector_revert(sel: Seq<u8>) -> Seq<u8> {
    spec_selector("UnknownFunctionSelector(bytes4)".spec_bytes()) + sel + Seq::new(28, |i: int| 0u8)
}

impl B20Token {
    /// How a call with `calldata` from `msg_sender` on the token `self` ends, with outcome `r`
    /// and token `new`.
    ///
    /// The calldata gas is charged first (out of gas when it exceeds the limit); an
    /// uninitialized token fails with `Uninitialized`; calldata shorter than a selector
    /// reverts with empty data; a gated or unknown selector fails with
    /// `UnknownFunctionSelector`; cut-short arguments revert with empty data; otherwise the
    /// decoded call runs.
    pub open spec fn spec_b20_call(
        &self,
        new: &B20Token,
        registry: &B403Registry,
        calldata: Seq<u8>,
        sender: Address,
        env: CallEnv,
        r: PrecompileOutcome,
    ) -> bool {
        let sel = calldata.subrange(0, 4);
        let i = spec_b20_call_index(sel);
        if spec_input_cost(calldata.len()) > env.gas_limit {
            *new == *self && r == PrecompileOutcome::OutOfGas
        } else if !self.initialized {
            *new == *self && is_error_outcome(r, b20_err(B20Error::Uninitialized))
        } else if calldata.len() < 4 {
            *new == *self && reverts_with(r, Seq::empty())
        } else if spec_b20_gated(self.spec, sel) || i == B20_CALL_COUNT {
            *new == *self && reverts_with(r, spec_unknown_selector_revert(sel))
        } else if !has_args(calldata, b20_arg_words(i)) {
            *new == *self && reverts_with(r, Seq::empty())
        } else {
            exists|c: B20Call|
                b20_call_index(c) == i && b20_args_match(calldata, c) && #[trigger] self.spec_b20_executed(
                    new,
                    registry,
                    c,
                    sender,
                    env,
                    r,
                )
        }
    }

    /// Handles a call to this token with `calldata` from `msg_sender`. An outcome that
    /// returns or reverts reports the gas charged here: the calldata cost.
    pub fn call(&mut self, registry: &B403Registry, calldata: &[u8], msg_sender: Address, env: &CallEnv) -> (r:
        PrecompileOutcome)
        requires
            old(self).wf(),
        ensures
            final(self).wf(),
            exists|o: PrecompileOutcome|
                old(self).spec_b20_call(final(self), registry, calldata@, msg_sender, *env, o)
                    && r == #[trigger] spec_with_gas(o, spec_input_cost(calldata@.len()) as u64),
    {
        let cost = input_cost(calldata.len());
        let o = self.run_call(registry, calldata, msg_sender, env);
        let r = with_gas(o, cost);
        proof {
            assert(old(self).spec_b20_call(&*self, registry, calldata@, msg_sender, *env, o));
            assert(cost == spec_input_cost(calldata@.len()) as u64);
            assert(r == spec_with_gas(o, spec_input_cost(calldata@.len()) as u64));
        }
        r
    }

    /// Handles a call as [`Self::call`] does, reporting no gas used.
    fn run_call(&mut self, registry: &B403Registry, calldata: &[u8], msg_sender: Address, env: &CallEnv) -> (r:
        PrecompileOutcome)
        requires
            old(self).wf(),
        ensures
            final(self).wf(),
            old(self).spec_b20_call(final(self), registry, calldata@, msg_sender, *env, r),
    {
        let mut gas = env.gas_limit;
        if deduct_gas(&mut gas, input_cost(calldata.len())).is_err() {
            return PrecompileOutcome::OutOfGas;
        }
        if !self.initialized {
            return into_precompile_result(BasePrecompileError::B20(B20Error::uninitialized()), 0, 0);
        }
        let added: [[u8; 4]; 3] = [
            selector(b20_signature_str(34)),
            selector(b20_signature_str(35)),
            selector(b20_signature_str(36)),
        ];
        let schedules = [SelectorSchedule::new(BaseBSpec::Beryl).with_added(&added)];
        let sel = match screen_selector(calldata, &schedules, self.spec) {
            SelectorGate::TooShort => {
                return PrecompileOutcome::Revert(0, Vec::new());
            },
            SelectorGate::Gated(s) => {
                proof {
                    let rej = choose|k: int|
                        0 <= k < schedules@.len() && #[trigger] schedules@[k].spec_rejects(
                            calldata@.subrange(0, 4),
                            self.spec,
                        );
                    assert(rej == 0);
                    assert(!self.spec.spec_enabled_in(BaseBSpec::Beryl));
                }
                return into_precompile_result(BasePrecompileError::UnknownFunctionSelector(s), 0, 0);
            },
            SelectorGate::Open(s) => s,
        };
        proof {
            assert(!schedules@[0].spec_rejects(calldata@.subrange(0, 4), self.spec));
            if !self.spec.spec_enabled_in(BaseBSpec::Beryl) {
                assert(!crate::dispatch::lists(added@, sel@));
                if sel@ == spec_selector(b20_signature(34)) {
                    assert(added@[0]@ == sel@);
                }
                if sel@ == spec_selector(b20_signature(35)) {
                    assert(added@[1]@ == sel@);
                }
                if sel@ == spec_selector(b20_signature(36)) {
                    assert(added@[2]@ == sel@);
                }
            }
        }
        match decode_b20_call(calldata) {
            Err(DecodeFailure::UnknownSelector) => into_precompile_result(BasePrecompileError::UnknownFunctionSelector(sel), 0, 0),
            Err(DecodeFailure::Malformed) => PrecompileOutcome::Revert(0, Vec::new()),
            Ok(c) => {
                let r = self.execute(registry, c, msg_sender, env);
                proof {
                    assert(old(self).spec_b20_executed(&*self, registry, c, msg_sender, *env, r));
                }
                r
            },
        }
    }
}

/// Whether a call changes state.
fn is_mutating_call(c: &B20Call) -> (r: bool)
    ensures
        r == is_mutating(*c),
{
    match c {
        B20Call::Name | B20Call::Symbol | B20Call::Decimals | B20Call::Currency
        | B20Call::TotalSupply | B20Call::SupplyCap | B20Call::TransferPolicyId | B20Call::Paused
        | B20Call::BalanceOf { .. } | B20Call::Allowance { .. } | B20Call::PauseRole
        | B20Call::UnpauseRole | B20Call::IssuerRole | B20Call::BurnBlockedRole
        | B20Call::Nonces { .. } | B20Call::DomainSeparator | B20Call::HasRole { .. }
        | B20Call::GetRoleAdmin { .. } => false,
        _ => true,
    }
}

} // verus!

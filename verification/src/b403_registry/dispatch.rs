//! ABI dispatch of B403 registry calls: decoding calldata into a [`B403Call`], and routing it.

use vstd::prelude::*;
use vstd::string::StringSliceAdditionalSpecFns;

use crate::abi::{
    append_address, append_word, arg_address, arg_u256, arg_u64, arg_u8, arg_word, encode_word,
    has_args, into_precompile_result, is_error_outcome, same_selector, selector,
    spec_address_word, spec_bool_word, spec_selector, spec_with_gas, with_gas, PrecompileOutcome,
};
use crate::b20::dispatch::{
    bool_outcome, returns_data, reverts_with, spec_static_call_revert,
    spec_unknown_selector_revert, unit_outcome, CallEnv, DecodeFailure,
};
use crate::b403_registry::{spec_type_code, AuthRole, B403Registry, PolicyType};
use crate::dispatch::{screen_selector, SelectorGate, SelectorSchedule};
use crate::error::{BasePrecompileError, Result};
use crate::primitives::Address;
use crate::spec::{input_cost, spec_input_cost, BaseBSpec};
use crate::storage::evm::deduct_gas;
use crate::word::{spec_be_value, spec_word_bytes, U256};

verus! {

/// A decoded call to the B403 registry.
#[derive(Clone, Debug)]
pub enum B403Call {
    /// `policyIdCounter()`.
    PolicyIdCounter,
    /// `policyExists(uint64)`.
    PolicyExists { policy_id: u64 },
    /// `policyData(uint64)`.
    PolicyData { policy_id: u64 },
    /// `isAuthorized(uint64,address)`.
    IsAuthorized { policy_id: u64, user: Address },
    /// `isAuthorizedSender(uint64,address)`.
    IsAuthorizedSender { policy_id: u64, user: Address },
    /// `isAuthorizedRecipient(uint64,address)`.
    IsAuthorizedRecipient { policy_id: u64, user: Address },
    /// `isAuthorizedMintRecipient(uint64,address)`.
    IsAuthorizedMintRecipient { policy_id: u64, user: Address },
    /// `compoundPolicyData(uint64)`.
    CompoundPolicyData { policy_id: u64 },
    /// `createPolicy(address,uint8)`.
    CreatePolicy { admin: Address, policy_type: PolicyType },
    /// `createPolicyWithAccounts(address,uint8,address[])`.
    CreatePolicyWithAccounts { admin: Address, policy_type: PolicyType, accounts: Vec<Address> },
    /// `setPolicyAdmin(uint64,address)`.
    SetPolicyAdmin { policy_id: u64, admin: Address },
    /// `modifyPolicyWhitelist(uint64,address,bool)`.
    ModifyPolicyWhitelist { policy_id: u64, account: Address, allowed: bool },
    /// `modifyPolicyBlacklist(uint64,address,bool)`.
    ModifyPolicyBlacklist { policy_id: u64, account: Address, restricted: bool },
    /// `createCompoundPolicy(uint64,uint64,uint64)`.
    CreateCompoundPolicy {
        sender_policy_id: u64,
        recipient_policy_id: u64,
        mint_recipient_policy_id: u64,
    },
}

/// The number of decodable registry calls.
pub const B403_CALL_COUNT: usize = 14;

/// The index of `createPolicyWithAccounts`, the one call with a dynamic argument.
pub const WITH_ACCOUNTS_INDEX: usize = 9;

/// The canonical signature of the registry call with index `i`.
pub open spec fn b403_signature(i: int) -> Seq<u8> {
    if i == 0 {
        "policyIdCounter()".spec_bytes()
    } else if i == 1 {
        "policyExists(uint64)".spec_bytes()
    } else if i == 2 {
        "policyData(uint64)".spec_bytes()
    } else if i == 3 {
        "isAuthorized(uint64,address)".spec_bytes()
    } else if i == 4 {
        "isAuthorizedSender(uint64,address)".spec_bytes()
    } else if i == 5 {
        "isAuthorizedRecipient(uint64,address)".spec_bytes()
    } else if i == 6 {
        "isAuthorizedMintRecipient(uint64,address)".spec_bytes()
    } else if i == 7 {
        "compoundPolicyData(uint64)".spec_bytes()
    } else if i == 8 {
        "createPolicy(address,uint8)".spec_bytes()
    } else if i == 9 {
        "createPolicyWithAccounts(address,uint8,address[])".spec_bytes()
    } else if i == 10 {
        "setPolicyAdmin(uint64,address)".spec_bytes()
    } else if i == 11 {
        "modifyPolicyWhitelist(uint64,address,bool)".spec_bytes()
    } else if i == 12 {
        "modifyPolicyBlacklist(uint64,address,bool)".spec_bytes()
    } else if i == 13 {
        "createCompoundPolicy(uint64,uint64,uint64)".spec_bytes()
    } else {
        Seq::empty()
    }
}

/// The number of head words of the arguments of the registry call with index `i` (for
/// `createPolicyWithAccounts`, the offset of the account array counts as one).
pub open spec fn b403_arg_words(i: int) -> nat {
    if i == 0 {
        0
    } else if i == 1 || i == 2 || i == 7 {
        1
    } else if i == 9 || i == 11 || i == 12 || i == 13 {
        3
    } else {
        2
    }
}

/// The canonical signature of the registry call with index `i`.
fn b403_signature_str(i: usize) -> (r: &'static str)
    requires
        i < B403_CALL_COUNT,
    ensures
        r.spec_bytes() == b403_signature(i as int),
{
    match i {
        0 => "policyIdCounter()",
        1 => "policyExists(uint64)",
        2 => "policyData(uint64)",
        3 => "isAuthorized(uint64,address)",
        4 => "isAuthorizedSender(uint64,address)",
        5 => "isAuthorizedRecipient(uint64,address)",
        6 => "isAuthorizedMintRecipient(uint64,address)",
        7 => "compoundPolicyData(uint64)",
        8 => "createPolicy(address,uint8)",
        9 => "createPolicyWithAccounts(address,uint8,address[])",
        10 => "setPolicyAdmin(uint64,address)",
        11 => "modifyPolicyWhitelist(uint64,address,bool)",
        12 => "modifyPolicyBlacklist(uint64,address,bool)",
        _ => "createCompoundPolicy(uint64,uint64,uint64)",
    }
}

/// The number of head words of the arguments of the registry call with index `i`.
fn b403_arg_words_of(i: usize) -> (r: usize)
    requires
        i < B403_CALL_COUNT,
    ensures
        r == b403_arg_words(i as int),
        r <= 3,
{
    if i == 0 {
        0
    } else if i == 1 || i == 2 || i == 7 {
        1
    } else if i == 9 || i == 11 || i == 12 || i == 13 {
        3
    } else {
        2
    }
}

/// The index of the first registry call, from index `i` on, whose selector is `sel`
/// ([`B403_CALL_COUNT`] when there is none).
pub open spec fn b403_first_call_from(sel: Seq<u8>, i: int) -> int
    decreases B403_CALL_COUNT - i,
{
    if i >= B403_CALL_COUNT {
        B403_CALL_COUNT as int
    } else if spec_selector(b403_signature(i)) == sel {
        i
    } else {
        b403_first_call_from(sel, i + 1)
    }
}

/// The index of the registry call that the selector `sel` names ([`B403_CALL_COUNT`] when
/// it names none).
pub open spec fn spec_b403_call_index(sel: Seq<u8>) -> int {
    b403_first_call_from(sel, 0)
}

/// The index of the registry call that `sel` names.
fn find_b403_call(sel: [u8; 4]) -> (r: usize)
    ensures
        r == spec_b403_call_index(sel@),
        r <= B403_CALL_COUNT,
{
    let mut i: usize = 0;
    while i < B403_CALL_COUNT
        invariant
            i <= B403_CALL_COUNT,
            b403_first_call_from(sel@, 0) == b403_first_call_from(sel@, i as int),
        decreases B403_CALL_COUNT - i,
    {
        let s = selector(b403_signature_str(i));
        if same_selector(s, sel) {
            return i;
        }
        i = i + 1;
    }
    i
}

/// The policy type that the `uint8` `code` decodes to: an out-of-range value is `Invalid`.
pub open spec fn policy_type_of(code: u8) -> PolicyType {
    if code == 0 {
        PolicyType::Whitelist
    } else if code == 1 {
        PolicyType::Blacklist
    } else if code == 2 {
        PolicyType::Compound
    } else {
        PolicyType::Invalid
    }
}

/// The policy type that the `uint8` `code` decodes to.
fn decode_policy_type(code: u8) -> (r: PolicyType)
    ensures
        r == policy_type_of(code),
{
    if code == 0 {
        PolicyType::Whitelist
    } else if code == 1 {
        PolicyType::Blacklist
    } else if code == 2 {
        PolicyType::Compound
    } else {
        PolicyType::Invalid
    }
}

/// The `uint64` argument `i` of `data`.
pub open spec fn arg_u64_of(data: Seq<u8>, i: nat) -> u64 {
    spec_be_value(arg_word(data, i).subrange(24, 32)) as u64
}

/// The `address` argument `i` of `data`, as bytes.
pub open spec fn arg_address_of(data: Seq<u8>, i: nat) -> Seq<u8> {
    arg_word(data, i).subrange(12, 32)
}

/// The `bool` argument `i` of `data`: whether its word is not zero.
pub open spec fn arg_bool_of(data: Seq<u8>, i: nat) -> bool {
    exists|k: int| 0 <= k < 32 && arg_word(data, i)[k] != 0
}

/// The offset of the account array of `createPolicyWithAccounts` calldata `data`, counted from
/// the first argument word.
pub open spec fn accounts_offset(data: Seq<u8>) -> nat {
    spec_be_value(arg_word(data, 2))
}

/// The length word of the account array of `data`.
pub open spec fn accounts_len(data: Seq<u8>) -> nat {
    let o = accounts_offset(data);
    spec_be_value(data.subrange(4 + o as int, 4 + o as int + 32))
}

/// The bytes of account `k` of the account array of `data`.
pub open spec fn account_at(data: Seq<u8>, k: nat) -> Seq<u8> {
    let start = (4 + accounts_offset(data) + 32 + 32 * k) as int;
    data.subrange(start + 12, start + 32)
}

/// The most bytes the decoder allocates for an array.
pub open spec fn decode_memory_limit() -> nat {
    0x4000_0000
}

/// Whether the account array of `data` decodes: its length word lies within the arguments,
/// its elements fit in the words after it, and they stay within the decoder's memory limit.
pub open spec fn accounts_ok(data: Seq<u8>) -> bool {
    let p = data.len() - 4;
    let o = accounts_offset(data);
    &&& o + 32 <= p
    &&& accounts_len(data) * 32 <= p - o - 32
    &&& accounts_len(data) * 32 <= decode_memory_limit()
}

/// Whether the arguments of the registry call with index `i` decode from `data`.
pub open spec fn b403_decodable(data: Seq<u8>, i: int) -> bool {
    &&& has_args(data, b403_arg_words(i))
    &&& i == WITH_ACCOUNTS_INDEX ==> accounts_ok(data)
}

/// The index of a decoded registry call.
pub open spec fn b403_call_index(c: B403Call) -> int {
    match c {
        B403Call::PolicyIdCounter => 0,
        B403Call::PolicyExists { .. } => 1,
        B403Call::PolicyData { .. } => 2,
        B403Call::IsAuthorized { .. } => 3,
        B403Call::IsAuthorizedSender { .. } => 4,
        B403Call::IsAuthorizedRecipient { .. } => 5,
        B403Call::IsAuthorizedMintRecipient { .. } => 6,
        B403Call::CompoundPolicyData { .. } => 7,
        B403Call::CreatePolicy { .. } => 8,
        B403Call::CreatePolicyWithAccounts { .. } => 9,
        B403Call::SetPolicyAdmin { .. } => 10,
        B403Call::ModifyPolicyWhitelist { .. } => 11,
        B403Call::ModifyPolicyBlacklist { .. } => 12,
        B403Call::CreateCompoundPolicy { .. } => 13,
    }
}

/// Whether the arguments of `c` are those that calldata `data` holds.
pub open spec fn b403_args_match(data: Seq<u8>, c: B403Call) -> bool {
    match c {
        B403Call::PolicyIdCounter => true,
        B403Call::PolicyExists { policy_id } => policy_id == arg_u64_of(data, 0),
        B403Call::PolicyData { policy_id } => policy_id == arg_u64_of(data, 0),
        B403Call::CompoundPolicyData { policy_id } => policy_id == arg_u64_of(data, 0),
        B403Call::IsAuthorized { policy_id, user } => policy_id == arg_u64_of(data, 0) && user@
            == arg_address_of(data, 1),
        B403Call::IsAuthorizedSender { policy_id, user } => policy_id == arg_u64_of(data, 0)
            && user@ == arg_address_of(data, 1),
        B403Call::IsAuthorizedRecipient { policy_id, user } => policy_id == arg_u64_of(data, 0)
            && user@ == arg_address_of(data, 1),
        B403Call::IsAuthorizedMintRecipient { policy_id, user } => policy_id == arg_u64_of(
            data,
            0,
        ) && user@ == arg_address_of(data, 1),
        B403Call::CreatePolicy { admin, policy_type } => admin@ == arg_address_of(data, 0)
            && policy_type == policy_type_of(arg_word(data, 1)[31]),
        B403Call::CreatePolicyWithAccounts { admin, policy_type, accounts } => {
            &&& admin@ == arg_address_of(data, 0)
            &&& policy_type == policy_type_of(arg_word(data, 1)[31])
            &&& accounts@.len() == accounts_len(data)
            &&& forall|k: int|
                0 <= k < accounts@.len() ==> (#[trigger] accounts@[k])@ == account_at(data, k as nat)
        },
        B403Call::SetPolicyAdmin { policy_id, admin } => policy_id == arg_u64_of(data, 0) && admin@
            == arg_address_of(data, 1),
        B403Call::ModifyPolicyWhitelist { policy_id, account, allowed } => {
            &&& policy_id == arg_u64_of(data, 0)
            &&& account@ == arg_address_of(data, 1)
            &&& allowed == arg_bool_of(data, 2)
        },
        B403Call::ModifyPolicyBlacklist { policy_id, account, restricted } => {
            &&& policy_id == arg_u64_of(data, 0)
            &&& account@ == arg_address_of(data, 1)
            &&& restricted == arg_bool_of(data, 2)
        },
        B403Call::CreateCompoundPolicy {
            sender_policy_id,
            recipient_policy_id,
            mint_recipient_policy_id,
        } => {
            &&& sender_policy_id == arg_u64_of(data, 0)
            &&& recipient_policy_id == arg_u64_of(data, 1)
            &&& mint_recipient_policy_id == arg_u64_of(data, 2)
        },
    }
}

/// The `bool` argument `i` of `data`: whether any byte of its word is set.
fn arg_bool(data: &[u8], i: usize) -> (r: bool)
    requires
        i < 16,
        has_args(data@, (i + 1) as nat),
    ensures
        r == arg_bool_of(data@, i as nat),
{
    let start = 4 + 32 * i;
    let ghost w = arg_word(data@, i as nat);
    let data_len = data.len();
    assert(data@.len() == data_len);
    let mut k: usize = 0;
    while k < 32
        invariant
            k <= 32,
            start == 4 + 32 * i,
            start + 32 <= data@.len(),
            data@.len() <= usize::MAX,
            w == data@.subrange(start as int, start + 32),
            w == arg_word(data@, i as nat),
            forall|j: int| 0 <= j < k ==> #[trigger] w[j] == 0,
        decreases 32 - k,
    {
        if data[start + k] != 0 {
            assert(w[k as int] != 0);
            return true;
        }
        k = k + 1;
    }
    false
}

/// The 32 bytes of `data` from `pos` on.
fn bytes32_at(data: &[u8], pos: usize) -> (r: [u8; 32])
    requires
        pos + 32 <= data@.len(),
    ensures
        r@ == data@.subrange(pos as int, pos + 32),
{
    let mut r = [0u8; 32];
    let data_len = data.len();
    assert(data@.len() == data_len);
    let mut k: usize = 0;
    while k < 32
        invariant
            k <= 32,
            pos + 32 <= data@.len(),
            data@.len() <= usize::MAX,
            r@.len() == 32,
            forall|j: int| 0 <= j < k ==> r@[j] == data@[pos + j],
        decreases 32 - k,
    {
        r[k] = data[pos + k];
        k = k + 1;
    }
    assert(r@ =~= data@.subrange(pos as int, pos + 32));
    r
}

/// The address in the last 20 bytes of the word of `data` at `pos`.
fn address_at(data: &[u8], pos: usize) -> (r: Address)
    requires
        pos + 32 <= data@.len(),
    ensures
        r@ == data@.subrange(pos + 12, pos + 32),
{
    let mut bytes = [0u8; 20];
    let data_len = data.len();
    assert(data@.len() == data_len);
    let mut k: usize = 0;
    while k < 20
        invariant
            k <= 20,
            pos + 32 <= data@.len(),
            data@.len() <= usize::MAX,
            bytes@.len() == 20,
            forall|j: int| 0 <= j < k ==> bytes@[j] == data@[pos + 12 + j],
        decreases 20 - k,
    {
        bytes[k] = data[pos + 12 + k];
        k = k + 1;
    }
    assert(bytes@ =~= data@.subrange(pos + 12, pos + 32));
    Address::from_bytes(bytes)
}

/// The `usize` that the word `w` denotes, if it fits.
fn usize_of(w: U256) -> (r: Option<usize>)
    ensures
        r is None <==> w.value() > usize::MAX,
        r matches Some(v) ==> v == w.value(),
{
    proof {
        vstd::arithmetic::power2::lemma2_to64();
    }
    match w.to_u128() {
        None => None,
        Some(v) => if v > usize::MAX as u128 {
            None
        } else {
            Some(v as usize)
        },
    }
}

/// Decodes the account array of `createPolicyWithAccounts` calldata `data`.
fn decode_accounts(data: &[u8]) -> (r: Option<Vec<Address>>)
    requires
        has_args(data@, 3),
    ensures
        r is Some <==> accounts_ok(data@),
        r matches Some(v) ==> {
            &&& v@.len() == accounts_len(data@)
            &&& forall|k: int| 0 <= k < v@.len() ==> (#[trigger] v@[k])@ == account_at(data@, k as nat)
        },
{
    let data_len = data.len();
    assert(data@.len() == data_len);
    let offset = match usize_of(arg_u256(data, 2)) {
        None => return None,
        Some(o) => o,
    };
    let p = data.len() - 4;
    if offset > p || p - offset < 32 {
        return None;
    }
    let len_word = U256::from_be_bytes(bytes32_at(data, 4 + offset));
    let n = match usize_of(len_word) {
        None => return None,
        Some(n) => n,
    };
    let room = (p - offset - 32) / 32;
    if n > room || n > 0x4000_0000 / 32 {
        return None;
    }
    proof {
        let x = (p - offset - 32) as int;
        vstd::arithmetic::div_mod::lemma_fundamental_div_mod(x, 32);
        vstd::arithmetic::div_mod::lemma_mod_pos_bound(x, 32);
        assert(n * 32 <= x) by (nonlinear_arith)
            requires
                n <= x / 32,
                x == 32 * (x / 32) + x % 32,
                x % 32 >= 0,
        ;
    }
    let mut accounts: Vec<Address> = Vec::new();
    let mut k: usize = 0;
    while k < n
        invariant
            k <= n,
            n == accounts_len(data@),
            offset == accounts_offset(data@),
            p == data@.len() - 4,
            offset + 32 + 32 * n <= p,
            accounts@.len() == k,
            forall|j: int| 0 <= j < k ==> (#[trigger] accounts@[j])@ == account_at(data@, j as nat),
        decreases n - k,
    {
        assert(32 * k + 32 <= 32 * n) by (nonlinear_arith)
            requires
                k < n,
        ;
        let pos = 4 + offset + 32 + 32 * k;
        accounts.push(address_at(data, pos));
        k = k + 1;
    }
    Some(accounts)
}

/// Decodes the calldata of a registry call: its selector, its argument words and, for
/// `createPolicyWithAccounts`, its account array.
///
/// An unknown selector and arguments that do not decode are failures; bytes after the
/// arguments are ignored, and an argument word is read without checking its unused bytes.
pub fn decode_b403_call(data: &[u8]) -> (r: std::result::Result<B403Call, DecodeFailure>)
    requires
        data@.len() >= 4,
    ensures
        ({
            let i = spec_b403_call_index(data@.subrange(0, 4));
            &&& 0 <= i <= B403_CALL_COUNT
            &&& i == B403_CALL_COUNT ==> r == Err::<B403Call, DecodeFailure>(
                DecodeFailure::UnknownSelector,
            )
            &&& i < B403_CALL_COUNT && !b403_decodable(data@, i) ==> r == Err::<
                B403Call,
                DecodeFailure,
            >(DecodeFailure::Malformed)
            &&& i < B403_CALL_COUNT && b403_decodable(data@, i) ==> (r matches Ok(c)
                && b403_call_index(c) == i && b403_args_match(data@, c))
        }),
{
    let sel: [u8; 4] = [data[0], data[1], data[2], data[3]];
    assert(sel@ =~= data@.subrange(0, 4));
    let i = find_b403_call(sel);
    if i == B403_CALL_COUNT {
        return Err(DecodeFailure::UnknownSelector);
    }
    let words = b403_arg_words_of(i);
    if data.len() < 4 + 32 * words {
        return Err(DecodeFailure::Malformed);
    }
    let c = match i {
        0 => B403Call::PolicyIdCounter,
        1 => B403Call::PolicyExists { policy_id: arg_u64(data, 0) },
        2 => B403Call::PolicyData { policy_id: arg_u64(data, 0) },
        3 => B403Call::IsAuthorized { policy_id: arg_u64(data, 0), user: arg_address(data, 1) },
        4 => B403Call::IsAuthorizedSender {
            policy_id: arg_u64(data, 0),
            user: arg_address(data, 1),
        },
        5 => B403Call::IsAuthorizedRecipient {
            policy_id: arg_u64(data, 0),
            user: arg_address(data, 1),
        },
        6 => B403Call::IsAuthorizedMintRecipient {
            policy_id: arg_u64(data, 0),
            user: arg_address(data, 1),
        },
        7 => B403Call::CompoundPolicyData { policy_id: arg_u64(data, 0) },
        8 => B403Call::CreatePolicy {
            admin: arg_address(data, 0),
            policy_type: decode_policy_type(arg_u8(data, 1)),
        },
        9 => {
            let accounts = match decode_accounts(data) {
                None => return Err(DecodeFailure::Malformed),
                Some(a) => a,
            };
            B403Call::CreatePolicyWithAccounts {
                admin: arg_address(data, 0),
                policy_type: decode_policy_type(arg_u8(data, 1)),
                accounts,
            }
        },
        10 => B403Call::SetPolicyAdmin { policy_id: arg_u64(data, 0), admin: arg_address(data, 1) },
        11 => B403Call::ModifyPolicyWhitelist {
            policy_id: arg_u64(data, 0),
            account: arg_address(data, 1),
            allowed: arg_bool(data, 2),
        },
        12 => B403Call::ModifyPolicyBlacklist {
            policy_id: arg_u64(data, 0),
            account: arg_address(data, 1),
            restricted: arg_bool(data, 2),
        },
        _ => B403Call::CreateCompoundPolicy {
            sender_policy_id: arg_u64(data, 0),
            recipient_policy_id: arg_u64(data, 1),
            mint_recipient_policy_id: arg_u64(data, 2),
        },
    };
    Ok(c)
}

/// Whether a registry call changes state.
pub open spec fn is_b403_mutating(c: B403Call) -> bool {
    c is CreatePolicy || c is CreatePolicyWithAccounts || c is SetPolicyAdmin
        || c is ModifyPolicyWhitelist || c is ModifyPolicyBlacklist || c is CreateCompoundPolicy
}

/// Whether `r` is the outcome of a call whose method returned `res`, a `uint64`.
pub open spec fn u64_outcome(res: Result<u64>, r: PrecompileOutcome) -> bool {
    match res {
        Ok(v) => returns_data(r, spec_word_bytes(v as nat)),
        Err(e) => is_error_outcome(r, e),
    }
}

/// Whether `r` is the outcome of `policyData`, whose method returned `res`: the type as a
/// `uint8` word, then the admin.
pub open spec fn policy_data_outcome(res: Result<(PolicyType, Seq<u8>)>, r: PrecompileOutcome) -> bool {
    match res {
        Ok((t, a)) => returns_data(r, spec_word_bytes(spec_type_code(t) as nat) + spec_address_word(a)),
        Err(e) => is_error_outcome(r, e),
    }
}

/// Whether `r` is the outcome of `compoundPolicyData`, whose method returned `res`: three
/// `uint64` words.
pub open spec fn compound_outcome(res: Result<(u64, u64, u64)>, r: PrecompileOutcome) -> bool {
    match res {
        Ok((a, b, c)) => returns_data(
            r,
            spec_word_bytes(a as nat) + spec_word_bytes(b as nat) + spec_word_bytes(c as nat),
        ),
        Err(e) => is_error_outcome(r, e),
    }
}

/// Whether the selector `sel` is gated out under `spec`: the role-specific authorization
/// queries and compound policies are unknown before Azul.
pub open spec fn spec_b403_gated(spec: BaseBSpec, sel: Seq<u8>) -> bool {
    &&& !spec.spec_enabled_in(BaseBSpec::Azul)
    &&& {
        ||| sel == spec_selector(b403_signature(4))
        ||| sel == spec_selector(b403_signature(5))
        ||| sel == spec_selector(b403_signature(6))
        ||| sel == spec_selector(b403_signature(7))
        ||| sel == spec_selector(b403_signature(13))
    }
}

impl B403Registry {
    /// How the call `c` from `sender` on the registry `self` ends with outcome `r` and registry
    /// `new`: a view returns the ABI encoding of its value and changes nothing; a state-changing
    /// call made statically reverts with `StaticCallNotAllowed`; any other call does what its
    /// method does, and returns the encoding of the method's value or its error.
    pub open spec fn spec_registry_executed(
        &self,
        new: &B403Registry,
        c: B403Call,
        sender: Address,
        env: CallEnv,
        r: PrecompileOutcome,
    ) -> bool {
        if !is_b403_mutating(c) {
            &&& *new == *self
            &&& match c {
                B403Call::PolicyIdCounter => returns_data(
                    r,
                    spec_word_bytes(self.spec_counter() as nat),
                ),
                B403Call::PolicyExists { policy_id } => returns_data(
                    r,
                    spec_bool_word(self.spec_policy_exists(policy_id)),
                ),
                B403Call::PolicyData { policy_id } => policy_data_outcome(
                    self.spec_policy_data(policy_id),
                    r,
                ),
                B403Call::IsAuthorized { policy_id, user } => bool_outcome(
                    self.spec_authorized_as(policy_id, user, AuthRole::Transfer),
                    r,
                ),
                B403Call::IsAuthorizedSender { policy_id, user } => bool_outcome(
                    self.spec_authorized_as(policy_id, user, AuthRole::Sender),
                    r,
                ),
                B403Call::IsAuthorizedRecipient { policy_id, user } => bool_outcome(
                    self.spec_authorized_as(policy_id, user, AuthRole::Recipient),
                    r,
                ),
                B403Call::IsAuthorizedMintRecipient { policy_id, user } => bool_outcome(
                    self.spec_authorized_as(policy_id, user, AuthRole::MintRecipient),
                    r,
                ),
                B403Call::CompoundPolicyData { policy_id } => compound_outcome(
                    self.spec_compound_policy_data(policy_id),
                    r,
                ),
                _ => false,
            }
        } else if env.is_static {
            &&& *new == *self
            &&& reverts_with(r, spec_static_call_revert())
        } else {
            match c {
                B403Call::CreatePolicy { admin, policy_type } => exists|res: Result<u64>|
                    self.post_create_policy(new, sender, policy_type, admin, res) && u64_outcome(
                        res,
                        r,
                    ),
                B403Call::CreatePolicyWithAccounts { admin, policy_type, accounts } => exists|
                    res: Result<u64>,
                |
                    self.post_create_policy_with_accounts(
                        new,
                        sender,
                        admin,
                        policy_type,
                        &accounts,
                        res,
                    ) && u64_outcome(res, r),
                B403Call::SetPolicyAdmin { policy_id, admin } => exists|res: Result<()>|
                    self.post_set_policy_admin(new, sender, policy_id, admin, res) && unit_outcome(
                        res,
                        r,
                    ),
                B403Call::ModifyPolicyWhitelist { policy_id, account, allowed } => exists|
                    res: Result<()>,
                |
                    self.post_modify_policy_whitelist(new, sender, policy_id, account, allowed, res)
                        && unit_outcome(res, r),
                B403Call::ModifyPolicyBlacklist { policy_id, account, restricted } => exists|
                    res: Result<()>,
                |
                    self.post_modify_policy_blacklist(
                        new,
                        sender,
                        policy_id,
                        account,
                        restricted,
                        res,
                    ) && unit_outcome(res, r),
                B403Call::CreateCompoundPolicy {
                    sender_policy_id,
                    recipient_policy_id,
                    mint_recipient_policy_id,
                } => exists|res: Result<u64>|
                    self.post_create_compound_policy(
                        new,
                        sender,
                        sender_policy_id,
                        recipient_policy_id,
                        mint_recipient_policy_id,
                        res,
                    ) && u64_outcome(res, r),
                _ => false,
            }
        }
    }

    /// The outcome of a call that returned `res`, a `uint64`.
    fn u64_call_outcome(res: Result<u64>) -> (r: PrecompileOutcome)
        ensures
            u64_outcome(res, r),
    {
        match res {
            Ok(v) => PrecompileOutcome::Success(0, encode_word(U256::from_u64(v))),
            Err(e) => into_precompile_result(e, 0, 0),
        }
    }

    /// The outcome of a call that returned `res`, a `bool`.
    fn bool_call_outcome(res: Result<bool>) -> (r: PrecompileOutcome)
        ensures
            bool_outcome(res, r),
    {
        match res {
            Ok(b) => PrecompileOutcome::Success(0, encode_word(U256::from_u64(if b { 1 } else { 0 }))),
            Err(e) => into_precompile_result(e, 0, 0),
        }
    }

    /// The outcome of a call that returned `res`, with no value.
    fn unit_call_outcome(res: Result<()>) -> (r: PrecompileOutcome)
        ensures
            unit_outcome(res, r),
    {
        match res {
            Ok(_) => PrecompileOutcome::Success(0, Vec::new()),
            Err(e) => into_precompile_result(e, 0, 0),
        }
    }

    /// Runs the decoded call `c` from `sender`.
    pub fn execute(&mut self, c: B403Call, sender: Address, env: &CallEnv) -> (r: PrecompileOutcome)
        ensures
            old(self).spec_registry_executed(final(self), c, sender, *env, r),
    {
        if is_b403_mutating_call(&c) && env.is_static {
            let data = selector("StaticCallNotAllowed()");
            return PrecompileOutcome::Revert(0, vstd::slice::slice_to_vec(&data));
        }
        match c {
            B403Call::PolicyIdCounter => {
                let res = self.policy_id_counter();
                B403Registry::u64_call_outcome(res)
            },
            B403Call::PolicyExists { policy_id } => {
                let res = self.policy_exists(policy_id);
                B403Registry::bool_call_outcome(res)
            },
            B403Call::PolicyData { policy_id } => {
                let res = self.policy_data(policy_id);
                match res {
                    Ok((t, a)) => {
                        let mut out: Vec<u8> = Vec::new();
                        append_word(&mut out, U256::from_u64(t.code() as u64));
                        append_address(&mut out, &a);
                        assert(out@ =~= spec_word_bytes(spec_type_code(t) as nat)
                            + spec_address_word(a@));
                        PrecompileOutcome::Success(0, out)
                    },
                    Err(e) => into_precompile_result(e, 0, 0),
                }
            },
            B403Call::IsAuthorized { policy_id, user } => B403Registry::bool_call_outcome(
                self.is_authorized_as(policy_id, user, AuthRole::Transfer),
            ),
            B403Call::IsAuthorizedSender { policy_id, user } => B403Registry::bool_call_outcome(
                self.is_authorized_as(policy_id, user, AuthRole::Sender),
            ),
            B403Call::IsAuthorizedRecipient { policy_id, user } => B403Registry::bool_call_outcome(
                self.is_authorized_as(policy_id, user, AuthRole::Recipient),
            ),
            B403Call::IsAuthorizedMintRecipient { policy_id, user } =>
                B403Registry::bool_call_outcome(
                self.is_authorized_as(policy_id, user, AuthRole::MintRecipient),
            ),
            B403Call::CompoundPolicyData { policy_id } => {
                let res = self.compound_policy_data(policy_id);
                match res {
                    Ok((a, b, d)) => {
                        let mut out: Vec<u8> = Vec::new();
                        append_word(&mut out, U256::from_u64(a));
                        append_word(&mut out, U256::from_u64(b));
                        append_word(&mut out, U256::from_u64(d));
                        assert(out@ =~= spec_word_bytes(a as nat) + spec_word_bytes(b as nat)
                            + spec_word_bytes(d as nat));
                        PrecompileOutcome::Success(0, out)
                    },
                    Err(e) => into_precompile_result(e, 0, 0),
                }
            },
            B403Call::CreatePolicy { admin, policy_type } => {
                let res = self.create_policy(sender, policy_type, admin);
                B403Registry::u64_call_outcome(res)
            },
            B403Call::CreatePolicyWithAccounts { admin, policy_type, accounts } => {
                let res = self.create_policy_with_accounts(sender, admin, policy_type, &accounts);
                B403Registry::u64_call_outcome(res)
            },
            B403Call::SetPolicyAdmin { policy_id, admin } => {
                let res = self.set_policy_admin(sender, policy_id, admin);
                B403Registry::unit_call_outcome(res)
            },
            B403Call::ModifyPolicyWhitelist { policy_id, account, allowed } => {
                let res = self.modify_policy_whitelist(sender, policy_id, account, allowed);
                B403Registry::unit_call_outcome(res)
            },
            B403Call::ModifyPolicyBlacklist { policy_id, account, restricted } => {
                let res = self.modify_policy_blacklist(sender, policy_id, account, restricted);
                B403Registry::unit_call_outcome(res)
            },
            B403Call::CreateCompoundPolicy {
                sender_policy_id,
                recipient_policy_id,
                mint_recipient_policy_id,
            } => {
                let res = self.create_compound_policy(
                    sender,
                    sender_policy_id,
                    recipient_policy_id,
                    mint_recipient_policy_id,
                );
                B403Registry::u64_call_outcome(res)
            },
        }
    }

    /// How a call with `calldata` from `sender` on the registry `self` ends, with outcome `r`
    /// and registry `new`.
    ///
    /// The calldata gas is charged first (out of gas when it exceeds the limit); calldata
    /// shorter than a selector reverts with empty data; a gated or unknown selector fails with
    /// `UnknownFunctionSelector`; arguments that do not decode revert with empty data;
    /// otherwise the decoded call runs.
    pub open spec fn spec_registry_call(
        &self,
        new: &B403Registry,
        calldata: Seq<u8>,
        sender: Address,
        env: CallEnv,
        r: PrecompileOutcome,
    ) -> bool {
        let sel = calldata.subrange(0, 4);
        let i = spec_b403_call_index(sel);
        if spec_input_cost(calldata.len()) > env.gas_limit {
            *new == *self && r == PrecompileOutcome::OutOfGas
        } else if calldata.len() < 4 {
            *new == *self && reverts_with(r, Seq::empty())
        } else if spec_b403_gated(self.spec, sel) || i == B403_CALL_COUNT {
            *new == *self && reverts_with(r, spec_unknown_selector_revert(sel))
        } else if !b403_decodable(calldata, i) {
            *new == *self && reverts_with(r, Seq::empty())
        } else {
            exists|c: B403Call|
                b403_call_index(c) == i && b403_args_match(calldata, c)
                    && #[trigger] self.spec_registry_executed(new, c, sender, env, r)
        }
    }

    /// Handles a call to the registry with `calldata` from `msg_sender`. An outcome that
    /// returns or reverts reports the gas charged here: the calldata cost.
    pub fn call(&mut self, calldata: &[u8], msg_sender: Address, env: &CallEnv) -> (r:
        PrecompileOutcome)
        ensures
            exists|o: PrecompileOutcome|
                old(self).spec_registry_call(final(self), calldata@, msg_sender, *env, o)
                    && r == #[trigger] spec_with_gas(o, spec_input_cost(calldata@.len()) as u64),
    {
        let cost = input_cost(calldata.len());
        let o = self.run_call(calldata, msg_sender, env);
        let r = with_gas(o, cost);
        proof {
            assert(old(self).spec_registry_call(&*self, calldata@, msg_sender, *env, o));
            assert(cost == spec_input_cost(calldata@.len()) as u64);
            assert(r == spec_with_gas(o, spec_input_cost(calldata@.len()) as u64));
        }
        r
    }

    /// Handles a call as [`Self::call`] does, reporting no gas used.
    fn run_call(&mut self, calldata: &[u8], msg_sender: Address, env: &CallEnv) -> (r:
        PrecompileOutcome)
        ensures
            old(self).spec_registry_call(final(self), calldata@, msg_sender, *env, r),
    {
        let mut gas = env.gas_limit;
        if deduct_gas(&mut gas, input_cost(calldata.len())).is_err() {
            return PrecompileOutcome::OutOfGas;
        }
        let added: [[u8; 4]; 5] = [
            selector(b403_signature_str(4)),
            selector(b403_signature_str(5)),
            selector(b403_signature_str(6)),
            selector(b403_signature_str(7)),
            selector(b403_signature_str(13)),
        ];
        let schedules = [SelectorSchedule::new(BaseBSpec::Azul).with_added(&added)];
        let sel = match screen_selector(calldata, &schedules, self.spec) {
            SelectorGate::TooShort => {
                return PrecompileOutcome::Revert(0, Vec::new());
            },
            SelectorGate::Gated(s) => {
                proof {
                    let rej = choose|k: int|
                        0 <= k < schedules@.len() && #[trigger] schedules@[k].spec_rejects(
                            calldata@.subrange(0, 4),
                            self.spec,
                        );
                    assert(rej == 0);
                    assert(!self.spec.spec_enabled_in(BaseBSpec::Azul));
                }
                return into_precompile_result(BasePrecompileError::UnknownFunctionSelector(s), 0, 0);
            },
            SelectorGate::Open(s) => s,
        };
        proof {
            assert(!schedules@[0].spec_rejects(calldata@.subrange(0, 4), self.spec));
            if !self.spec.spec_enabled_in(BaseBSpec::Azul) {
                assert(!crate::dispatch::lists(added@, sel@));
                if sel@ == spec_selector(b403_signature(4)) {
                    assert(added@[0]@ == sel@);
                }
                if sel@ == spec_selector(b403_signature(5)) {
                    assert(added@[1]@ == sel@);
                }
                if sel@ == spec_selector(b403_signature(6)) {
                    assert(added@[2]@ == sel@);
                }
                if sel@ == spec_selector(b403_signature(7)) {
                    assert(added@[3]@ == sel@);
                }
                if sel@ == spec_selector(b403_signature(13)) {
                    assert(added@[4]@ == sel@);
                }
            }
        }
        match decode_b403_call(calldata) {
            Err(DecodeFailure::UnknownSelector) => into_precompile_result(BasePrecompileError::UnknownFunctionSelector(sel), 0, 0),
            Err(DecodeFailure::Malformed) => PrecompileOutcome::Revert(0, Vec::new()),
            Ok(c) => {
                let ghost cg = c;
                let r = self.execute(c, msg_sender, env);
                proof {
                    assert(old(self).spec_registry_executed(&*self, cg, msg_sender, *env, r));
                }
                r
            },
        }
    }
}

/// Whether a registry call changes state.
fn is_b403_mutating_call(c: &B403Call) -> (r: bool)
    ensures
        r == is_b403_mutating(*c),
{
    match c {
        B403Call::CreatePolicy { .. } | B403Call::CreatePolicyWithAccounts { .. }
        | B403Call::SetPolicyAdmin { .. } | B403Call::ModifyPolicyWhitelist { .. }
        | B403Call::ModifyPolicyBlacklist { .. } | B403Call::CreateCompoundPolicy { .. } => true,
        _ => false,
    }
}

} // verus!

//! The Solidity ABI of the precompiles: selectors, static argument words, encoded return
//! values and encoded errors.

use vstd::arithmetic::power::pow;
use vstd::prelude::*;
use vstd::string::StringSliceAdditionalSpecFns;

use crate::error::{B20Error, B403RegistryError, BaseDexError, BasePrecompileError, PanicKind, RolesAuthError};
use crate::primitives::{keccak256, keccak256_digest, Address, B256};
use crate::word::{from_be_bytes, spec_be_value, spec_word_bytes, U256};

verus! {

/// The selector of the function or error with canonical signature `signature`: the first
/// four bytes of its Keccak-256 digest.
pub open spec fn spec_selector(signature: Seq<u8>) -> Seq<u8> {
    keccak256_digest(signature).subrange(0, 4)
}

/// The selector of the function or error with canonical signature `signature`.
pub fn selector(signature: &str) -> (r: [u8; 4])
    ensures
        r@ == spec_selector(signature.spec_bytes()),
{
    let digest = keccak256(signature.as_bytes());
    let r = [digest.bytes[0], digest.bytes[1], digest.bytes[2], digest.bytes[3]];
    proof {
        assert(digest.bytes@ == digest@);
        assert(r@ =~= spec_selector(signature.spec_bytes()));
    }
    r
}

/// Whether two selectors are equal.
pub fn same_selector(a: [u8; 4], b: [u8; 4]) -> (r: bool)
    ensures
        r == (a@ == b@),
{
    let r = a[0] == b[0] && a[1] == b[1] && a[2] == b[2] && a[3] == b[3];
    if r {
        assert(a@ =~= b@);
    } else {
        assert(a@[0] != b@[0] || a@[1] != b@[1] || a@[2] != b@[2] || a@[3] != b@[3]);
    }
    r
}

/// The argument word `i` of calldata `data`: the 32 bytes after the selector and `i` earlier
/// words.
pub open spec fn arg_word(data: Seq<u8>, i: nat) -> Seq<u8> {
    data.subrange(4 + 32 * i as int, 4 + 32 * i as int + 32)
}

/// Whether calldata `data` holds a selector and at least `n` argument words.
pub open spec fn has_args(data: Seq<u8>, n: nat) -> bool {
    data.len() >= 4 + 32 * n
}

/// The argument word `i` of `data`.
fn arg_bytes(data: &[u8], i: usize) -> (r: [u8; 32])
    requires
        has_args(data@, (i + 1) as nat),
    ensures
        r@ == arg_word(data@, i as nat),
{
    let n = data.len();
    assert(4 + 32 * i + 32 <= n);
    let start = 4 + 32 * i;
    let mut r = [0u8; 32];
    let mut k: usize = 0;
    while k < 32
        invariant
            k <= 32,
            start == 4 + 32 * i,
            n == data@.len(),
            n >= start + 32,
            r@.len() == 32,
            forall|j: int| 0 <= j < k ==> r@[j] == data@[start + j],
        decreases 32 - k,
    {
        r[k] = data[start + k];
        k = k + 1;
    }
    assert(r@ =~= arg_word(data@, i as nat));
    r
}

/// The `address` argument `i` of `data`: the last 20 bytes of its word.
pub fn arg_address(data: &[u8], i: usize) -> (r: Address)
    requires
        has_args(data@, (i + 1) as nat),
    ensures
        r@ == arg_word(data@, i as nat).subrange(12, 32),
{
    let w = arg_bytes(data, i);
    let mut bytes = [0u8; 20];
    let mut k: usize = 0;
    while k < 20
        invariant
            k <= 20,
            bytes@.len() == 20,
            w@.len() == 32,
            forall|j: int| 0 <= j < k ==> bytes@[j] == w@[12 + j],
        decreases 20 - k,
    {
        bytes[k] = w[12 + k];
        k = k + 1;
    }
    assert(bytes@ =~= w@.subrange(12, 32));
    Address::from_bytes(bytes)
}

/// The `bytes32` argument `i` of `data`: its whole word.
pub fn arg_b256(data: &[u8], i: usize) -> (r: B256)
    requires
        has_args(data@, (i + 1) as nat),
    ensures
        r@ == arg_word(data@, i as nat),
{
    B256::from_bytes(arg_bytes(data, i))
}

/// The `uint256` argument `i` of `data`: its word read big-endian.
pub fn arg_u256(data: &[u8], i: usize) -> (r: U256)
    requires
        has_args(data@, (i + 1) as nat),
    ensures
        r.value() == spec_be_value(arg_word(data@, i as nat)),
{
    from_be_bytes(arg_bytes(data, i))
}

/// Big-endian bytes denote a number below `256^len`.
proof fn lemma_be_value_bound(s: Seq<u8>)
    ensures
        spec_be_value(s) < pow(256, s.len()),
    decreases s.len(),
{
    vstd::arithmetic::power::lemma_pow_positive(256, s.len());
    if s.len() > 0 {
        lemma_be_value_bound(s.drop_last());
        let p = pow(256, (s.len() - 1) as nat);
        vstd::arithmetic::power::lemma_pow_adds(256, (s.len() - 1) as nat, 1);
        vstd::arithmetic::power::lemma_pow1(256);
        let v = spec_be_value(s.drop_last());
        let b = s.last() as int;
        assert(v * 256 + b < p * 256) by (nonlinear_arith)
            requires
                v < p,
                0 <= b < 256,
        ;
    }
}

/// The `uint64` argument `i` of `data`: the low eight bytes of its word, read big-endian.
pub fn arg_u64(data: &[u8], i: usize) -> (r: u64)
    requires
        has_args(data@, (i + 1) as nat),
    ensures
        r == spec_be_value(arg_word(data@, i as nat).subrange(24, 32)),
{
    let w = arg_bytes(data, i);
    let mut v: u64 = 0;
    let mut k: usize = 24;
    while k < 32
        invariant
            24 <= k <= 32,
            w@.len() == 32,
            v == spec_be_value(w@.subrange(24, k as int)),
        decreases 32 - k,
    {
        proof {
            let next = w@.subrange(24, k + 1);
            assert(next.drop_last() =~= w@.subrange(24, k as int));
            lemma_be_value_bound(next);
            assert(pow(256, next.len()) <= 0x1_0000_0000_0000_0000) by {
                vstd::arithmetic::power::lemma_pow_increases(256, next.len(), 8);
                assert(pow(256, 8) == 0x1_0000_0000_0000_0000) by {
                    reveal_with_fuel(pow, 9);
                }
            }
        }
        v = v * 256 + w[k] as u64;
        k = k + 1;
    }
    v
}

/// The `uint8` argument `i` of `data`: the last byte of its word.
pub fn arg_u8(data: &[u8], i: usize) -> (r: u8)
    requires
        has_args(data@, (i + 1) as nat),
    ensures
        r == arg_word(data@, i as nat)[31],
{
    let w = arg_bytes(data, i);
    w[31]
}

/// The ABI word of an address: twelve zero bytes, then the address.
pub open spec fn spec_address_word(a: Seq<u8>) -> Seq<u8> {
    Seq::new(12, |i: int| 0u8) + a
}

/// The ABI word of a boolean.
pub open spec fn spec_bool_word(b: bool) -> Seq<u8> {
    spec_word_bytes(if b {
        1
    } else {
        0
    })
}

/// The zero bytes that pad `n` bytes to a whole number of words.
pub open spec fn spec_padding(n: nat) -> nat {
    if n % 32 == 0 {
        0
    } else {
        (32 - n % 32) as nat
    }
}

/// The ABI encoding of a single returned `string` (or `bytes`): the offset of the data
/// (`0x20`), its length, and the bytes padded with zeros to whole words.
pub open spec fn spec_string_return(s: Seq<u8>) -> Seq<u8> {
    spec_word_bytes(32) + spec_word_bytes(s.len()) + s + Seq::new(spec_padding(s.len()), |i: int| 0u8)
}

/// Appends `bytes` to `out`.
pub fn append(out: &mut Vec<u8>, bytes: &[u8])
    ensures
        final(out)@ == old(out)@ + bytes@,
{
    let mut i: usize = 0;
    while i < bytes.len()
        invariant
            i <= bytes@.len(),
            out@ == old(out)@ + bytes@.subrange(0, i as int),
        decreases bytes@.len() - i,
    {
        out.push(bytes[i]);
        i = i + 1;
        assert(bytes@.subrange(0, i as int) =~= bytes@.subrange(0, i - 1).push(bytes@[i - 1]));
    }
    assert(bytes@.subrange(0, bytes@.len() as int) =~= bytes@);
}

/// Appends `n` zero bytes to `out`.
fn append_zeros(out: &mut Vec<u8>, n: usize)
    ensures
        final(out)@ == old(out)@ + Seq::new(n as nat, |i: int| 0u8),
{
    let mut i: usize = 0;
    while i < n
        invariant
            i <= n,
            out@ == old(out)@ + Seq::new(i as nat, |j: int| 0u8),
        decreases n - i,
    {
        out.push(0);
        i = i + 1;
        assert(Seq::new(i as nat, |j: int| 0u8) =~= Seq::new((i - 1) as nat, |j: int| 0u8).push(0u8));
    }
}

/// Appends the ABI word of `x` to `out`.
pub fn append_word(out: &mut Vec<u8>, x: U256)
    ensures
        final(out)@ == old(out)@ + spec_word_bytes(x.value()),
{
    let bytes = x.to_be_bytes();
    append(out, &bytes);
}

/// Appends the ABI word of the address `a` to `out`.
pub fn append_address(out: &mut Vec<u8>, a: &Address)
    ensures
        final(out)@ == old(out)@ + spec_address_word(a@),
{
    append_zeros(out, 12);
    append(out, &a.bytes);
    assert(old(out)@ + Seq::new(12, |i: int| 0u8) + a@ =~= old(out)@ + spec_address_word(a@));
}

/// The ABI encoding of the single word `x`.
pub fn encode_word(x: U256) -> (r: Vec<u8>)
    ensures
        r@ == spec_word_bytes(x.value()),
{
    let mut out: Vec<u8> = Vec::new();
    append_word(&mut out, x);
    assert(out@ =~= spec_word_bytes(x.value()));
    out
}

/// The ABI encoding of a returned string.
pub fn encode_string(s: &str) -> (r: Vec<u8>)
    ensures
        r@ == spec_string_return(s.spec_bytes()),
{
    let bytes = s.as_bytes();
    let len = bytes.len();
    let mut out: Vec<u8> = Vec::new();
    append_word(&mut out, U256::from_u64(32));
    append_word(&mut out, U256::from_u64(len as u64));
    append(&mut out, bytes);
    let rem = len % 32;
    let pad = if rem == 0 {
        0
    } else {
        32 - rem
    };
    append_zeros(&mut out, pad);
    assert(out@ =~= spec_string_return(s.spec_bytes()));
    out
}

/// The canonical signature of a B20 error.
pub open spec fn spec_b20_error_signature(e: B20Error) -> Seq<u8> {
    match e {
        B20Error::InsufficientBalance { .. } => "InsufficientBalance(uint256,uint256,address)".spec_bytes(),
        B20Error::InsufficientAllowance => "InsufficientAllowance()".spec_bytes(),
        B20Error::SupplyCapExceeded => "SupplyCapExceeded()".spec_bytes(),
        B20Error::InvalidSupplyCap => "InvalidSupplyCap()".spec_bytes(),
        B20Error::InvalidPayload => "InvalidPayload()".spec_bytes(),
        B20Error::StringTooLong => "StringTooLong()".spec_bytes(),
        B20Error::PolicyForbids => "PolicyForbids()".spec_bytes(),
        B20Error::InvalidRecipient => "InvalidRecipient()".spec_bytes(),
        B20Error::ContractPaused => "ContractPaused()".spec_bytes(),
        B20Error::InvalidCurrency => "InvalidCurrency()".spec_bytes(),
        B20Error::TransfersDisabled => "TransfersDisabled()".spec_bytes(),
        B20Error::InvalidAmount => "InvalidAmount()".spec_bytes(),
        B20Error::Unauthorized => "Unauthorized()".spec_bytes(),
        B20Error::ProtectedAddress => "ProtectedAddress()".spec_bytes(),
        B20Error::InvalidToken => "InvalidToken()".spec_bytes(),
        B20Error::Uninitialized => "Uninitialized()".spec_bytes(),
        B20Error::InvalidTransferPolicyId => "InvalidTransferPolicyId()".spec_bytes(),
        B20Error::PermitExpired => "PermitExpired()".spec_bytes(),
        B20Error::InvalidSignature => "InvalidSignature()".spec_bytes(),
        B20Error::NoOptedInSupply => "NoOptedInSupply()".spec_bytes(),
    }
}

/// The canonical signature of a B20 error.
fn b20_error_signature(e: &B20Error) -> (r: &'static str)
    ensures
        r.spec_bytes() == spec_b20_error_signature(*e),
{
    match e {
        B20Error::InsufficientBalance { .. } => "InsufficientBalance(uint256,uint256,address)",
        B20Error::InsufficientAllowance => "InsufficientAllowance()",
        B20Error::SupplyCapExceeded => "SupplyCapExceeded()",
        B20Error::InvalidSupplyCap => "InvalidSupplyCap()",
        B20Error::InvalidPayload => "InvalidPayload()",
        B20Error::StringTooLong => "StringTooLong()",
        B20Error::PolicyForbids => "PolicyForbids()",
        B20Error::InvalidRecipient => "InvalidRecipient()",
        B20Error::ContractPaused => "ContractPaused()",
        B20Error::InvalidCurrency => "InvalidCurrency()",
        B20Error::TransfersDisabled => "TransfersDisabled()",
        B20Error::InvalidAmount => "InvalidAmount()",
        B20Error::Unauthorized => "Unauthorized()",
        B20Error::ProtectedAddress => "ProtectedAddress()",
        B20Error::InvalidToken => "InvalidToken()",
        B20Error::Uninitialized => "Uninitialized()",
        B20Error::InvalidTransferPolicyId => "InvalidTransferPolicyId()",
        B20Error::PermitExpired => "PermitExpired()",
        B20Error::InvalidSignature => "InvalidSignature()",
        B20Error::NoOptedInSupply => "NoOptedInSupply()",
    }
}

/// The canonical signature of a B403 registry error.
pub open spec fn spec_b403_error_signature(e: B403RegistryError) -> Seq<u8> {
    match e {
        B403RegistryError::Unauthorized => "Unauthorized()".spec_bytes(),
        B403RegistryError::PolicyNotFound => "PolicyNotFound()".spec_bytes(),
        B403RegistryError::IncompatiblePolicyType => "IncompatiblePolicyType()".spec_bytes(),
        B403RegistryError::InvalidPolicyType => "InvalidPolicyType()".spec_bytes(),
        B403RegistryError::PolicyNotSimple => "PolicyNotSimple()".spec_bytes(),
        B403RegistryError::VirtualAddressNotAllowed => "VirtualAddressNotAllowed()".spec_bytes(),
    }
}

/// The canonical signature of a B403 registry error.
fn b403_error_signature(e: &B403RegistryError) -> (r: &'static str)
    ensures
        r.spec_bytes() == spec_b403_error_signature(*e),
{
    match e {
        B403RegistryError::Unauthorized => "Unauthorized()",
        B403RegistryError::PolicyNotFound => "PolicyNotFound()",
        B403RegistryError::IncompatiblePolicyType => "IncompatiblePolicyType()",
        B403RegistryError::InvalidPolicyType => "InvalidPolicyType()",
        B403RegistryError::PolicyNotSimple => "PolicyNotSimple()",
        B403RegistryError::VirtualAddressNotAllowed => "VirtualAddressNotAllowed()",
    }
}

/// The canonical signature of a Base DEX error.
pub open spec fn spec_dex_error_signature(e: BaseDexError) -> Seq<u8> {
    match e {
        BaseDexError::IdenticalTokens => "IdenticalTokens()".spec_bytes(),
        BaseDexError::InvalidToken => "InvalidToken()".spec_bytes(),
        BaseDexError::InvalidAmount => "InvalidAmount()".spec_bytes(),
        BaseDexError::InsufficientLiquidity => "InsufficientLiquidity()".spec_bytes(),
        BaseDexError::InsufficientOutputAmount => "InsufficientOutputAmount()".spec_bytes(),
        BaseDexError::InvalidSwapPath => "InvalidSwapPath()".spec_bytes(),
    }
}

/// The canonical signature of a Base DEX error.
fn dex_error_signature(e: &BaseDexError) -> (r: &'static str)
    ensures
        r.spec_bytes() == spec_dex_error_signature(*e),
{
    match e {
        BaseDexError::IdenticalTokens => "IdenticalTokens()",
        BaseDexError::InvalidToken => "InvalidToken()",
        BaseDexError::InvalidAmount => "InvalidAmount()",
        BaseDexError::InsufficientLiquidity => "InsufficientLiquidity()",
        BaseDexError::InsufficientOutputAmount => "InsufficientOutputAmount()",
        BaseDexError::InvalidSwapPath => "InvalidSwapPath()",
    }
}

/// The Solidity panic code of a panic kind.
pub open spec fn spec_panic_code(kind: PanicKind) -> u64 {
    match kind {
        PanicKind::UnderOverflow => 0x11,
        PanicKind::EnumConversionError => 0x21,
        PanicKind::ArrayOutOfBounds => 0x32,
    }
}

/// The selector of `Panic(uint256)`.
pub open spec fn spec_panic_selector() -> Seq<u8> {
    seq![0x4eu8, 0x48u8, 0x7bu8, 0x71u8]
}

/// The ABI encoding of the Solidity panic with code `code`.
///
/// Calls `alloy_sol_types::Panic::abi_encode`, which writes the selector of
/// `Panic(uint256)` followed by the code as one word.
#[verifier::external_body]
fn panic_data(code: u64) -> (r: Vec<u8>)
    ensures
        r@ == spec_panic_selector() + spec_word_bytes(code as nat),
{
    alloy_sol_types::SolError::abi_encode(&alloy_sol_types::Panic::from(code))
}

/// The revert data of an error that reverts: its selector and arguments. Out-of-gas and
/// fatal errors halt instead and have none.
pub open spec fn spec_error_data(e: BasePrecompileError) -> Option<Seq<u8>> {
    match e {
        BasePrecompileError::B20(b) => Some(
            match b {
                B20Error::InsufficientBalance { available, required, token } => spec_selector(
                    spec_b20_error_signature(b),
                ) + spec_word_bytes(available.value()) + spec_word_bytes(required.value())
                    + spec_address_word(token@),
                _ => spec_selector(spec_b20_error_signature(b)),
            },
        ),
        BasePrecompileError::RolesAuthError(_) => Some(spec_selector("Unauthorized()".spec_bytes())),
        BasePrecompileError::B403RegistryError(r) => Some(spec_selector(spec_b403_error_signature(r))),
        BasePrecompileError::BaseDex(d) => Some(spec_selector(spec_dex_error_signature(d))),
        BasePrecompileError::Panic(kind) => Some(
            spec_panic_selector() + spec_word_bytes(spec_panic_code(kind) as nat),
        ),
        BasePrecompileError::UnknownFunctionSelector(s) => Some(
            spec_selector("UnknownFunctionSelector(bytes4)".spec_bytes()) + s@ + Seq::new(
                28,
                |i: int| 0u8,
            ),
        ),
        BasePrecompileError::OutOfGas => None,
        BasePrecompileError::Fatal(_) => None,
    }
}

/// How a precompile call ends.
#[derive(Clone, Debug, PartialEq, Eq)]
pub enum PrecompileOutcome {
    /// The call returned: the gas it used and its return data.
    Success(u64, Vec<u8>),
    /// The call reverted: the gas it used and its revert data.
    Revert(u64, Vec<u8>),
    /// The call ran out of gas.
    OutOfGas,
    /// The call failed with an unrecoverable error.
    Fatal(String),
}

/// Whether `r` is the outcome of a call that failed with `e`.
pub open spec fn is_error_outcome(r: PrecompileOutcome, e: BasePrecompileError) -> bool {
    match e {
        BasePrecompileError::OutOfGas => r == PrecompileOutcome::OutOfGas,
        BasePrecompileError::Fatal(m) => r == PrecompileOutcome::Fatal(m),
        _ => r matches PrecompileOutcome::Revert(_, bytes) && Some(bytes@) == spec_error_data(e),
    }
}

/// `r` with the gas it reports set to `gas`; an outcome that halts reports no gas.
pub open spec fn spec_with_gas(r: PrecompileOutcome, gas: u64) -> PrecompileOutcome {
    match r {
        PrecompileOutcome::Success(_, bytes) => PrecompileOutcome::Success(gas, bytes),
        PrecompileOutcome::Revert(_, bytes) => PrecompileOutcome::Revert(gas, bytes),
        _ => r,
    }
}

/// `r` reporting `gas` as the gas it used.
pub fn with_gas(r: PrecompileOutcome, gas: u64) -> (out: PrecompileOutcome)
    ensures
        out == spec_with_gas(r, gas),
{
    match r {
        PrecompileOutcome::Success(_, bytes) => PrecompileOutcome::Success(gas, bytes),
        PrecompileOutcome::Revert(_, bytes) => PrecompileOutcome::Revert(gas, bytes),
        other => other,
    }
}

/// The ABI revert data of `e`, which must be an error that reverts.
fn error_data(e: &BasePrecompileError) -> (r: Vec<u8>)
    requires
        !(e is OutOfGas),
        !(e is Fatal),
    ensures
        Some(r@) == spec_error_data(*e),
{
    let mut out: Vec<u8> = Vec::new();
    match e {
        BasePrecompileError::B20(b) => {
            let sel = selector(b20_error_signature(b));
            append(&mut out, &sel);
            match b {
                B20Error::InsufficientBalance { available, required, token } => {
                    append_word(&mut out, *available);
                    append_word(&mut out, *required);
                    append_address(&mut out, token);
                },
                _ => {},
            }
        },
        BasePrecompileError::RolesAuthError(_) => {
            let sel = selector("Unauthorized()");
            append(&mut out, &sel);
        },
        BasePrecompileError::B403RegistryError(r) => {
            let sel = selector(b403_error_signature(r));
            append(&mut out, &sel);
        },
        BasePrecompileError::BaseDex(d) => {
            let sel = selector(dex_error_signature(d));
            append(&mut out, &sel);
        },
        BasePrecompileError::Panic(kind) => {
            let code: u64 = match kind {
                PanicKind::UnderOverflow => 0x11,
                PanicKind::EnumConversionError => 0x21,
                PanicKind::ArrayOutOfBounds => 0x32,
            };
            out = panic_data(code);
        },
        BasePrecompileError::UnknownFunctionSelector(s) => {
            let sel = selector("UnknownFunctionSelector(bytes4)");
            append(&mut out, &sel);
            append(&mut out, s);
            append_zeros(&mut out, 28);
        },
        BasePrecompileError::OutOfGas => {},
        BasePrecompileError::Fatal(_) => {},
    }
    proof {
        assert(out@ =~= spec_error_data(*e).unwrap());
    }
    out
}

/// The outcome of a call that failed with `e` after using `gas`: out-of-gas and fatal errors
/// halt, every other error reverts with its ABI-encoded data and reports `gas`. The
/// reservoir is not used.
pub fn into_precompile_result(e: BasePrecompileError, gas: u64, _reservoir: u64) -> (r:
    PrecompileOutcome)
    ensures
        is_error_outcome(r, e),
        r == spec_with_gas(r, gas),
{
    match e {
        BasePrecompileError::OutOfGas => PrecompileOutcome::OutOfGas,
        BasePrecompileError::Fatal(m) => PrecompileOutcome::Fatal(m),
        _ => PrecompileOutcome::Revert(gas, error_data(&e)),
    }
}

/// An error that the revert decoder recognizes, without its arguments.
#[derive(Clone, Copy, Debug)]
pub enum RegisteredError {
    /// `InsufficientBalance(uint256,uint256,address)` of B20 tokens, decoded with its
    /// arguments.
    InsufficientBalance,
    /// An error of B20 tokens without arguments.
    B20(B20Error),
    /// An error of the roles access control.
    Roles(RolesAuthError),
    /// An error of the B403 registry.
    B403(B403RegistryError),
}

/// Whether `e` is what revert data `data`, whose selector picks `k`, decodes to: the error
/// itself, or for `InsufficientBalance` the error with the three argument words of `data`.
pub open spec fn decodes_to(k: RegisteredError, data: Seq<u8>, e: BasePrecompileError) -> bool {
    match k {
        RegisteredError::InsufficientBalance => match e {
            BasePrecompileError::B20(B20Error::InsufficientBalance { available, required, token }) => {
                &&& available.value() == spec_be_value(arg_word(data, 0))
                &&& required.value() == spec_be_value(arg_word(data, 1))
                &&& token@ == arg_word(data, 2).subrange(12, 32)
            },
            _ => false,
        },
        RegisteredError::B20(x) => e == BasePrecompileError::B20(x),
        RegisteredError::Roles(x) => e == BasePrecompileError::RolesAuthError(x),
        RegisteredError::B403(x) => e == BasePrecompileError::B403RegistryError(x),
    }
}

/// An entry of the revert decoder: the selector and the error it decodes to.
#[derive(Clone, Copy, Debug)]
pub struct RegistryEntry {
    /// The error selector.
    pub selector: [u8; 4],
    /// The error.
    pub error: RegisteredError,
}

/// The selector and error of an entry.
pub open spec fn entry_view(e: RegistryEntry) -> (Seq<u8>, RegisteredError) {
    (e.selector@, e.error)
}

/// The entries of the revert decoder, in the order in which they are registered: the B20
/// errors, then the roles error, then the B403 errors. A later entry replaces an earlier one
/// with the same selector.
#[verifier::opaque]
pub open spec fn spec_registry() -> Seq<(Seq<u8>, RegisteredError)> {
    seq![
        (spec_selector("InsufficientBalance(uint256,uint256,address)".spec_bytes()), RegisteredError::InsufficientBalance),
        (spec_selector(spec_b20_error_signature(B20Error::InsufficientAllowance)), RegisteredError::B20(B20Error::InsufficientAllowance)),
        (spec_selector(spec_b20_error_signature(B20Error::SupplyCapExceeded)), RegisteredError::B20(B20Error::SupplyCapExceeded)),
        (spec_selector(spec_b20_error_signature(B20Error::InvalidSupplyCap)), RegisteredError::B20(B20Error::InvalidSupplyCap)),
        (spec_selector(spec_b20_error_signature(B20Error::InvalidPayload)), RegisteredError::B20(B20Error::InvalidPayload)),
        (spec_selector(spec_b20_error_signature(B20Error::StringTooLong)), RegisteredError::B20(B20Error::StringTooLong)),
        (spec_selector(spec_b20_error_signature(B20Error::PolicyForbids)), RegisteredError::B20(B20Error::PolicyForbids)),
        (spec_selector(spec_b20_error_signature(B20Error::InvalidRecipient)), RegisteredError::B20(B20Error::InvalidRecipient)),
        (spec_selector(spec_b20_error_signature(B20Error::ContractPaused)), RegisteredError::B20(B20Error::ContractPaused)),
        (spec_selector(spec_b20_error_signature(B20Error::InvalidCurrency)), RegisteredError::B20(B20Error::InvalidCurrency)),
        (spec_selector(spec_b20_error_signature(B20Error::TransfersDisabled)), RegisteredError::B20(B20Error::TransfersDisabled)),
        (spec_selector(spec_b20_error_signature(B20Error::InvalidAmount)), RegisteredError::B20(B20Error::InvalidAmount)),
        (spec_selector(spec_b20_error_signature(B20Error::Unauthorized)), RegisteredError::B20(B20Error::Unauthorized)),
        (spec_selector(spec_b20_error_signature(B20Error::ProtectedAddress)), RegisteredError::B20(B20Error::ProtectedAddress)),
        (spec_selector(spec_b20_error_signature(B20Error::InvalidToken)), RegisteredError::B20(B20Error::InvalidToken)),
        (spec_selector(spec_b20_error_signature(B20Error::Uninitialized)), RegisteredError::B20(B20Error::Uninitialized)),
        (spec_selector(spec_b20_error_signature(B20Error::InvalidTransferPolicyId)), RegisteredError::B20(B20Error::InvalidTransferPolicyId)),
        (spec_selector(spec_b20_error_signature(B20Error::PermitExpired)), RegisteredError::B20(B20Error::PermitExpired)),
        (spec_selector(spec_b20_error_signature(B20Error::InvalidSignature)), RegisteredError::B20(B20Error::InvalidSignature)),
        (spec_selector(spec_b20_error_signature(B20Error::NoOptedInSupply)), RegisteredError::B20(B20Error::NoOptedInSupply)),
        (spec_selector("Unauthorized()".spec_bytes()), RegisteredError::Roles(RolesAuthError::Unauthorized)),
        (spec_selector(spec_b403_error_signature(B403RegistryError::Unauthorized)), RegisteredError::B403(B403RegistryError::Unauthorized)),
        (spec_selector(spec_b403_error_signature(B403RegistryError::PolicyNotFound)), RegisteredError::B403(B403RegistryError::PolicyNotFound)),
        (spec_selector(spec_b403_error_signature(B403RegistryError::IncompatiblePolicyType)), RegisteredError::B403(B403RegistryError::IncompatiblePolicyType)),
        (spec_selector(spec_b403_error_signature(B403RegistryError::InvalidPolicyType)), RegisteredError::B403(B403RegistryError::InvalidPolicyType)),
        (spec_selector(spec_b403_error_signature(B403RegistryError::PolicyNotSimple)), RegisteredError::B403(B403RegistryError::PolicyNotSimple)),
        (spec_selector(spec_b403_error_signature(B403RegistryError::VirtualAddressNotAllowed)), RegisteredError::B403(B403RegistryError::VirtualAddressNotAllowed)),
    ]
}

/// The error registered last under selector `sel` in `reg`.
pub open spec fn spec_lookup(reg: Seq<(Seq<u8>, RegisteredError)>, sel: Seq<u8>) -> Option<RegisteredError>
    decreases reg.len(),
{
    if reg.len() == 0 {
        None
    } else if reg.last().0 == sel {
        Some(reg.last().1)
    } else {
        spec_lookup(reg.drop_last(), sel)
    }
}

/// The error that revert data `data` decodes to, without its arguments: `None` when it is
/// shorter than a selector, its selector is unknown, or it lacks the arguments of its error.
pub open spec fn spec_decoded_kind(data: Seq<u8>) -> Option<RegisteredError> {
    if data.len() < 4 {
        None
    } else {
        match spec_lookup(spec_registry(), data.subrange(0, 4)) {
            Some(RegisteredError::InsufficientBalance) => if has_args(data, 3) {
                Some(RegisteredError::InsufficientBalance)
            } else {
                None
            },
            other => other,
        }
    }
}

/// Appends the entry of `error` under the selector of `signature`.
fn push_entry(v: &mut Vec<RegistryEntry>, signature: &str, error: RegisteredError)
    ensures
        final(v)@.map_values(|e: RegistryEntry| entry_view(e)) == old(v)@.map_values(
            |e: RegistryEntry| entry_view(e),
        ).push((spec_selector(signature.spec_bytes()), error)),
{
    let entry = RegistryEntry { selector: selector(signature), error };
    v.push(entry);
    assert(v@.map_values(|e: RegistryEntry| entry_view(e)) =~= old(v)@.map_values(
        |e: RegistryEntry| entry_view(e),
    ).push((spec_selector(signature.spec_bytes()), error)));
}

/// The entries of the revert decoder, in registration order.
#[verifier::rlimit(40)]
pub fn error_decoder_registry() -> (r: Vec<RegistryEntry>)
    ensures
        r@.map_values(|e: RegistryEntry| entry_view(e)) == spec_registry(),
{
    let mut v: Vec<RegistryEntry> = Vec::new();
    assert(v@.map_values(|e: RegistryEntry| entry_view(e)) =~= Seq::empty());
    push_entry(&mut v, "InsufficientBalance(uint256,uint256,address)", RegisteredError::InsufficientBalance);
    push_entry(&mut v, b20_error_signature(&B20Error::InsufficientAllowance), RegisteredError::B20(B20Error::InsufficientAllowance));
    push_entry(&mut v, b20_error_signature(&B20Error::SupplyCapExceeded), RegisteredError::B20(B20Error::SupplyCapExceeded));
    push_entry(&mut v, b20_error_signature(&B20Error::InvalidSupplyCap), RegisteredError::B20(B20Error::InvalidSupplyCap));
    push_entry(&mut v, b20_error_signature(&B20Error::InvalidPayload), RegisteredError::B20(B20Error::InvalidPayload));
    push_entry(&mut v, b20_error_signature(&B20Error::StringTooLong), RegisteredError::B20(B20Error::StringTooLong));
    push_entry(&mut v, b20_error_signature(&B20Error::PolicyForbids), RegisteredError::B20(B20Error::PolicyForbids));
    push_entry(&mut v, b20_error_signature(&B20Error::InvalidRecipient), RegisteredError::B20(B20Error::InvalidRecipient));
    push_entry(&mut v, b20_error_signature(&B20Error::ContractPaused), RegisteredError::B20(B20Error::ContractPaused));
    push_entry(&mut v, b20_error_signature(&B20Error::InvalidCurrency), RegisteredError::B20(B20Error::InvalidCurrency));
    push_entry(&mut v, b20_error_signature(&B20Error::TransfersDisabled), RegisteredError::B20(B20Error::TransfersDisabled));
    push_entry(&mut v, b20_error_signature(&B20Error::InvalidAmount), RegisteredError::B20(B20Error::InvalidAmount));
    push_entry(&mut v, b20_error_signature(&B20Error::Unauthorized), RegisteredError::B20(B20Error::Unauthorized));
    push_entry(&mut v, b20_error_signature(&B20Error::ProtectedAddress), RegisteredError::B20(B20Error::ProtectedAddress));
    push_entry(&mut v, b20_error_signature(&B20Error::InvalidToken), RegisteredError::B20(B20Error::InvalidToken));
    push_entry(&mut v, b20_error_signature(&B20Error::Uninitialized), RegisteredError::B20(B20Error::Uninitialized));
    push_entry(&mut v, b20_error_signature(&B20Error::InvalidTransferPolicyId), RegisteredError::B20(B20Error::InvalidTransferPolicyId));
    push_entry(&mut v, b20_error_signature(&B20Error::PermitExpired), RegisteredError::B20(B20Error::PermitExpired));
    push_entry(&mut v, b20_error_signature(&B20Error::InvalidSignature), RegisteredError::B20(B20Error::InvalidSignature));
    push_entry(&mut v, b20_error_signature(&B20Error::NoOptedInSupply), RegisteredError::B20(B20Error::NoOptedInSupply));
    push_entry(&mut v, "Unauthorized()", RegisteredError::Roles(RolesAuthError::Unauthorized));
    push_entry(&mut v, b403_error_signature(&B403RegistryError::Unauthorized), RegisteredError::B403(B403RegistryError::Unauthorized));
    push_entry(&mut v, b403_error_signature(&B403RegistryError::PolicyNotFound), RegisteredError::B403(B403RegistryError::PolicyNotFound));
    push_entry(&mut v, b403_error_signature(&B403RegistryError::IncompatiblePolicyType), RegisteredError::B403(B403RegistryError::IncompatiblePolicyType));
    push_entry(&mut v, b403_error_signature(&B403RegistryError::InvalidPolicyType), RegisteredError::B403(B403RegistryError::InvalidPolicyType));
    push_entry(&mut v, b403_error_signature(&B403RegistryError::PolicyNotSimple), RegisteredError::B403(B403RegistryError::PolicyNotSimple));
    push_entry(&mut v, b403_error_signature(&B403RegistryError::VirtualAddressNotAllowed), RegisteredError::B403(B403RegistryError::VirtualAddressNotAllowed));
    proof {
        reveal(spec_registry);
    }
    assert(v@.map_values(|e: RegistryEntry| entry_view(e)) =~= spec_registry());
    v
}

/// An error decoded from revert data, with the data it came from.
#[derive(Clone, Debug)]
pub struct DecodedBasePrecompileError<'a> {
    /// The decoded error.
    pub error: BasePrecompileError,
    /// The revert data.
    pub revert_bytes: &'a [u8],
}

/// Decodes revert data of the precompiles into the error it encodes: its selector picks the
/// error registered last under it, whose arguments are then read. `None` when the data is
/// shorter than a selector, the selector is unknown, or the arguments are missing.
pub fn decode_error<'a>(data: &'a [u8]) -> (r: Option<DecodedBasePrecompileError<'a>>)
    ensures
        match spec_decoded_kind(data@) {
            None => r is None,
            Some(k) => r matches Some(d) && d.revert_bytes@ == data@ && decodes_to(k, data@, d.error),
        },
{
    if data.len() < 4 {
        return None;
    }
    let sel: [u8; 4] = [data[0], data[1], data[2], data[3]];
    assert(sel@ =~= data@.subrange(0, 4));
    let reg = error_decoder_registry();
    let ghost rv = reg@.map_values(|e: RegistryEntry| entry_view(e));
    let mut k: usize = reg.len();
    assert(rv.subrange(0, k as int) =~= rv);
    while k > 0
        invariant
            k <= reg@.len(),
            rv == reg@.map_values(|e: RegistryEntry| entry_view(e)),
            rv == spec_registry(),
            data@.len() >= 4,
            sel@ == data@.subrange(0, 4),
            spec_lookup(rv, sel@) == spec_lookup(rv.subrange(0, k as int), sel@),
        decreases k,
    {
        let entry = reg[k - 1];
        let prefix = Ghost(rv.subrange(0, k as int));
        assert(prefix@.last() == entry_view(entry));
        if same_selector(entry.selector, sel) {
            let error = match entry.error {
                RegisteredError::InsufficientBalance => {
                    if data.len() < 100 {
                        return None;
                    }
                    BasePrecompileError::B20(
                        B20Error::InsufficientBalance {
                            available: arg_u256(data, 0),
                            required: arg_u256(data, 1),
                            token: arg_address(data, 2),
                        },
                    )
                },
                RegisteredError::B20(e) => BasePrecompileError::B20(e),
                RegisteredError::Roles(e) => BasePrecompileError::RolesAuthError(e),
                RegisteredError::B403(e) => BasePrecompileError::B403RegistryError(e),
            };
            return Some(DecodedBasePrecompileError { error, revert_bytes: data });
        }
        assert(prefix@.drop_last() =~= rv.subrange(0, k - 1));
        k = k - 1;
    }
    assert(spec_lookup(rv.subrange(0, 0), sel@) is None);
    None
}

} // verus!

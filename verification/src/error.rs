//! The errors of the Base precompiles.
//!
//! [`BasePrecompileError`] is the top-level error; each contract has its own error enum whose
//! variants correspond to the ABI errors that a reverted call returns.

use vstd::prelude::*;

use crate::primitives::Address;
use crate::word::U256;

verus! {

/// Kinds of EVM panics (Solidity `Panic(uint256)` codes).
#[derive(Clone, Copy, Debug, PartialEq, Eq, Structural)]
pub enum PanicKind {
    /// Arithmetic under/overflow (`0x11`).
    UnderOverflow,
    /// Conversion of an out-of-range value into an enum (`0x21`).
    EnumConversionError,
    /// Array access out of bounds (`0x32`).
    ArrayOutOfBounds,
}

/// Errors of B20 tokens.
#[derive(Clone, Copy, Debug, PartialEq, Eq)]
pub enum B20Error {
    /// The balance is lower than the amount required.
    InsufficientBalance { available: U256, required: U256, token: Address },
    /// The allowance is lower than the amount transferred.
    InsufficientAllowance,
    /// Minting would exceed the supply cap, or the cap exceeds `u128::MAX`.
    SupplyCapExceeded,
    /// The new supply cap is below the current total supply.
    InvalidSupplyCap,
    /// The payload is malformed.
    InvalidPayload,
    /// A string parameter is too long.
    StringTooLong,
    /// The transfer policy forbids the operation.
    PolicyForbids,
    /// The recipient is the zero address or a token address.
    InvalidRecipient,
    /// The token is paused.
    ContractPaused,
    /// The currency is invalid.
    InvalidCurrency,
    /// Transfers are disabled.
    TransfersDisabled,
    /// The amount is invalid (e.g. zero).
    InvalidAmount,
    /// The caller lacks the required permission.
    Unauthorized,
    /// The address is protected.
    ProtectedAddress,
    /// The address is not a B20 token.
    InvalidToken,
    /// The token is not initialized.
    Uninitialized,
    /// The transfer policy does not exist.
    InvalidTransferPolicyId,
    /// The permit deadline has passed.
    PermitExpired,
    /// The permit signature is invalid.
    InvalidSignature,
    /// No tokens are opted into rewards.
    NoOptedInSupply,
}

/// Errors of the role-based access control of B20 tokens.
#[derive(Clone, Copy, Debug, PartialEq, Eq, Structural)]
pub enum RolesAuthError {
    /// The account does not hold the required role.
    Unauthorized,
}

/// Errors of the B403 policy registry.
#[derive(Clone, Copy, Debug, PartialEq, Eq, Structural)]
pub enum B403RegistryError {
    /// The caller is not the policy admin.
    Unauthorized,
    /// The policy does not exist.
    PolicyNotFound,
    /// The policy has the wrong type for the operation.
    IncompatiblePolicyType,
    /// The stored policy type cannot be decoded.
    InvalidPolicyType,
    /// A referenced policy is not a simple policy.
    PolicyNotSimple,
    /// Virtual addresses are not allowed.
    VirtualAddressNotAllowed,
}

/// Errors of the Base DEX.
#[derive(Clone, Copy, Debug, PartialEq, Eq, Structural)]
pub enum BaseDexError {
    /// Both tokens are the same, or the pool token is Base USD.
    IdenticalTokens,
    /// The token is not a deployed B20 token.
    InvalidToken,
    /// The amount is zero.
    InvalidAmount,
    /// The pool has too little liquidity for the operation.
    InsufficientLiquidity,
    /// The output is zero or below the requested minimum.
    InsufficientOutputAmount,
    /// The swap path is not supported.
    InvalidSwapPath,
}

/// Top-level error type for all Base precompile operations.
#[derive(Clone, Debug, PartialEq, Eq)]
pub enum BasePrecompileError {
    /// Error from a B20 token.
    B20(B20Error),
    /// Error from the roles access control.
    RolesAuthError(RolesAuthError),
    /// Error from the B403 registry.
    B403RegistryError(B403RegistryError),
    /// Error from the Base DEX.
    BaseDex(BaseDexError),
    /// EVM panic (arithmetic under/overflow, out-of-bounds access, ...).
    Panic(PanicKind),
    /// Gas limit exceeded during precompile execution.
    OutOfGas,
    /// The calldata's 4-byte selector does not match any known function.
    UnknownFunctionSelector([u8; 4]),
    /// Unrecoverable internal error.
    Fatal(String),
}

/// Result type of the Base precompile operations.
pub type Result<T> = std::result::Result<T, BasePrecompileError>;

impl BasePrecompileError {
    /// Whether this error is a system-level failure that must be propagated rather than
    /// swallowed, because state may be inconsistent.
    pub fn is_system_error(&self) -> (r: bool)
        ensures
            r == (self is OutOfGas || self is Fatal || self is Panic),
    {
        match self {
            BasePrecompileError::OutOfGas | BasePrecompileError::Fatal(_)
            | BasePrecompileError::Panic(_) => true,
            BasePrecompileError::B20(_) | BasePrecompileError::RolesAuthError(_)
            | BasePrecompileError::B403RegistryError(_) | BasePrecompileError::BaseDex(_)
            | BasePrecompileError::UnknownFunctionSelector(_) => false,
        }
    }

    /// An arithmetic under/overflow panic.
    pub fn under_overflow() -> (r: Self)
        ensures
            r == BasePrecompileError::Panic(PanicKind::UnderOverflow),
    {
        BasePrecompileError::Panic(PanicKind::UnderOverflow)
    }

    /// An enum conversion panic.
    pub fn enum_conversion_error() -> (r: Self)
        ensures
            r == BasePrecompileError::Panic(PanicKind::EnumConversionError),
    {
        BasePrecompileError::Panic(PanicKind::EnumConversionError)
    }

    /// An array out-of-bounds panic.
    pub fn array_oob() -> (r: Self)
        ensures
            r == BasePrecompileError::Panic(PanicKind::ArrayOutOfBounds),
    {
        BasePrecompileError::Panic(PanicKind::ArrayOutOfBounds)
    }
}

/// The under/overflow panic, as a specification value.
pub open spec fn overflow() -> BasePrecompileError {
    BasePrecompileError::Panic(PanicKind::UnderOverflow)
}

/// `r` failed with the error of the failed check `check`.
pub open spec fn fails_with<T>(r: Result<T>, check: Result<()>) -> bool {
    check matches Err(e) && r == Err::<T, BasePrecompileError>(e)
}

/// A B20 error, as a specification value.
pub open spec fn b20_err(e: B20Error) -> BasePrecompileError {
    BasePrecompileError::B20(e)
}

/// A B403 registry error, as a specification value.
pub open spec fn b403_err(e: B403RegistryError) -> BasePrecompileError {
    BasePrecompileError::B403RegistryError(e)
}

/// A Base DEX error, as a specification value.
pub open spec fn dex_err(e: BaseDexError) -> BasePrecompileError {
    BasePrecompileError::BaseDex(e)
}

impl B20Error {
    /// The balance is lower than the amount required.
    pub fn insufficient_balance(available: U256, required: U256, token: Address) -> (r: Self)
        ensures
            r == (B20Error::InsufficientBalance { available, required, token }),
    {
        B20Error::InsufficientBalance { available, required, token }
    }

    /// The allowance is insufficient.
    pub fn insufficient_allowance() -> (r: Self)
        ensures
            r == B20Error::InsufficientAllowance,
    {
        B20Error::InsufficientAllowance
    }

    /// The caller is unauthorized.
    pub fn unauthorized() -> (r: Self)
        ensures
            r == B20Error::Unauthorized,
    {
        B20Error::Unauthorized
    }

    /// The supply cap is invalid.
    pub fn invalid_supply_cap() -> (r: Self)
        ensures
            r == B20Error::InvalidSupplyCap,
    {
        B20Error::InvalidSupplyCap
    }

    /// The supply cap would be exceeded.
    pub fn supply_cap_exceeded() -> (r: Self)
        ensures
            r == B20Error::SupplyCapExceeded,
    {
        B20Error::SupplyCapExceeded
    }

    /// The payload is invalid.
    pub fn invalid_payload() -> (r: Self)
        ensures
            r == B20Error::InvalidPayload,
    {
        B20Error::InvalidPayload
    }

    /// A string parameter is too long.
    pub fn string_too_long() -> (r: Self)
        ensures
            r == B20Error::StringTooLong,
    {
        B20Error::StringTooLong
    }

    /// The policy forbids the operation.
    pub fn policy_forbids() -> (r: Self)
        ensures
            r == B20Error::PolicyForbids,
    {
        B20Error::PolicyForbids
    }

    /// The recipient is invalid.
    pub fn invalid_recipient() -> (r: Self)
        ensures
            r == B20Error::InvalidRecipient,
    {
        B20Error::InvalidRecipient
    }

    /// The token is paused.
    pub fn contract_paused() -> (r: Self)
        ensures
            r == B20Error::ContractPaused,
    {
        B20Error::ContractPaused
    }

    /// The currency is invalid.
    pub fn invalid_currency() -> (r: Self)
        ensures
            r == B20Error::InvalidCurrency,
    {
        B20Error::InvalidCurrency
    }

    /// Transfers are disabled.
    pub fn transfers_disabled() -> (r: Self)
        ensures
            r == B20Error::TransfersDisabled,
    {
        B20Error::TransfersDisabled
    }

    /// The amount is invalid.
    pub fn invalid_amount() -> (r: Self)
        ensures
            r == B20Error::InvalidAmount,
    {
        B20Error::InvalidAmount
    }

    /// The address is protected.
    pub fn protected_address() -> (r: Self)
        ensures
            r == B20Error::ProtectedAddress,
    {
        B20Error::ProtectedAddress
    }

    /// The address is not a B20 token.
    pub fn invalid_token() -> (r: Self)
        ensures
            r == B20Error::InvalidToken,
    {
        B20Error::InvalidToken
    }

    /// The transfer policy does not exist.
    pub fn invalid_transfer_policy_id() -> (r: Self)
        ensures
            r == B20Error::InvalidTransferPolicyId,
    {
        B20Error::InvalidTransferPolicyId
    }

    /// The token is not initialized.
    pub fn uninitialized() -> (r: Self)
        ensures
            r == B20Error::Uninitialized,
    {
        B20Error::Uninitialized
    }

    /// The permit has expired.
    pub fn permit_expired() -> (r: Self)
        ensures
            r == B20Error::PermitExpired,
    {
        B20Error::PermitExpired
    }

    /// The permit signature is invalid.
    pub fn invalid_signature() -> (r: Self)
        ensures
            r == B20Error::InvalidSignature,
    {
        B20Error::InvalidSignature
    }

    /// No tokens are opted into rewards.
    pub fn no_opted_in_supply() -> (r: Self)
        ensures
            r == B20Error::NoOptedInSupply,
    {
        B20Error::NoOptedInSupply
    }
}

impl RolesAuthError {
    /// The account lacks the role.
    pub fn unauthorized() -> (r: Self)
        ensures
            r == RolesAuthError::Unauthorized,
    {
        RolesAuthError::Unauthorized
    }
}

impl BaseDexError {
    /// Identical tokens.
    pub fn identical_tokens() -> (r: Self)
        ensures
            r == BaseDexError::IdenticalTokens,
    {
        BaseDexError::IdenticalTokens
    }

    /// Invalid token.
    pub fn invalid_token() -> (r: Self)
        ensures
            r == BaseDexError::InvalidToken,
    {
        BaseDexError::InvalidToken
    }

    /// Invalid amount.
    pub fn invalid_amount() -> (r: Self)
        ensures
            r == BaseDexError::InvalidAmount,
    {
        BaseDexError::InvalidAmount
    }

    /// Insufficient liquidity.
    pub fn insufficient_liquidity() -> (r: Self)
        ensures
            r == BaseDexError::InsufficientLiquidity,
    {
        BaseDexError::InsufficientLiquidity
    }

    /// Insufficient output amount.
    pub fn insufficient_output_amount() -> (r: Self)
        ensures
            r == BaseDexError::InsufficientOutputAmount,
    {
        BaseDexError::InsufficientOutputAmount
    }

    /// Invalid swap path.
    pub fn invalid_swap_path() -> (r: Self)
        ensures
            r == BaseDexError::InvalidSwapPath,
    {
        BaseDexError::InvalidSwapPath
    }
}

} // verus!

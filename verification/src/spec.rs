//! Hardfork activation and the calldata gas schedule of the precompiles.

use vstd::prelude::*;

verus! {

/// B precompile activation marker, ordered by activation.
#[derive(Clone, Copy, Debug, PartialEq, Eq, Structural)]
pub enum BaseBSpec {
    /// B precompiles are not active yet.
    PreAzul,
    /// B precompiles are active under the Base Azul hardfork.
    Azul,
    /// The Beryl hardfork (pause and recipient checks on burns and mints).
    Beryl,
}

/// The activation rank of a hardfork.
pub open spec fn spec_rank(s: BaseBSpec) -> nat {
    match s {
        BaseBSpec::PreAzul => 0,
        BaseBSpec::Azul => 1,
        BaseBSpec::Beryl => 2,
    }
}

impl BaseBSpec {
    /// Whether `self` enables the behavior introduced in `other`.
    pub open spec fn spec_enabled_in(self, other: BaseBSpec) -> bool {
        spec_rank(other) <= spec_rank(self)
    }

    /// The activation rank of this hardfork.
    fn rank(self) -> (r: u8)
        ensures
            r == spec_rank(self),
    {
        match self {
            BaseBSpec::PreAzul => 0,
            BaseBSpec::Azul => 1,
            BaseBSpec::Beryl => 2,
        }
    }

    /// Checks if this spec enables behavior introduced in `other`.
    pub fn is_enabled_in(self, other: BaseBSpec) -> (r: bool)
        ensures
            r == self.spec_enabled_in(other),
    {
        other.rank() <= self.rank()
    }
}

impl Default for BaseBSpec {
    fn default() -> (r: Self)
        ensures
            r == BaseBSpec::PreAzul,
    {
        BaseBSpec::PreAzul
    }
}

/// Input per word cost: ABI decoding and copying calldata, priced at twice the copy cost.
pub const INPUT_PER_WORD_COST: u64 = 6;

/// Gas cost of `ecrecover` signature verification.
pub const ECRECOVER_GAS: u64 = 3_000;

/// The gas charged for calldata of `len` bytes: six per started 32-byte word.
pub open spec fn spec_input_cost(len: nat) -> nat {
    ((len + 31) / 32) * 6
}

/// Returns the gas cost for decoding calldata of the given length, rounded up to word boundaries.
pub fn input_cost(calldata_len: usize) -> (r: u64)
    ensures
        r == spec_input_cost(calldata_len as nat),
{
    let words: usize = calldata_len / 32 + if calldata_len % 32 == 0 { 0 } else { 1 };
    assert(words == (calldata_len + 31) / 32);
    // The word count is at most `usize::MAX / 32 + 1`, so the product never saturates.
    assert(words * 6 <= usize::MAX) by (nonlinear_arith)
        requires
            words <= usize::MAX / 32 + 1,
            usize::MAX >= 0xffff_ffff,
    ;
    let cost: usize = words * (INPUT_PER_WORD_COST as usize);
    cost as u64
}

} // verus!

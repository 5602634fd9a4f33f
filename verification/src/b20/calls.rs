//! Recognition of B20 payment calls from raw calldata.

use vstd::prelude::*;

use vstd::string::StringSliceAdditionalSpecFns;

use crate::primitives::{keccak256, keccak256_digest};

verus! {

/// Whether `input` is calldata for the function with canonical signature `signature` whose
/// parameters are `words` static 32-byte words: it begins with the function selector (the
/// first four bytes of the Keccak-256 digest of the signature) and is exactly as long as the
/// ABI encoding of such a call.
pub open spec fn is_call(input: Seq<u8>, signature: Seq<u8>, words: nat) -> bool {
    &&& input.len() == 4 + 32 * words
    &&& input.subrange(0, 4) == keccak256_digest(signature).subrange(0, 4)
}

/// Whether `input` is calldata for one of the B20 payment functions: `transfer`,
/// `transferWithMemo`, `transferFrom`, `transferFromWithMemo`, `approve`, `mint`,
/// `mintWithMemo`, `burn` or `burnWithMemo`.
pub open spec fn spec_is_payment(input: Seq<u8>) -> bool {
    ||| is_call(input, "transfer(address,uint256)".spec_bytes(), 2)
    ||| is_call(input, "transferWithMemo(address,uint256,bytes32)".spec_bytes(), 3)
    ||| is_call(input, "transferFrom(address,address,uint256)".spec_bytes(), 3)
    ||| is_call(input, "transferFromWithMemo(address,address,uint256,bytes32)".spec_bytes(), 4)
    ||| is_call(input, "approve(address,uint256)".spec_bytes(), 2)
    ||| is_call(input, "mint(address,uint256)".spec_bytes(), 2)
    ||| is_call(input, "mintWithMemo(address,uint256,bytes32)".spec_bytes(), 3)
    ||| is_call(input, "burn(uint256)".spec_bytes(), 1)
    ||| is_call(input, "burnWithMemo(uint256,bytes32)".spec_bytes(), 2)
}

/// Whether `input` is calldata for the function `signature` with `words` static arguments.
fn call_matches(input: &[u8], signature: &str, words: usize) -> (r: bool)
    requires
        words <= 8,
    ensures
        r == is_call(input@, signature.spec_bytes(), words as nat),
{
    if input.len() != 4 + 32 * words {
        return false;
    }
    let digest = keccak256(signature.as_bytes());
    let r = input[0] == digest.bytes[0] && input[1] == digest.bytes[1] && input[2]
        == digest.bytes[2] && input[3] == digest.bytes[3];
    proof {
        let head = input@.subrange(0, 4);
        let selector = keccak256_digest(signature.spec_bytes()).subrange(0, 4);
        assert(digest.bytes@ == digest@);
        if r {
            assert(head =~= selector);
        } else {
            assert(head[0] != selector[0] || head[1] != selector[1] || head[2] != selector[2]
                || head[3] != selector[3]);
        }
    }
    r
}

/// The calls of the B20 token interface.
#[derive(Clone, Copy, Debug, Default)]
pub struct IB20Calls;

impl IB20Calls {
    /// Whether `input` is calldata for a B20 payment: `transfer`, `transferWithMemo`,
    /// `transferFrom`, `transferFromWithMemo`, `approve`, `mint`, `mintWithMemo`, `burn` or
    /// `burnWithMemo`.
    ///
    /// Only the selector and the exact ABI-encoded length are checked; the arguments are not
    /// decoded, and whether the target address is a B20 token is for the caller to check.
    pub fn is_payment(input: &[u8]) -> (r: bool)
        ensures
            r == spec_is_payment(input@),
    {
        call_matches(input, "transfer(address,uint256)", 2)
            || call_matches(input, "transferWithMemo(address,uint256,bytes32)", 3)
            || call_matches(input, "transferFrom(address,address,uint256)", 3)
            || call_matches(input, "transferFromWithMemo(address,address,uint256,bytes32)", 4)
            || call_matches(input, "approve(address,uint256)", 2)
            || call_matches(input, "mint(address,uint256)", 2)
            || call_matches(input, "mintWithMemo(address,uint256,bytes32)", 3)
            || call_matches(input, "burn(uint256)", 1)
            || call_matches(input, "burnWithMemo(uint256,bytes32)", 2)
    }
}

} // verus!

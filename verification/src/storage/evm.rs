//! Gas accounting of the precompile storage provider.

use vstd::prelude::*;

use crate::error::BasePrecompileError;

verus! {

/// Deducts `additional_cost` from the remaining gas; fails with `OutOfGas`, leaving it
/// unchanged, when too little remains.
pub fn deduct_gas(gas_remaining: &mut u64, additional_cost: u64) -> (r: Result<(), BasePrecompileError>)
    ensures
        *old(gas_remaining) < additional_cost ==> r == Err::<(), BasePrecompileError>(
            BasePrecompileError::OutOfGas,
        ) && *final(gas_remaining) == *old(gas_remaining),
        *old(gas_remaining) >= additional_cost ==> r is Ok && *final(gas_remaining) == *old(
            gas_remaining) - additional_cost,
{
    let remaining = match gas_remaining.checked_sub(additional_cost) {
        Some(v) => v,
        None => {
            return Err(BasePrecompileError::OutOfGas);
        },
    };
    *gas_remaining = remaining;
    Ok(())
}

} // verus!

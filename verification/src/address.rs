//! Address helpers: the B20 token address prefix.

use vstd::prelude::*;

use crate::primitives::Address;

verus! {

/// The 12-byte prefix of B20 token addresses (`0x8453` followed by zeros).
pub open spec fn spec_b20_prefix() -> Seq<u8> {
    seq![0x84u8, 0x53u8, 0u8, 0u8, 0u8, 0u8, 0u8, 0u8, 0u8, 0u8, 0u8, 0u8]
}

/// Whether address bytes carry the B20 prefix.
pub open spec fn spec_has_b20_prefix(a: Seq<u8>) -> bool {
    a.subrange(0, 12) == spec_b20_prefix()
}

/// An address with the B20 prefix is not the zero address.
pub proof fn lemma_prefixed_nonzero(a: Seq<u8>)
    requires
        spec_has_b20_prefix(a),
    ensures
        a != Seq::new(20, |i: int| 0u8),
{
    assert(a.subrange(0, 12)[0] == 0x84u8);
    if a == Seq::new(20, |i: int| 0u8) {
        assert(a[0] == 0u8);
    }
}

/// The B20 token address prefix.
pub fn b20_prefix_bytes() -> (r: [u8; 12])
    ensures
        r@ == spec_b20_prefix(),
{
    let r: [u8; 12] = [0x84, 0x53, 0, 0, 0, 0, 0, 0, 0, 0, 0, 0];
    assert(r@ =~= spec_b20_prefix());
    r
}

/// Returns `true` when an address has the B20 prefix.
pub fn is_b20_prefix(address: &Address) -> (r: bool)
    ensures
        r == spec_has_b20_prefix(address@),
{
    let prefix = b20_prefix_bytes();
    let mut i: usize = 0;
    while i < 12
        invariant
            i <= 12,
            address@.len() == 20,
            prefix@ == spec_b20_prefix(),
            forall|j: int| 0 <= j < i ==> address@[j] == prefix@[j],
        decreases 12 - i,
    {
        if address.bytes[i] != prefix[i] {
            assert(address@.subrange(0, 12)[i as int] != spec_b20_prefix()[i as int]);
            return false;
        }
        i = i + 1;
    }
    assert(address@.subrange(0, 12) =~= spec_b20_prefix());
    true
}

/// Address extensions of the B precompiles.
pub trait BaseBAddressExt {
    /// Whether the address carries the B20 prefix.
    spec fn spec_is_b20(&self) -> bool;

    /// Returns `true` when an address has the B20 prefix.
    fn is_b20(&self) -> (r: bool)
        ensures
            r == self.spec_is_b20(),
    ;

    /// Returns `true` when an address is a virtual account address.
    fn is_virtual(&self) -> (r: bool)
        ensures
            !r,
    ;
}

impl BaseBAddressExt for Address {
    open spec fn spec_is_b20(&self) -> bool {
        spec_has_b20_prefix(self@)
    }

    fn is_b20(&self) -> (r: bool) {
        is_b20_prefix(self)
    }

    fn is_virtual(&self) -> (r: bool) {
        false
    }
}

/// The bytes of the Base USD token address: the B20 prefix followed by eight zero bytes, the
/// first address of the reserved protocol range.
pub open spec fn spec_base_usd() -> Seq<u8> {
    spec_b20_prefix() + Seq::new(8, |i: int| 0u8)
}

/// The address of the Base path USD B20 token (`0x8453` followed by zeros).
pub fn path_usd_address() -> (r: Address)
    ensures
        r@ == spec_base_usd(),
        spec_has_b20_prefix(r@),
{
    let r = Address::from_bytes([0x84, 0x53, 0, 0, 0, 0, 0, 0, 0, 0, 0, 0, 0, 0, 0, 0, 0, 0, 0, 0]);
    assert(r@ =~= spec_b20_prefix() + Seq::new(8, |i: int| 0u8));
    assert(r@.subrange(0, 12) =~= spec_b20_prefix());
    r
}

} // verus!

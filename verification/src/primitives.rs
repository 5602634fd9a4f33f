//! Fixed-size byte values: 20-byte account addresses and 32-byte hashes.
//!
//! Both are viewed as their byte sequences (big-endian, as they appear on chain).

use vstd::prelude::*;

verus! {

/// A 20-byte account address.
#[derive(Clone, Copy, Debug, PartialEq, Eq, Hash)]
pub struct Address {
    pub bytes: [u8; 20],
}

impl View for Address {
    type V = Seq<u8>;

    open spec fn view(&self) -> Seq<u8> {
        self.bytes@
    }
}

/// Whether two byte arrays of equal length hold the same bytes.
fn bytes_equal<const N: usize>(a: &[u8; N], b: &[u8; N]) -> (r: bool)
    ensures
        r == (a@ == b@),
{
    let mut i: usize = 0;
    while i < N
        invariant
            i <= N,
            a@.len() == N,
            b@.len() == N,
            forall|j: int| 0 <= j < i ==> a@[j] == b@[j],
        decreases N - i,
    {
        if a[i] != b[i] {
            return false;
        }
        i = i + 1;
    }
    assert(a@ =~= b@);
    true
}

impl Address {
    /// The address with the given bytes.
    pub fn from_bytes(bytes: [u8; 20]) -> (r: Address)
        ensures
            r@ == bytes@,
    {
        Address { bytes }
    }

    /// The bytes of this address.
    pub fn to_bytes(&self) -> (r: [u8; 20])
        ensures
            r@ == self@,
    {
        self.bytes
    }

    /// The zero address.
    pub fn zero() -> (r: Address)
        ensures
            r@ == Seq::new(20, |i: int| 0u8),
            r == spec_zero_addr(),
    {
        let r = Address { bytes: [0u8; 20] };
        assert(r@ =~= Seq::new(20, |i: int| 0u8));
        r
    }

    /// The address whose bytes are all zero except the last one, which is `b`.
    pub fn with_last_byte(b: u8) -> (r: Address)
        ensures
            r@ == Seq::new(19, |i: int| 0u8).push(b),
    {
        let mut bytes = [0u8; 20];
        bytes[19] = b;
        let r = Address { bytes };
        assert(r@ =~= Seq::new(19, |i: int| 0u8).push(b));
        r
    }

    /// Whether `self` and `other` are the same address.
    pub fn same(&self, other: &Address) -> (r: bool)
        ensures
            r == (self@ == other@),
    {
        bytes_equal(&self.bytes, &other.bytes)
    }

    /// Whether this is the zero address.
    pub fn is_zero(&self) -> (r: bool)
        ensures
            r == (self@ == zero_address()),
    {
        let z = Address::zero();
        self.same(&z)
    }
}

/// Addresses with the same bytes are equal.
pub proof fn lemma_address_eq(a: Address, b: Address)
    requires
        a@ == b@,
    ensures
        a == b,
{
    broadcast use vstd::array::group_array_axioms;

    assert(a.bytes =~= b.bytes);
}

/// Hashes with the same bytes are equal.
pub proof fn lemma_b256_eq(a: B256, b: B256)
    requires
        a@ == b@,
    ensures
        a == b,
{
    broadcast use vstd::array::group_array_axioms;

    assert(a.bytes =~= b.bytes);
}

/// The zero address, as a specification value.
pub open spec fn spec_zero_addr() -> Address {
    Address { bytes: vstd::array::spec_array_fill_for_copy_type::<u8, 20>(0u8) }
}

/// The bytes of the zero address.
pub open spec fn zero_address() -> Seq<u8> {
    Seq::new(20, |i: int| 0u8)
}

/// A 32-byte hash or role identifier.
#[derive(Clone, Copy, Debug, PartialEq, Eq, Hash)]
pub struct B256 {
    pub bytes: [u8; 32],
}

impl View for B256 {
    type V = Seq<u8>;

    open spec fn view(&self) -> Seq<u8> {
        self.bytes@
    }
}

impl B256 {
    /// The hash with the given bytes.
    pub fn from_bytes(bytes: [u8; 32]) -> (r: B256)
        ensures
            r@ == bytes@,
    {
        B256 { bytes }
    }

    /// The bytes of this hash.
    pub fn to_bytes(&self) -> (r: [u8; 32])
        ensures
            r@ == self@,
    {
        self.bytes
    }

    /// The hash whose 32 bytes all equal `b`, as a specification value.
    pub open spec fn spec_repeat(b: u8) -> B256 {
        B256 { bytes: vstd::array::spec_array_fill_for_copy_type::<u8, 32>(b) }
    }

    /// The all-zero hash.
    pub fn zero() -> (r: B256)
        ensures
            r@ == Seq::new(32, |i: int| 0u8),
            r == B256::spec_repeat(0),
    {
        let r = B256 { bytes: [0u8; 32] };
        assert(r@ =~= Seq::new(32, |i: int| 0u8));
        r
    }

    /// The hash whose 32 bytes all equal `b`.
    pub fn repeat_byte(b: u8) -> (r: B256)
        ensures
            r@ == Seq::new(32, |i: int| b),
            r == B256::spec_repeat(b),
    {
        let r = B256 { bytes: [b; 32] };
        assert(r@ =~= Seq::new(32, |i: int| b));
        r
    }

    /// Whether `self` and `other` hold the same bytes.
    pub fn same(&self, other: &B256) -> (r: bool)
        ensures
            r == (self@ == other@),
    {
        bytes_equal(&self.bytes, &other.bytes)
    }
}

} // verus!

verus! {

/// The Keccak-256 digest of a byte string (as computed by `alloy_primitives::keccak256`).
pub uninterp spec fn keccak256_digest(data: Seq<u8>) -> Seq<u8>;

/// The Keccak-256 digest of `data`.
///
/// Calls `alloy_primitives::keccak256`; the result is the digest named [`keccak256_digest`]
/// of the input bytes.
#[verifier::external_body]
pub(crate) fn keccak256(data: &[u8]) -> (r: B256)
    ensures
        r@ == keccak256_digest(data@),
{
    B256 { bytes: alloy_primitives::keccak256(data).0 }
}

} // verus!

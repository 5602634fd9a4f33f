//! The 256-bit EVM word and its arithmetic.
//!
//! A [`U256`] holds four little-endian 64-bit limbs; its meaning is the natural number
//! [`U256::value`]. All arithmetic is delegated to `alloy_primitives::U256` (ruint).

use vstd::prelude::*;

verus! {

/// `2^64`.
pub open spec fn limb_base() -> nat {
    0x1_0000_0000_0000_0000nat
}

/// `2^128`.
pub open spec fn pow_128() -> nat {
    0x1_0000_0000_0000_0000_0000_0000_0000_0000nat
}

/// `2^256`, one more than the largest word.
pub open spec fn word_modulus() -> nat {
    0x1_0000_0000_0000_0000_0000_0000_0000_0000_0000_0000_0000_0000_0000_0000_0000_0000nat
}

/// An unsigned 256-bit word, stored as little-endian 64-bit limbs.
#[derive(Clone, Copy, Debug, PartialEq, Eq, Structural)]
pub struct U256 {
    l0: u64,
    l1: u64,
    l2: u64,
    l3: u64,
}

/// The number denoted by four little-endian limbs.
pub open spec fn limbs_value(l0: u64, l1: u64, l2: u64, l3: u64) -> nat {
    (l0 + l1 * limb_base() + l2 * limb_base() * limb_base() + l3 * limb_base() * limb_base()
        * limb_base()) as nat
}

impl U256 {
    /// The number this word denotes.
    pub closed spec fn value(self) -> nat {
        limbs_value(self.l0, self.l1, self.l2, self.l3)
    }

    /// The word `0`.
    pub fn zero() -> (r: U256)
        ensures
            r.value() == 0,
    {
        U256 { l0: 0, l1: 0, l2: 0, l3: 0 }
    }

    /// The zero word, as a specification value.
    pub closed spec fn spec_zero_word() -> U256 {
        U256 { l0: 0, l1: 0, l2: 0, l3: 0 }
    }

    /// The zero word.
    pub fn zero_word() -> (r: U256)
        ensures
            r == U256::spec_zero_word(),
            r.value() == 0,
    {
        U256 { l0: 0, l1: 0, l2: 0, l3: 0 }
    }

    /// The zero word denotes `0`.
    pub proof fn lemma_spec_zero_word()
        ensures
            U256::spec_zero_word().value() == 0,
    {
    }

    /// The largest word, `2^256 - 1`.
    pub fn max() -> (r: U256)
        ensures
            r.value() == word_modulus() - 1,
    {
        U256 { l0: u64::MAX, l1: u64::MAX, l2: u64::MAX, l3: u64::MAX }
    }

    /// Whether the word is zero.
    pub fn is_zero(&self) -> (r: bool)
        ensures
            r == (self.value() == 0),
    {
        self.l0 == 0 && self.l1 == 0 && self.l2 == 0 && self.l3 == 0
    }
}

impl U256 {
    /// The word denoting `n`, for `n < 2^256`.
    pub closed spec fn from_value(n: nat) -> U256 {
        let b = limb_base();
        U256 {
            l0: (n % b) as u64,
            l1: ((n / b) % b) as u64,
            l2: ((n / b / b) % b) as u64,
            l3: ((n / b / b / b) % b) as u64,
        }
    }
}

/// A word is determined by the number it denotes: it is the word of its value.
pub proof fn lemma_word_of_value(x: U256)
    ensures
        x == U256::from_value(x.value()),
{
    let b = limb_base() as int;
    let (a0, a1, a2, a3) = (x.l0 as int, x.l1 as int, x.l2 as int, x.l3 as int);
    let v = x.value() as int;
    let q1 = a1 + a2 * b + a3 * b * b;
    let q2 = a2 + a3 * b;
    assert(v == q1 * b + a0) by (nonlinear_arith)
        requires
            v == a0 + a1 * b + a2 * b * b + a3 * b * b * b,
            q1 == a1 + a2 * b + a3 * b * b,
    ;
    assert(q1 == q2 * b + a1) by (nonlinear_arith)
        requires
            q1 == a1 + a2 * b + a3 * b * b,
            q2 == a2 + a3 * b,
    ;
    assert(q2 == a3 * b + a2) by (nonlinear_arith)
        requires
            q2 == a2 + a3 * b,
    ;
    vstd::arithmetic::div_mod::lemma_fundamental_div_mod_converse(v, b, q1, a0);
    vstd::arithmetic::div_mod::lemma_fundamental_div_mod_converse(q1, b, q2, a1);
    vstd::arithmetic::div_mod::lemma_fundamental_div_mod_converse(q2, b, a3, a2);
    vstd::arithmetic::div_mod::lemma_fundamental_div_mod_converse(a3, b, 0, a3);
}

/// The word of a number below `2^256` denotes that number.
pub proof fn lemma_from_value(n: nat)
    requires
        n < word_modulus(),
    ensures
        U256::from_value(n).value() == n,
{
    let b = limb_base() as int;
    let v = n as int;
    let q1 = v / b;
    let q2 = q1 / b;
    let q3 = q2 / b;
    vstd::arithmetic::div_mod::lemma_fundamental_div_mod(v, b);
    vstd::arithmetic::div_mod::lemma_fundamental_div_mod(q1, b);
    vstd::arithmetic::div_mod::lemma_fundamental_div_mod(q2, b);
    vstd::arithmetic::div_mod::lemma_fundamental_div_mod(q3, b);
    vstd::arithmetic::div_mod::lemma_mod_bound(v, b);
    vstd::arithmetic::div_mod::lemma_mod_bound(q1, b);
    vstd::arithmetic::div_mod::lemma_mod_bound(q2, b);
    vstd::arithmetic::div_mod::lemma_mod_bound(q3, b);
    vstd::arithmetic::div_mod::lemma_div_pos_is_pos(v, b);
    vstd::arithmetic::div_mod::lemma_div_pos_is_pos(q1, b);
    vstd::arithmetic::div_mod::lemma_div_pos_is_pos(q2, b);
    assert(q3 < b) by {
        vstd::arithmetic::div_mod::lemma_div_denominator(v, b, b);
        vstd::arithmetic::div_mod::lemma_div_denominator(v, b * b, b);
        assert(v < b * b * b * b) by (nonlinear_arith)
            requires
                v < word_modulus(),
                b == limb_base(),
        ;
        vstd::arithmetic::div_mod::lemma_div_by_multiple_is_strongly_ordered(v, b * b * b * b, b, b * b * b);
        assert(b * b * b * b == b * (b * b * b)) by (nonlinear_arith);
        vstd::arithmetic::div_mod::lemma_div_by_multiple(b, b * b * b);
    }
    vstd::arithmetic::div_mod::lemma_small_mod(q3 as nat, b as nat);
    let (r0, r1, r2) = (v % b, q1 % b, q2 % b);
    assert(v == r0 + r1 * b + r2 * b * b + q3 * b * b * b) by (nonlinear_arith)
        requires
            v == b * q1 + r0,
            q1 == b * q2 + r1,
            q2 == b * q3 + r2,
    ;
}

/// Every word is below `2^256`.
pub proof fn lemma_value_bound(x: U256)
    ensures
        x.value() < word_modulus(),
{
    let b = limb_base();
    let (a0, a1, a2, a3) = (x.l0 as int, x.l1 as int, x.l2 as int, x.l3 as int);
    assert(a0 + a1 * b + a2 * b * b + a3 * b * b * b < b * b * b * b) by (nonlinear_arith)
        requires
            0 <= a0 < b,
            0 <= a1 < b,
            0 <= a2 < b,
            0 <= a3 < b,
            b > 0,
    {
        assert(a1 * b <= (b - 1) * b);
        assert(a2 * b * b <= (b - 1) * b * b);
        assert(a3 * b * b * b <= (b - 1) * b * b * b);
    }
}

/// `a + b`, or `None` when the sum does not fit in a word.
///
/// Calls `Uint::checked_add`, which returns `None` exactly on overflow.
#[verifier::external_body]
pub(crate) fn checked_add(a: U256, b: U256) -> (r: Option<U256>)
    ensures
        r is None <==> a.value() + b.value() >= word_modulus(),
        r matches Some(c) ==> c.value() == a.value() + b.value(),
{
    let x = alloy_primitives::U256::from_limbs([a.l0, a.l1, a.l2, a.l3]);
    let y = alloy_primitives::U256::from_limbs([b.l0, b.l1, b.l2, b.l3]);
    match x.checked_add(y) {
        Some(z) => {
            let l = z.as_limbs();
            Some(U256 { l0: l[0], l1: l[1], l2: l[2], l3: l[3] })
        },
        None => None,
    }
}

/// `a - b`, or `None` when `b > a`.
///
/// Calls `Uint::checked_sub`, which returns `None` exactly on underflow.
#[verifier::external_body]
pub(crate) fn checked_sub(a: U256, b: U256) -> (r: Option<U256>)
    ensures
        r is None <==> a.value() < b.value(),
        r matches Some(c) ==> c.value() == a.value() - b.value(),
{
    let x = alloy_primitives::U256::from_limbs([a.l0, a.l1, a.l2, a.l3]);
    let y = alloy_primitives::U256::from_limbs([b.l0, b.l1, b.l2, b.l3]);
    match x.checked_sub(y) {
        Some(z) => {
            let l = z.as_limbs();
            Some(U256 { l0: l[0], l1: l[1], l2: l[2], l3: l[3] })
        },
        None => None,
    }
}

/// `a * b`, or `None` when the product does not fit in a word.
///
/// Calls `Uint::checked_mul`, which returns `None` exactly on overflow.
#[verifier::external_body]
pub(crate) fn checked_mul(a: U256, b: U256) -> (r: Option<U256>)
    ensures
        r is None <==> a.value() * b.value() >= word_modulus(),
        r matches Some(c) ==> c.value() == a.value() * b.value(),
{
    let x = alloy_primitives::U256::from_limbs([a.l0, a.l1, a.l2, a.l3]);
    let y = alloy_primitives::U256::from_limbs([b.l0, b.l1, b.l2, b.l3]);
    match x.checked_mul(y) {
        Some(z) => {
            let l = z.as_limbs();
            Some(U256 { l0: l[0], l1: l[1], l2: l[2], l3: l[3] })
        },
        None => None,
    }
}

/// `a / b` rounded down, or `None` when `b` is zero.
///
/// Calls `Uint::checked_div`, which returns `None` exactly when the divisor is zero.
#[verifier::external_body]
pub(crate) fn checked_div(a: U256, b: U256) -> (r: Option<U256>)
    ensures
        r is None <==> b.value() == 0,
        r matches Some(c) ==> c.value() == a.value() / b.value(),
{
    let x = alloy_primitives::U256::from_limbs([a.l0, a.l1, a.l2, a.l3]);
    let y = alloy_primitives::U256::from_limbs([b.l0, b.l1, b.l2, b.l3]);
    match x.checked_div(y) {
        Some(z) => {
            let l = z.as_limbs();
            Some(U256 { l0: l[0], l1: l[1], l2: l[2], l3: l[3] })
        },
        None => None,
    }
}

/// `(a + b) mod 2^256`.
///
/// Calls the `+` operator of `Uint`, which wraps around on overflow.
#[verifier::external_body]
pub(crate) fn wrapping_add(a: U256, b: U256) -> (r: U256)
    ensures
        r.value() == (a.value() + b.value()) % word_modulus(),
{
    let x = alloy_primitives::U256::from_limbs([a.l0, a.l1, a.l2, a.l3]);
    let y = alloy_primitives::U256::from_limbs([b.l0, b.l1, b.l2, b.l3]);
    let l = (x + y).into_limbs();
    U256 { l0: l[0], l1: l[1], l2: l[2], l3: l[3] }
}

/// `a / b` rounded down; the divisor must not be zero.
///
/// Calls the `/` operator of `Uint`, which panics on a zero divisor.
#[verifier::external_body]
pub(crate) fn div(a: U256, b: U256) -> (r: U256)
    requires
        b.value() != 0,
    ensures
        r.value() == a.value() / b.value(),
{
    let x = alloy_primitives::U256::from_limbs([a.l0, a.l1, a.l2, a.l3]);
    let y = alloy_primitives::U256::from_limbs([b.l0, b.l1, b.l2, b.l3]);
    let l = (x / y).into_limbs();
    U256 { l0: l[0], l1: l[1], l2: l[2], l3: l[3] }
}

/// `(a - b) mod 2^256`.
///
/// Calls the `-` operator of `Uint`, which wraps around on underflow.
#[verifier::external_body]
pub(crate) fn wrapping_sub(a: U256, b: U256) -> (r: U256)
    ensures
        r.value() == (a.value() + word_modulus() - b.value()) % (word_modulus() as int),
{
    let x = alloy_primitives::U256::from_limbs([a.l0, a.l1, a.l2, a.l3]);
    let y = alloy_primitives::U256::from_limbs([b.l0, b.l1, b.l2, b.l3]);
    let l = (x - y).into_limbs();
    U256 { l0: l[0], l1: l[1], l2: l[2], l3: l[3] }
}

/// `a >> bits`, the word shifted right: `a / 2^bits`.
///
/// Calls the `>>` operator of `Uint` with a `usize` shift, which yields zero for shifts of
/// 256 bits or more.
#[verifier::external_body]
pub(crate) fn shr(a: U256, bits: usize) -> (r: U256)
    ensures
        r.value() == a.value() / vstd::arithmetic::power2::pow2(bits as nat),
{
    let x = alloy_primitives::U256::from_limbs([a.l0, a.l1, a.l2, a.l3]);
    let l = (x >> bits).into_limbs();
    U256 { l0: l[0], l1: l[1], l2: l[2], l3: l[3] }
}

/// `a << bits`, the word shifted left: `a * 2^bits mod 2^256`.
///
/// Calls the `<<` operator of `Uint` with a `usize` shift, which drops the bits shifted past
/// the top (and yields zero for shifts of 256 bits or more).
#[verifier::external_body]
pub(crate) fn shl(a: U256, bits: usize) -> (r: U256)
    ensures
        r.value() == (a.value() * vstd::arithmetic::power2::pow2(bits as nat)) % word_modulus(),
{
    let x = alloy_primitives::U256::from_limbs([a.l0, a.l1, a.l2, a.l3]);
    let l = (x << bits).into_limbs();
    U256 { l0: l[0], l1: l[1], l2: l[2], l3: l[3] }
}

/// `a mod b`; the divisor must not be zero.
///
/// Calls the `%` operator of `Uint`, which panics on a zero divisor.
#[verifier::external_body]
pub(crate) fn rem(a: U256, b: U256) -> (r: U256)
    requires
        b.value() != 0,
    ensures
        r.value() == a.value() % b.value(),
{
    let x = alloy_primitives::U256::from_limbs([a.l0, a.l1, a.l2, a.l3]);
    let y = alloy_primitives::U256::from_limbs([b.l0, b.l1, b.l2, b.l3]);
    let l = (x % y).into_limbs();
    U256 { l0: l[0], l1: l[1], l2: l[2], l3: l[3] }
}

/// The number that the bytes `s` denote in big-endian order.
pub open spec fn spec_be_value(s: Seq<u8>) -> nat
    decreases s.len(),
{
    if s.len() == 0 {
        0
    } else {
        spec_be_value(s.drop_last()) * 256 + s.last() as nat
    }
}

/// The word whose 32 big-endian bytes are `bytes`.
///
/// Calls `Uint::from_be_bytes`, which reads the bytes as a big-endian number.
#[verifier::external_body]
pub(crate) fn from_be_bytes(bytes: [u8; 32]) -> (r: U256)
    ensures
        r.value() == spec_be_value(bytes@),
{
    let l = alloy_primitives::U256::from_be_bytes(bytes).into_limbs();
    U256 { l0: l[0], l1: l[1], l2: l[2], l3: l[3] }
}

/// `2^256` is the word modulus.
pub proof fn lemma_pow2_256()
    ensures
        vstd::arithmetic::power2::pow2(256) == word_modulus(),
{
    vstd::arithmetic::power2::lemma2_to64();
    vstd::arithmetic::power2::lemma_pow2_adds(64, 64);
    vstd::arithmetic::power2::lemma_pow2_adds(128, 128);
    let p64 = vstd::arithmetic::power2::pow2(64);
    let p128 = vstd::arithmetic::power2::pow2(128);
    assert(p64 == limb_base());
    assert(p128 == pow_128()) by {
        assert(limb_base() * limb_base() == pow_128());
    }
    assert(pow_128() * pow_128() == word_modulus()) by (nonlinear_arith);
}

/// The byte of `a` at little-endian position `index`: `a / 256^index mod 256`.
///
/// Calls `Uint::byte`, which panics for an index of 32 or more.
#[verifier::external_body]
pub(crate) fn byte(a: U256, index: usize) -> (r: u8)
    requires
        index < 32,
    ensures
        r == (a.value() / vstd::arithmetic::power::pow(256, index as nat) as nat) % 256,
{
    let x = alloy_primitives::U256::from_limbs([a.l0, a.l1, a.l2, a.l3]);
    x.byte(index)
}

/// Whether `a < b`.
///
/// Calls the `<` operator of `Uint`, the numeric order.
#[verifier::external_body]
pub(crate) fn lt(a: U256, b: U256) -> (r: bool)
    ensures
        r == (a.value() < b.value()),
{
    let x = alloy_primitives::U256::from_limbs([a.l0, a.l1, a.l2, a.l3]);
    let y = alloy_primitives::U256::from_limbs([b.l0, b.l1, b.l2, b.l3]);
    x < y
}

/// Whether `a` and `b` denote the same number.
///
/// Calls the `==` operator of `Uint`.
#[verifier::external_body]
pub(crate) fn eq(a: U256, b: U256) -> (r: bool)
    ensures
        r == (a.value() == b.value()),
{
    let x = alloy_primitives::U256::from_limbs([a.l0, a.l1, a.l2, a.l3]);
    let y = alloy_primitives::U256::from_limbs([b.l0, b.l1, b.l2, b.l3]);
    x == y
}

/// The word denoting `x`.
///
/// Calls `Uint::from(u128)`, a lossless conversion.
#[verifier::external_body]
pub(crate) fn from_u128(x: u128) -> (r: U256)
    ensures
        r.value() == x,
{
    let l = alloy_primitives::U256::from(x).into_limbs();
    U256 { l0: l[0], l1: l[1], l2: l[2], l3: l[3] }
}

/// The `u128` denoting the same number as `x`, if it fits.
///
/// Calls `u128::try_from(Uint)`, which fails exactly when the value exceeds `u128::MAX`.
#[verifier::external_body]
pub(crate) fn to_u128(x: U256) -> (r: Option<u128>)
    ensures
        r is None <==> x.value() >= pow_128(),
        r matches Some(v) ==> v == x.value(),
{
    let y = alloy_primitives::U256::from_limbs([x.l0, x.l1, x.l2, x.l3]);
    match u128::try_from(y) {
        Ok(v) => Some(v),
        Err(_) => None,
    }
}

impl U256 {
    /// The word denoting `x`.
    pub fn from_u64(x: u64) -> (r: U256)
        ensures
            r.value() == x,
    {
        U256 { l0: x, l1: 0, l2: 0, l3: 0 }
    }

    /// The word denoting `x`.
    pub fn from_u128(x: u128) -> (r: U256)
        ensures
            r.value() == x,
    {
        from_u128(x)
    }

    /// The `u128` denoting the same number, if it fits.
    pub fn to_u128(&self) -> (r: Option<u128>)
        ensures
            r is None <==> self.value() >= pow_128(),
            r matches Some(v) ==> v == self.value(),
    {
        to_u128(*self)
    }

    /// The word whose 32 big-endian bytes are `bytes`.
    pub fn from_be_bytes(bytes: [u8; 32]) -> (r: U256)
        ensures
            r.value() == spec_be_value(bytes@),
    {
        from_be_bytes(bytes)
    }

    /// The word `1`.
    pub fn one() -> (r: U256)
        ensures
            r.value() == 1,
    {
        U256 { l0: 1, l1: 0, l2: 0, l3: 0 }
    }
}

/// The 32 big-endian bytes of the number `x` (its ABI `uint256` encoding when `x < 2^256`).
pub open spec fn spec_word_bytes(x: nat) -> Seq<u8> {
    Seq::new(32, |k: int| ((x / vstd::arithmetic::power::pow(256, (31 - k) as nat) as nat) % 256) as u8)
}

impl U256 {
    /// The 32 big-endian bytes of this word.
    pub fn to_be_bytes(&self) -> (r: [u8; 32])
        ensures
            r@ == spec_word_bytes(self.value()),
    {
        let mut out = [0u8; 32];
        let mut k: usize = 0;
        while k < 32
            invariant
                k <= 32,
                out@.len() == 32,
                forall|j: int| 0 <= j < k ==> out@[j] == spec_word_bytes(self.value())[j],
            decreases 32 - k,
        {
            out[k] = byte(*self, 31 - k);
            k = k + 1;
        }
        assert(out@ =~= spec_word_bytes(self.value()));
        out
    }
}

/// The `n` big-endian bytes of `x mod 256^n`.
pub open spec fn spec_be_bytes(x: nat, n: nat) -> Seq<u8> {
    Seq::new(n, |k: int| ((x / vstd::arithmetic::power::pow(256, (n - 1 - k) as nat) as nat) % 256) as u8)
}

/// Dropping the last of the `n` bytes of `x` leaves the `n - 1` bytes of `x / 256`.
proof fn lemma_be_bytes_drop_last(x: nat, n: nat)
    requires
        n > 0,
    ensures
        spec_be_bytes(x, n).drop_last() == spec_be_bytes(x / 256, (n - 1) as nat),
        spec_be_bytes(x, n).last() == x % 256,
{
    let a = spec_be_bytes(x, n).drop_last();
    let b = spec_be_bytes(x / 256, (n - 1) as nat);
    assert forall|k: int| 0 <= k < n - 1 implies a[k] == b[k] by {
        let e = (n - 2 - k) as nat;
        vstd::arithmetic::power::lemma_pow_positive(256, e);
        vstd::arithmetic::power::lemma_pow_adds(256, 1, e);
        vstd::arithmetic::power::lemma_pow1(256);
        vstd::arithmetic::div_mod::lemma_div_denominator(
            x as int,
            256,
            vstd::arithmetic::power::pow(256, e),
        );
        assert((n - 1 - k) as nat == 1 + e);
    }
    assert(a =~= b);
    vstd::arithmetic::power::lemma_pow0(256);
    assert(x as int / 1 == x) by (nonlinear_arith);
}

/// The value of the `n` big-endian bytes of `x` is `x mod 256^n`.
pub proof fn lemma_be_value_of_bytes(x: nat, n: nat)
    ensures
        spec_be_value(spec_be_bytes(x, n)) == x % (vstd::arithmetic::power::pow(256, n) as nat),
    decreases n,
{
    vstd::arithmetic::power::lemma_pow_positive(256, n);
    if n == 0 {
        vstd::arithmetic::power::lemma_pow0(256);
        assert(spec_be_bytes(x, 0) =~= Seq::<u8>::empty());
    } else {
        lemma_be_bytes_drop_last(x, n);
        lemma_be_value_of_bytes(x / 256, (n - 1) as nat);
        let p = vstd::arithmetic::power::pow(256, (n - 1) as nat);
        vstd::arithmetic::power::lemma_pow_positive(256, (n - 1) as nat);
        vstd::arithmetic::power::lemma_pow_adds(256, 1, (n - 1) as nat);
        vstd::arithmetic::power::lemma_pow1(256);
        assert(vstd::arithmetic::power::pow(256, n) == 256 * p);
        vstd::arithmetic::div_mod::lemma_mod_breakdown(x as int, 256, p);
    }
}

/// Bytes are the big-endian bytes of their own value.
pub proof fn lemma_be_bytes_of_value(s: Seq<u8>)
    ensures
        spec_be_bytes(spec_be_value(s), s.len()) == s,
    decreases s.len(),
{
    if s.len() > 0 {
        let x = spec_be_value(s);
        lemma_be_bytes_drop_last(x, s.len());
        lemma_be_bytes_of_value(s.drop_last());
        assert(x / 256 == spec_be_value(s.drop_last()));
        assert(x % 256 == s.last());
        let t = spec_be_bytes(x, s.len());
        assert(t.drop_last() == s.drop_last());
        assert(t =~= s) by {
            assert forall|k: int| 0 <= k < s.len() implies t[k] == s[k] by {
                if k < s.len() - 1 {
                    assert(t.drop_last()[k] == s.drop_last()[k]);
                }
            }
        }
    } else {
        assert(spec_be_bytes(spec_be_value(s), 0) =~= s);
    }
}

/// The 32 bytes of a word are its big-endian bytes.
pub proof fn lemma_word_bytes_are_be_bytes(x: nat)
    ensures
        spec_word_bytes(x) == spec_be_bytes(x, 32),
{
    assert(spec_word_bytes(x) =~= spec_be_bytes(x, 32));
}

/// `256^32` is the word modulus.
pub proof fn lemma_pow256_32()
    ensures
        vstd::arithmetic::power::pow(256, 32) == word_modulus(),
{
    lemma_pow2_256();
    vstd::arithmetic::power2::lemma_pow2(256);
    vstd::arithmetic::power::lemma_pow_multiplies(2, 8, 32);
    vstd::arithmetic::power2::lemma_pow2(8);
    assert(vstd::arithmetic::power::pow(2, 8) == 256) by {
        vstd::arithmetic::power2::lemma2_to64();
    }
}

/// A word's bytes determine it, and bytes are the bytes of their value.
pub proof fn lemma_word_bytes_round_trip(x: nat, s: Seq<u8>)
    requires
        x < word_modulus(),
        s.len() == 32,
    ensures
        spec_be_value(spec_word_bytes(x)) == x,
        spec_word_bytes(spec_be_value(s)) == s,
{
    lemma_word_bytes_are_be_bytes(x);
    lemma_be_value_of_bytes(x, 32);
    lemma_pow256_32();
    vstd::arithmetic::div_mod::lemma_small_mod(x, word_modulus());
    lemma_be_bytes_of_value(s);
    lemma_word_bytes_are_be_bytes(spec_be_value(s));
}

} // verus!

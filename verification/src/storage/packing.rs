//! Packing of array elements into 32-byte storage slots.
//!
//! Elements narrower than a slot are packed from offset 0 of each slot and never span two
//! slots; when the element size does not divide 32, the last bytes of each slot stay unused.

use vstd::arithmetic::div_mod::{
    lemma_div_denominator, lemma_fundamental_div_mod, lemma_mod_bound, lemma_mod_pos_bound,
};
use vstd::arithmetic::power2::{lemma_pow2_adds, lemma_pow2_pos, pow2};
use vstd::prelude::*;

use crate::error::{BasePrecompileError, Result};
use crate::word::{self, lemma_pow2_256, lemma_value_bound, word_modulus, U256};

verus! {

/// Location of a packed field within storage.
#[derive(Clone, Copy, Debug, PartialEq, Eq, Structural)]
pub struct FieldLocation {
    /// Offset in slots from the base slot.
    pub offset_slots: usize,
    /// Offset in bytes within the target slot.
    pub offset_bytes: usize,
    /// Size of the field in bytes.
    pub size: usize,
}

impl FieldLocation {
    /// A field location.
    pub fn new(offset_slots: usize, offset_bytes: usize, size: usize) -> (r: FieldLocation)
        ensures
            r == (FieldLocation { offset_slots, offset_bytes, size }),
    {
        FieldLocation { offset_slots, offset_bytes, size }
    }
}

/// How many elements of `elem_bytes` bytes fit in one slot.
pub open spec fn elems_per_slot(elem_bytes: nat) -> nat {
    32nat / elem_bytes
}

/// At least one and at most 32 elements fit in a slot.
proof fn lemma_elems_per_slot_bounds(elem_bytes: nat)
    requires
        1 <= elem_bytes <= 32,
    ensures
        1 <= elems_per_slot(elem_bytes) <= 32,
        elems_per_slot(elem_bytes) * elem_bytes <= 32,
        elem_bytes >= 2 ==> elems_per_slot(elem_bytes) <= 16,
{
    vstd::arithmetic::div_mod::lemma_div_is_ordered(elem_bytes as int, 32, elem_bytes as int);
    vstd::arithmetic::div_mod::lemma_div_by_self(elem_bytes as int);
    vstd::arithmetic::div_mod::lemma_div_is_ordered_by_denominator(32, 1, elem_bytes as int);
    vstd::arithmetic::div_mod::lemma_fundamental_div_mod(32, elem_bytes as int);
    vstd::arithmetic::div_mod::lemma_mod_bound(32, elem_bytes as int);
    if elem_bytes >= 2 {
        vstd::arithmetic::div_mod::lemma_div_is_ordered_by_denominator(32, 2, elem_bytes as int);
    }
}

/// The slot, relative to the base slot, where element `idx` of `elem_bytes` bytes starts.
pub fn calc_element_slot(idx: usize, elem_bytes: usize) -> (r: usize)
    requires
        1 <= elem_bytes <= 32,
    ensures
        r == (idx as nat) / elems_per_slot(elem_bytes as nat),
{
    proof {
        lemma_elems_per_slot_bounds(elem_bytes as nat);
    }
    let elems_per_slot = 32 / elem_bytes;
    idx / elems_per_slot
}

/// The byte offset, within its slot, of element `idx` of `elem_bytes` bytes.
pub fn calc_element_offset(idx: usize, elem_bytes: usize) -> (r: usize)
    requires
        1 <= elem_bytes <= 32,
    ensures
        r == ((idx as nat) % elems_per_slot(elem_bytes as nat)) * elem_bytes,
        r + elem_bytes <= 32,
{
    proof {
        lemma_elems_per_slot_bounds(elem_bytes as nat);
    }
    let elems_per_slot = 32 / elem_bytes;
    let index_in_slot = idx % elems_per_slot;
    assert(index_in_slot * elem_bytes + elem_bytes <= 32) by (nonlinear_arith)
        requires
            index_in_slot < elems_per_slot,
            elems_per_slot == 32usize / elem_bytes,
            1 <= elem_bytes <= 32,
    {
        assert(index_in_slot + 1 <= elems_per_slot);
        assert((index_in_slot + 1) * elem_bytes <= elems_per_slot * elem_bytes);
        assert(elems_per_slot * elem_bytes <= 32);
    }
    index_in_slot * elem_bytes
}

/// The location of element `idx` of `elem_bytes` bytes.
pub fn calc_element_loc(idx: usize, elem_bytes: usize) -> (r: FieldLocation)
    requires
        1 <= elem_bytes <= 32,
    ensures
        r.offset_slots == (idx as nat) / elems_per_slot(elem_bytes as nat),
        r.offset_bytes == ((idx as nat) % elems_per_slot(elem_bytes as nat)) * elem_bytes,
        r.size == elem_bytes,
        r.offset_bytes + r.size <= 32,
{
    FieldLocation::new(
        calc_element_slot(idx, elem_bytes),
        calc_element_offset(idx, elem_bytes),
        elem_bytes,
    )
}

/// The number of slots that `n` packed elements of `elem_bytes` bytes occupy.
pub fn calc_packed_slot_count(n: usize, elem_bytes: usize) -> (r: usize)
    requires
        1 <= elem_bytes <= 32,
    ensures
        r == ((n + elems_per_slot(elem_bytes as nat) - 1) as nat) / elems_per_slot(elem_bytes as nat),
{
    proof {
        lemma_elems_per_slot_bounds(elem_bytes as nat);
    }
    let elems_per_slot = 32 / elem_bytes;
    let q = n / elems_per_slot;
    proof {
        if elems_per_slot >= 2 {
            vstd::arithmetic::div_mod::lemma_div_is_ordered_by_denominator(n as int, 2, elems_per_slot as int);
        }
    }
    let r = if n % elems_per_slot == 0 {
        q
    } else {
        q + 1
    };
    proof {
        let e = elems_per_slot as int;
        let ni = n as int;
        vstd::arithmetic::div_mod::lemma_fundamental_div_mod(ni, e);
        vstd::arithmetic::div_mod::lemma_mod_bound(ni, e);
        let q0 = ni / e;
        assert((q0 + 1) * e == q0 * e + e) by (nonlinear_arith);
        assert(e * q0 == q0 * e) by (nonlinear_arith);
        vstd::arithmetic::div_mod::lemma_fundamental_div_mod_converse(
            ni + e - 1,
            e,
            if ni % e == 0 { ni / e } else { ni / e + 1 },
            if ni % e == 0 { e - 1 } else { ni % e - 1 },
        );
    }
    r
}

/// Every element lies within the slots counted for an array: element `idx < n` starts in a
/// slot below [`calc_packed_slot_count`]`(n)`.
pub proof fn lemma_element_within_slot_count(idx: nat, n: nat, elem_bytes: nat)
    requires
        1 <= elem_bytes <= 32,
        idx < n,
    ensures
        idx / elems_per_slot(elem_bytes) < ((n + elems_per_slot(elem_bytes) - 1) as nat) / elems_per_slot(
            elem_bytes,
        ),
{
    let e = elems_per_slot(elem_bytes) as int;
    assert(e >= 1) by {
        vstd::arithmetic::div_mod::lemma_div_is_ordered(elem_bytes as int, 32, elem_bytes as int);
        vstd::arithmetic::div_mod::lemma_div_by_self(elem_bytes as int);
    }
    let q = idx as int / e;
    vstd::arithmetic::div_mod::lemma_fundamental_div_mod(idx as int, e);
    vstd::arithmetic::div_mod::lemma_mod_bound(idx as int, e);
    assert((q + 1) * e <= n + e - 1) by (nonlinear_arith)
        requires
            idx == e * q + idx as int % e,
            idx as int % e >= 0,
            idx < n,
            e >= 1,
    ;
    vstd::arithmetic::div_mod::lemma_div_is_ordered((q + 1) * e, n + e - 1, e);
    vstd::arithmetic::div_mod::lemma_div_multiples_vanish(q + 1, e);
}

/// The value of the `bytes`-byte field at byte `offset` of the word `w`, right-aligned.
pub open spec fn spec_extract(w: nat, offset: nat, bytes: nat) -> nat {
    (w / pow2(8 * offset)) % pow2(8 * bytes)
}

/// The word `w` with the `bytes`-byte field at byte `offset` zeroed.
pub open spec fn spec_delete(w: nat, offset: nat, bytes: nat) -> nat {
    (w - spec_extract(w, offset, bytes) * pow2(8 * offset)) as nat
}

/// The word `w` with the `bytes`-byte field at byte `offset` set to the low bytes of `v`.
pub open spec fn spec_insert(w: nat, v: nat, offset: nat, bytes: nat) -> nat {
    spec_delete(w, offset, bytes) + (v % pow2(8 * bytes)) * pow2(8 * offset)
}

/// A word around a field of `k` bits at bit `s`: the bits above, the field, the bits below.
proof fn lemma_field_split(w: nat, s: nat, k: nat)
    ensures
        pow2(s) > 0,
        pow2(k) > 0,
        w % pow2(s) < pow2(s),
        (w / pow2(s)) % pow2(k) < pow2(k),
        w == (w / pow2(s + k)) * pow2(s + k) + ((w / pow2(s)) % pow2(k)) * pow2(s) + w % pow2(
            s,
        ),
{
    let p = pow2(s) as int;
    let q = pow2(k) as int;
    lemma_pow2_pos(s);
    lemma_pow2_pos(k);
    lemma_pow2_adds(s, k);
    lemma_fundamental_div_mod(w as int, p);
    lemma_fundamental_div_mod(w as int / p, q);
    lemma_div_denominator(w as int, p, q);
    lemma_mod_pos_bound(w as int, p);
    lemma_mod_pos_bound(w as int / p, q);
    let hi = w as int / (p * q);
    let f = (w as int / p) % q;
    let lo = w as int % p;
    assert(w == hi * (p * q) + f * p + lo) by (nonlinear_arith)
        requires
            w == p * (w as int / p) + lo,
            w as int / p == q * ((w as int / p) / q) + f,
            (w as int / p) / q == hi,
    ;
}

/// Zeroing a field and writing `v` (below `2^k`) in its place keeps a word below `2^256`.
proof fn lemma_field_bounds(w: nat, v: nat, s: nat, k: nat)
    requires
        w < word_modulus(),
        v < pow2(k),
        s + k <= 256,
    ensures
        ((w / pow2(s)) % pow2(k)) * pow2(s) <= w,
        w - ((w / pow2(s)) % pow2(k)) * pow2(s) + v * pow2(s) < word_modulus(),
{
    lemma_field_split(w, s, k);
    lemma_pow2_256();
    lemma_pow2_adds(s + k, (256 - s - k) as nat);
    lemma_pow2_adds(s, k);
    lemma_pow2_pos((256 - s - k) as nat);
    let p = pow2(s) as int;
    let q = pow2(k) as int;
    let pq = pow2(s + k) as int;
    let top = pow2((256 - s - k) as nat) as int;
    let hi = w as int / pq;
    let f = (w as int / p) % q;
    let lo = w as int % p;
    assert(pq == p * q);
    assert(word_modulus() == pq * top);
    assert(hi * pq + f * p + lo == w);
    assert(0 <= f && 0 <= lo && 0 <= hi);
    assert(hi < top) by (nonlinear_arith)
        requires
            hi * pq <= w,
            w < pq * top,
            pq > 0,
    ;
    assert(f * p >= 0) by (nonlinear_arith)
        requires
            f >= 0,
            p > 0,
    ;
    assert(hi * pq + v * p + lo < pq * top) by (nonlinear_arith)
        requires
            hi < top,
            0 <= v < q,
            0 <= lo < p,
            pq == p * q,
            p > 0,
            hi >= 0,
    {
        assert(v * p <= (q - 1) * p);
        assert((hi + 1) * pq <= top * pq);
    }
}

/// The message of a field of `bytes` bytes at byte `offset` that would cross the end of its
/// slot, naming the largest offset `max_offset` at which it would fit.
#[verifier::external_body]
fn span_message(bytes: usize, offset: usize, max_offset: usize) -> (r: String) {
    format!(
        "Value of {} bytes at offset {} would span slot boundary (max offset: {})",
        bytes,
        offset,
        max_offset
    )
}

/// The fatal error of a field of `bytes` bytes at byte `offset` that would cross the end of
/// its slot. The largest offset it names is `32 - bytes`, wrapping around for a field wider
/// than a slot.
fn span_error(bytes: usize, offset: usize) -> (r: BasePrecompileError)
    ensures
        r is Fatal,
{
    BasePrecompileError::Fatal(span_message(bytes, offset, 32usize.wrapping_sub(bytes)))
}

/// `2^bits` as a word, for `bits < 256`.
fn power_of_two(bits: usize) -> (r: U256)
    requires
        bits < 256,
    ensures
        r.value() == pow2(bits as nat),
{
    let r = word::shl(U256::one(), bits);
    proof {
        lemma_pow2_256();
        vstd::arithmetic::power2::lemma_pow2_strictly_increases(bits as nat, 256);
        lemma_pow2_pos(bits as nat);
        vstd::arithmetic::div_mod::lemma_small_mod(pow2(bits as nat), word_modulus());
    }
    r
}

/// A mask of the low `byte_count` bytes: `2^(8 * byte_count) - 1`, or every bit for 32
/// bytes or more.
pub fn create_element_mask(byte_count: usize) -> (r: U256)
    ensures
        r.value() == if byte_count >= 32 {
            word_modulus() - 1
        } else {
            pow2(8 * byte_count as nat) - 1
        },
{
    if byte_count >= 32 {
        U256::max()
    } else {
        let p = power_of_two(byte_count * 8);
        proof {
            lemma_pow2_pos(8 * byte_count as nat);
            lemma_pow2_256();
            vstd::arithmetic::power2::lemma_pow2_strictly_increases(8 * byte_count as nat, 256);
            let m = word_modulus() as int;
            let x = pow2(8 * byte_count as nat) - 1;
            vstd::arithmetic::div_mod::lemma_mod_add_multiples_vanish(x, m);
            vstd::arithmetic::div_mod::lemma_small_mod(x as nat, m as nat);
            assert(p.value() + word_modulus() - 1 == m + x);
        }
        word::wrapping_sub(p, U256::one())
    }
}

/// The field of `bytes` bytes at byte `offset` of `slot_value`, right-aligned.
///
/// Fails with a fatal error when the field would cross the end of the slot.
pub fn extract_from_word(slot_value: U256, offset: usize, bytes: usize) -> (r: Result<U256>)
    requires
        offset + bytes <= usize::MAX,
    ensures
        offset + bytes > 32 ==> (r matches Err(e) && e is Fatal),
        offset + bytes <= 32 ==> (r matches Ok(v) && v.value() == spec_extract(
            slot_value.value(),
            offset as nat,
            bytes as nat,
        )),
{
    if offset + bytes > 32 {
        return Err(span_error(bytes, offset));
    }
    let shifted = word::shr(slot_value, offset * 8);
    proof {
        lemma_value_bound(slot_value);
        lemma_pow2_pos(8 * offset as nat);
    }
    if bytes == 32 {
        proof {
            lemma_pow2_256();
            assert(pow2(0) == 1) by {
                vstd::arithmetic::power2::lemma2_to64();
            }
            assert(slot_value.value() / 1 == slot_value.value()) by (nonlinear_arith);
            vstd::arithmetic::div_mod::lemma_small_mod(slot_value.value(), word_modulus());
        }
        return Ok(shifted);
    }
    let modulus = power_of_two(bytes * 8);
    proof {
        lemma_pow2_pos(8 * bytes as nat);
    }
    Ok(word::rem(shifted, modulus))
}

/// `current` with the field of `bytes` bytes at byte `offset` zeroed.
///
/// Fails with a fatal error when the field would cross the end of the slot.
pub fn delete_from_word(current: U256, offset: usize, bytes: usize) -> (r: Result<U256>)
    requires
        offset + bytes <= usize::MAX,
    ensures
        offset + bytes > 32 ==> (r matches Err(e) && e is Fatal),
        offset + bytes <= 32 ==> (r matches Ok(v) && v.value() == spec_delete(
            current.value(),
            offset as nat,
            bytes as nat,
        )),
{
    let field = extract_from_word(current, offset, bytes)?;
    proof {
        lemma_value_bound(current);
        lemma_pow2_pos(8 * offset as nat);
        lemma_pow2_pos(8 * bytes as nat);
        lemma_field_bounds(current.value(), 0, 8 * offset as nat, 8 * bytes as nat);
    }
    if offset == 32 {
        proof {
            assert(bytes == 0);
            assert(pow2(0) == 1) by {
                vstd::arithmetic::power2::lemma2_to64();
            }
            assert(field.value() < 1);
        }
        return Ok(current);
    }
    let unit = power_of_two(offset * 8);
    let positioned = match word::checked_mul(field, unit) {
        Some(p) => p,
        None => {
            return Err(BasePrecompileError::under_overflow());
        },
    };
    match word::checked_sub(current, positioned) {
        Some(v) => Ok(v),
        None => Err(BasePrecompileError::under_overflow()),
    }
}

/// `current` with the field of `bytes` bytes at byte `offset` replaced by the low `bytes`
/// bytes of `value`.
///
/// Fails with a fatal error when the field would cross the end of the slot.
pub fn insert_into_word(current: U256, value: U256, offset: usize, bytes: usize) -> (r: Result<
    U256,
>)
    requires
        offset + bytes <= usize::MAX,
    ensures
        offset + bytes > 32 ==> (r matches Err(e) && e is Fatal),
        offset + bytes <= 32 ==> (r matches Ok(v) && v.value() == spec_insert(
            current.value(),
            value.value(),
            offset as nat,
            bytes as nat,
        )),
{
    let cleared = delete_from_word(current, offset, bytes)?;
    let field = extract_from_word(value, 0, bytes)?;
    proof {
        lemma_value_bound(current);
        lemma_value_bound(value);
        assert(pow2(0) == 1) by {
            vstd::arithmetic::power2::lemma2_to64();
        }
        assert(value.value() / 1 == value.value()) by (nonlinear_arith);
        lemma_pow2_pos(8 * bytes as nat);
        lemma_mod_pos_bound(value.value() as int, pow2(8 * bytes as nat) as int);
        lemma_field_bounds(current.value(), field.value(), 8 * offset as nat, 8 * bytes as nat);
    }
    if offset == 32 {
        proof {
            assert(bytes == 0);
            assert(value.value() % 1 == 0) by (nonlinear_arith);
            assert(8 * bytes as nat == 0);
            assert(value.value() % pow2(8 * bytes as nat) == 0);
            let a = value.value() % pow2(8 * bytes as nat);
            let b = pow2(8 * offset as nat);
            assert(a * b == 0) by (nonlinear_arith)
                requires
                    a == 0,
            ;
        }
        return Ok(cleared);
    }
    let unit = power_of_two(offset * 8);
    let positioned = match word::checked_mul(field, unit) {
        Some(p) => p,
        None => {
            return Err(BasePrecompileError::under_overflow());
        },
    };
    match word::checked_add(cleared, positioned) {
        Some(v) => Ok(v),
        None => Err(BasePrecompileError::under_overflow()),
    }
}

/// Reading a field back after writing it gives the low `bytes` bytes of what was written.
pub proof fn lemma_extract_after_insert(w: nat, v: nat, offset: nat, bytes: nat)
    requires
        w < word_modulus(),
        offset + bytes <= 32,
    ensures
        spec_extract(spec_insert(w, v, offset, bytes), offset, bytes) == v % pow2(8 * bytes),
{
    let s = 8 * offset;
    let k = 8 * bytes;
    lemma_field_split(w, s, k);
    lemma_pow2_adds(s, k);
    let p = pow2(s) as int;
    let q = pow2(k) as int;
    let hi = w as int / pow2(s + k) as int;
    let f = (w as int / p) % q;
    let lo = w as int % p;
    let nv = (v % pow2(k)) as int;
    lemma_mod_pos_bound(v as int, q);
    let r = spec_insert(w, v, offset, bytes) as int;
    lemma_pow2_pos(s + k);
    vstd::arithmetic::div_mod::lemma_div_pos_is_pos(w as int, pow2(s + k) as int);
    lemma_mod_pos_bound(w as int, p);
    assert(f * p <= w) by (nonlinear_arith)
        requires
            w == hi * (p * q) + f * p + lo,
            hi >= 0,
            lo >= 0,
            p > 0,
            q > 0,
    ;
    assert(r == hi * (p * q) + nv * p + lo);
    assert(r == (hi * q + nv) * p + lo) by (nonlinear_arith)
        requires
            r == hi * (p * q) + nv * p + lo,
    ;
    vstd::arithmetic::div_mod::lemma_fundamental_div_mod_converse(r, p, hi * q + nv, lo);
    vstd::arithmetic::div_mod::lemma_fundamental_div_mod_converse(hi * q + nv, q, hi, nv);
}

/// Writing a field that lies within a slot keeps a word below `2^256`.
pub proof fn lemma_insert_bound(w: nat, v: nat, offset: nat, bytes: nat)
    requires
        w < word_modulus(),
        offset + bytes <= 32,
    ensures
        spec_insert(w, v, offset, bytes) < word_modulus(),
{
    lemma_pow2_pos(8 * bytes);
    lemma_mod_pos_bound(v as int, pow2(8 * bytes) as int);
    lemma_field_bounds(w, v % pow2(8 * bytes), 8 * offset, 8 * bytes);
}

/// Deleting a field is writing zero into it.
pub proof fn lemma_delete_is_insert_zero(w: nat, offset: nat, bytes: nat)
    ensures
        spec_delete(w, offset, bytes) == spec_insert(w, 0, offset, bytes),
{
    lemma_pow2_pos(8 * bytes);
    vstd::arithmetic::div_mod::lemma_small_mod(0, pow2(8 * bytes));
    assert(0nat * pow2(8 * offset) == 0);
}

/// A field of `k` bits at bit `s` depends only on the bits of `x` below bit `t`, when it lies
/// below them.
proof fn lemma_field_below(x: nat, y: nat, s: nat, k: nat, t: nat)
    requires
        s + k <= t,
        x % pow2(t) == y % pow2(t),
    ensures
        (x / pow2(s)) % pow2(k) == (y / pow2(s)) % pow2(k),
{
    lemma_pow2_pos(s);
    lemma_pow2_pos(k);
    lemma_pow2_pos(t);
    lemma_pow2_pos((t - s - k) as nat);
    lemma_pow2_adds(s, k);
    lemma_pow2_adds(s + k, (t - s - k) as nat);
    let a = pow2(s) as int;
    let b = pow2(k) as int;
    let c = pow2((t - s - k) as nat) as int;
    let m = pow2(t) as int;
    assert(m == a * b * c) by (nonlinear_arith)
        requires
            m == pow2(s + k) * c,
            pow2(s + k) == a * b,
    ;
    assert forall|z: nat| #[trigger] ((z / pow2(s)) % pow2(k)) == ((z % pow2(t)) / pow2(s)) % pow2(k) by {
        let q = z as int / m;
        let r = z as int % m;
        lemma_fundamental_div_mod(z as int, m);
        lemma_mod_pos_bound(z as int, m);
        let q2 = r / a;
        let rr = r % a;
        lemma_fundamental_div_mod(r, a);
        lemma_mod_pos_bound(r, a);
        vstd::arithmetic::div_mod::lemma_div_pos_is_pos(z as int, m);
        vstd::arithmetic::div_mod::lemma_div_pos_is_pos(r, a);
        assert(z == a * (b * c * q + q2) + rr) by (nonlinear_arith)
            requires
                z == m * q + r,
                r == a * q2 + rr,
                m == a * b * c,
        ;
        vstd::arithmetic::div_mod::lemma_fundamental_div_mod_converse(z as int, a, b * c * q + q2, rr);
        let u = q2 % b;
        lemma_fundamental_div_mod(q2, b);
        lemma_mod_pos_bound(q2, b);
        assert(b * c * q + q2 == b * (c * q + q2 / b) + u) by (nonlinear_arith)
            requires
                q2 == b * (q2 / b) + u,
        ;
        vstd::arithmetic::div_mod::lemma_fundamental_div_mod_converse(
            b * c * q + q2,
            b,
            c * q + q2 / b,
            u,
        );
    }
    assert(((x / pow2(s)) % pow2(k)) == ((x % pow2(t)) / pow2(s)) % pow2(k));
    assert(((y / pow2(s)) % pow2(k)) == ((y % pow2(t)) / pow2(s)) % pow2(k));
}

/// Writing a field leaves every field that does not overlap it as it was.
pub proof fn lemma_insert_keeps_other_fields(
    w: nat,
    v: nat,
    offset: nat,
    bytes: nat,
    other_offset: nat,
    other_bytes: nat,
)
    requires
        w < word_modulus(),
        offset + bytes <= 32,
        other_offset + other_bytes <= offset || offset + bytes <= other_offset,
    ensures
        spec_extract(spec_insert(w, v, offset, bytes), other_offset, other_bytes) == spec_extract(
            w,
            other_offset,
            other_bytes,
        ),
{
    let s = 8 * offset;
    let k = 8 * bytes;
    lemma_field_split(w, s, k);
    lemma_pow2_adds(s, k);
    lemma_pow2_pos(s + k);
    let p = pow2(s) as int;
    let q = pow2(k) as int;
    let pq = pow2(s + k) as int;
    let hi = w as int / pq;
    let f = (w as int / p) % q;
    let lo = w as int % p;
    let nv = (v % pow2(k)) as int;
    lemma_mod_pos_bound(v as int, q);
    vstd::arithmetic::div_mod::lemma_div_pos_is_pos(w as int, pq);
    lemma_mod_pos_bound(w as int, p);
    let r = spec_insert(w, v, offset, bytes) as int;
    assert(f * p <= w) by (nonlinear_arith)
        requires
            w == hi * (p * q) + f * p + lo,
            hi >= 0,
            lo >= 0,
            p > 0,
            q > 0,
    ;
    assert(r == hi * (p * q) + nv * p + lo);
    if other_offset + other_bytes <= offset {
        assert(r == p * (hi * q + nv) + lo) by (nonlinear_arith)
            requires
                r == hi * (p * q) + nv * p + lo,
        ;
        assert(w == p * (hi * q + f) + lo) by (nonlinear_arith)
            requires
                w == hi * (p * q) + f * p + lo,
        ;
        vstd::arithmetic::div_mod::lemma_fundamental_div_mod_converse(r, p, hi * q + nv, lo);
        vstd::arithmetic::div_mod::lemma_fundamental_div_mod_converse(w as int, p, hi * q + f, lo);
        lemma_field_below(r as nat, w, 8 * other_offset, 8 * other_bytes, s);
    } else {
        let gap = (8 * other_offset - s - k) as nat;
        assert(nv * p + lo < pq) by (nonlinear_arith)
            requires
                0 <= nv < q,
                0 <= lo < p,
                pq == p * q,
        {
            assert(nv * p <= (q - 1) * p);
        }
        assert(f * p + lo < pq) by (nonlinear_arith)
            requires
                0 <= f < q,
                0 <= lo < p,
                pq == p * q,
        {
            assert(f * p <= (q - 1) * p);
        }
        assert(pq == p * q);
        vstd::arithmetic::div_mod::lemma_fundamental_div_mod_converse(r, pq, hi, nv * p + lo);
        vstd::arithmetic::div_mod::lemma_fundamental_div_mod_converse(w as int, pq, hi, f * p + lo);
        lemma_pow2_adds(s + k, gap);
        lemma_pow2_pos(gap);
        assert(8 * other_offset == s + k + gap);
        lemma_div_denominator(r, pq, pow2(gap) as int);
        lemma_div_denominator(w as int, pq, pow2(gap) as int);
    }
}

} // verus!

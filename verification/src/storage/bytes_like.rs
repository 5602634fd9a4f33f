//! Layout of byte strings (`bytes`, `string`) in storage, as in Solidity.
//!
//! A short value (at most 31 bytes) lives in its base slot: the data left-aligned and the
//! lowest byte holding `length * 2`. A long value stores `length * 2 + 1` in the base slot,
//! its data in 32-byte chunks from `keccak256(base_slot)` on. The lowest bit of the base
//! slot tells the two apart.

use vstd::prelude::*;

use crate::error::{overflow, BasePrecompileError, Result};
use crate::primitives::{keccak256, keccak256_digest};
use crate::storage::slots::SlotStorage;
use crate::word::{
    self, lemma_value_bound, lemma_word_bytes_round_trip, spec_be_value, spec_word_bytes,
    word_modulus, U256,
};

verus! {

/// Whether a base slot value holds the length of a long value (its lowest bit is set).
pub fn is_long_string(slot_value: U256) -> (r: bool)
    ensures
        r == (slot_value.value() % 2 == 1),
{
    let low = word::byte(slot_value, 0);
    proof {
        assert(vstd::arithmetic::power::pow(256, 0) == 1) by {
            vstd::arithmetic::power::lemma_pow0(256);
        }
        let v = slot_value.value() as int;
        assert(v / 1 == v) by (nonlinear_arith);
        assert(low as int == v % 256);
        vstd::arithmetic::div_mod::lemma_mod_mod(v, 2, 128);
        assert((low & 1) == low % 2) by (bit_vector);
    }
    (low & 1) != 0
}

/// The message of a corrupted short-value length.
#[verifier::external_body]
fn short_length_message(length: usize) -> (r: String) {
    format!("short string length {length} exceeds maximum of 31 bytes")
}

/// The byte length stored in a base slot value.
///
/// For a long value it is `(value - 1) / 2`, which must fit in `usize` (else an overflow
/// panic); for a short one it is the lowest byte halved, which must be at most 31 (else a
/// fatal error, since only tampered state can hold more).
pub fn calc_string_length(slot_value: U256, is_long: bool) -> (r: Result<usize>)
    ensures
        is_long ==> ({
            let len = ((slot_value.value() + word_modulus() - 1) % word_modulus() as int) / 2;
            &&& len > usize::MAX ==> r == Err::<usize, BasePrecompileError>(overflow())
            &&& len <= usize::MAX ==> r == Ok::<usize, BasePrecompileError>(len as usize)
        }),
        !is_long ==> ({
            let len = (slot_value.value() % 256) / 2;
            &&& len > 31 ==> (r matches Err(e) && e is Fatal)
            &&& len <= 31 ==> r == Ok::<usize, BasePrecompileError>(len as usize)
        }),
{
    if is_long {
        let length_times_two = word::wrapping_sub(slot_value, U256::one());
        let length = word::shr(length_times_two, 1);
        proof {
            vstd::arithmetic::power2::lemma2_to64();
        }
        if word::lt(U256::from_u64(usize::MAX as u64), length) {
            return Err(BasePrecompileError::under_overflow());
        }
        match length.to_u128() {
            Some(v) => Ok(v as usize),
            None => Err(BasePrecompileError::under_overflow()),
        }
    } else {
        let low = word::byte(slot_value, 0);
        proof {
            vstd::arithmetic::power::lemma_pow0(256);
            let v = slot_value.value() as int;
            assert(v / 1 == v) by (nonlinear_arith);
        }
        let length = (low / 2) as usize;
        if length > 31 {
            return Err(BasePrecompileError::Fatal(short_length_message(length)));
        }
        Ok(length)
    }
}

/// The number of 32-byte chunks that hold `byte_length` bytes.
pub fn calc_chunks(byte_length: usize) -> (r: usize)
    ensures
        r == (byte_length + 31) / 32,
{
    let q = byte_length / 32;
    if byte_length % 32 == 0 {
        q
    } else {
        q + 1
    }
}

/// The base slot value of a long value of `byte_length` bytes: `byte_length * 2 + 1`.
pub fn encode_long_string_length(byte_length: usize) -> (r: U256)
    requires
        byte_length * 2 + 1 <= usize::MAX,
    ensures
        r.value() == byte_length * 2 + 1,
{
    U256::from_u64((byte_length * 2 + 1) as u64)
}

/// A long value's length round-trips through its base slot: the slot value is odd, so it
/// reads as long, and [`calc_string_length`] gives back the length.
pub proof fn lemma_long_length_round_trip(byte_length: nat)
    requires
        byte_length <= usize::MAX,
    ensures
        (byte_length * 2 + 1) % 2 == 1,
        ((byte_length * 2 + 1 + word_modulus() - 1) % word_modulus() as int) / 2 == byte_length,
{
    vstd::arithmetic::div_mod::lemma_small_mod((byte_length * 2) as nat, word_modulus());
}

/// The first data slot of a long value whose base slot is `base`: the Keccak-256 digest of the
/// base slot number, read as a number.
pub open spec fn spec_data_slot(base: nat) -> nat {
    spec_be_value(keccak256_digest(spec_word_bytes(base)))
}

/// The slot of chunk `i` of a long value whose base slot is `base`.
pub open spec fn spec_chunk_slot(base: nat, i: nat) -> nat {
    (spec_data_slot(base) + i) % word_modulus()
}

/// Chunk `i` of `bytes` as stored: its 32 bytes, padded with zeros past the end.
pub open spec fn spec_chunk(bytes: Seq<u8>, i: nat) -> Seq<u8> {
    Seq::new(32, |k: int| if 32 * i + k < bytes.len() { bytes[32 * i + k] } else { 0u8 })
}

/// The base slot bytes of a short value: the data left-aligned, then zeros, and the lowest
/// byte `length * 2`.
pub open spec fn spec_short_word(bytes: Seq<u8>) -> Seq<u8> {
    Seq::new(
        32,
        |k: int|
            if k < bytes.len() {
                bytes[k]
            } else if k == 31 {
                (2 * bytes.len()) as u8
            } else {
                0u8
            },
    )
}

/// The number of chunks of a long value of `len` bytes.
pub open spec fn spec_chunks(len: nat) -> nat {
    (len + 31) / 32
}

/// Whether `new` is `old` after storing `bytes` as the value with base slot `base`.
///
/// A short value rewrites the base slot only. A long value writes its length into the base
/// slot, then its chunks; every other slot keeps its word.
pub open spec fn spec_stored(old: &SlotStorage, new: &SlotStorage, base: nat, bytes: Seq<u8>) -> bool {
    if bytes.len() <= 31 {
        &&& new.word_at(base) == spec_be_value(spec_short_word(bytes))
        &&& forall|s: nat|
            #![trigger new.word_at(s)]
            s < word_modulus() && s != base ==> new.word_at(s) == old.word_at(s)
    } else {
        let n = spec_chunks(bytes.len());
        &&& forall|j: nat|
            #![trigger spec_chunk_slot(base, j)]
            j < n ==> new.word_at(spec_chunk_slot(base, j)) == spec_be_value(spec_chunk(bytes, j))
        &&& (forall|j: nat| #![trigger spec_chunk_slot(base, j)] j < n ==> spec_chunk_slot(base, j) != base)
            ==> new.word_at(base) == 2 * bytes.len() + 1
        &&& forall|s: nat|
            #![trigger new.word_at(s)]
            s < word_modulus() && s != base && (forall|j: nat|
                #![trigger spec_chunk_slot(base, j)]
                j < n ==> spec_chunk_slot(base, j) != s) ==> new.word_at(s) == old.word_at(s)
    }
}

/// The value with base slot `base` in `st`, or `None` when its length is corrupt (a long
/// length beyond `usize::MAX`, a short one beyond 31).
pub open spec fn spec_loaded(st: &SlotStorage, base: nat) -> Option<Seq<u8>> {
    let v = st.word_at(base);
    if v % 2 == 1 {
        let len = ((v + word_modulus() - 1) % word_modulus() as int) / 2;
        if len > usize::MAX {
            None
        } else {
            Some(
                Seq::new(
                    len as nat,
                    |k: int| spec_word_bytes(st.word_at(spec_chunk_slot(base, (k / 32) as nat)))[k % 32],
                ),
            )
        }
    } else {
        let len = (v % 256) / 2;
        if len > 31 {
            None
        } else {
            Some(spec_word_bytes(v).subrange(0, len as int))
        }
    }
}

/// Whether `new` is `old` after deleting the value with base slot `base`: the base slot and,
/// for a long value, its chunk slots are zero; every other slot keeps its word.
pub open spec fn spec_deleted(old: &SlotStorage, new: &SlotStorage, base: nat) -> bool {
    let v = old.word_at(base);
    let n = if v % 2 == 1 {
        spec_chunks((((v + word_modulus() - 1) % word_modulus() as int) / 2) as nat)
    } else {
        0
    };
    &&& new.word_at(base) == 0
    &&& forall|j: nat| #![trigger spec_chunk_slot(base, j)] j < n ==> new.word_at(spec_chunk_slot(base, j)) == 0
    &&& forall|s: nat|
        #![trigger new.word_at(s)]
        s < word_modulus() && s != base && (forall|j: nat|
            #![trigger spec_chunk_slot(base, j)]
            j < n ==> spec_chunk_slot(base, j) != s) ==> new.word_at(s) == old.word_at(s)
}

/// Distinct chunk indexes below `2^256` have distinct slots.
proof fn lemma_chunk_slots_distinct(base: nat, i: nat, j: nat)
    requires
        i < j < word_modulus(),
    ensures
        spec_chunk_slot(base, i) != spec_chunk_slot(base, j),
{
    let m = word_modulus() as int;
    let d = spec_data_slot(base) as int;
    vstd::arithmetic::div_mod::lemma_fundamental_div_mod(d + i, m);
    vstd::arithmetic::div_mod::lemma_fundamental_div_mod(d + j, m);
    let qi = (d + i) / m;
    let qj = (d + j) / m;
    if spec_chunk_slot(base, i) == spec_chunk_slot(base, j) {
        assert(j - i == m * (qj - qi)) by (nonlinear_arith)
            requires
                d + i == m * qi + (d + i) % m,
                d + j == m * qj + (d + j) % m,
                (d + i) % m == (d + j) % m,
        ;
        assert(false) by (nonlinear_arith)
            requires
                j - i == m * (qj - qi),
                0 < j - i < m,
                m > 0,
        ;
    }
}

/// The first data slot of the long value with base slot `base`.
pub(crate) fn calc_data_slot(base: U256) -> (r: U256)
    ensures
        r.value() == spec_data_slot(base.value()),
{
    let digest = keccak256(&base.to_be_bytes());
    assert(digest.bytes@ == digest@);
    word::from_be_bytes(digest.bytes)
}

/// The slot of chunk `i` of the long value whose data starts at `start`.
fn chunk_slot(start: U256, i: usize, Ghost(base): Ghost<nat>) -> (r: U256)
    requires
        start.value() == spec_data_slot(base),
    ensures
        r.value() == spec_chunk_slot(base, i as nat),
{
    let r = word::wrapping_add(start, U256::from_u64(i as u64));
    r
}

/// The base slot word of the short value `bytes`.
fn encode_short_string(bytes: &[u8]) -> (r: U256)
    requires
        bytes@.len() <= 31,
    ensures
        r.value() == spec_be_value(spec_short_word(bytes@)),
{
    let mut w = [0u8; 32];
    let mut k: usize = 0;
    while k < bytes.len()
        invariant
            k <= bytes@.len() <= 31,
            w@.len() == 32,
            forall|j: int| 0 <= j < k ==> w@[j] == bytes@[j],
            forall|j: int| k <= j < 32 ==> w@[j] == 0,
        decreases bytes@.len() - k,
    {
        w[k] = bytes[k];
        k = k + 1;
    }
    w[31] = (bytes.len() * 2) as u8;
    assert(w@ =~= spec_short_word(bytes@));
    word::from_be_bytes(w)
}

/// Chunk `i` of `bytes`, padded with zeros.
fn chunk_of(bytes: &[u8], i: usize) -> (r: [u8; 32])
    requires
        32 * i < bytes@.len(),
    ensures
        r@ == spec_chunk(bytes@, i as nat),
{
    let mut w = [0u8; 32];
    let len = bytes.len();
    assert(32 * i < len);
    let start = 32 * i;
    let mut k: usize = 0;
    while k < 32
        invariant
            k <= 32,
            start == 32 * i,
            start < bytes@.len(),
            w@.len() == 32,
            forall|j: int| 0 <= j < k ==> w@[j] == spec_chunk(bytes@, i as nat)[j],
        decreases 32 - k,
    {
        if k < bytes.len() - start {
            w[k] = bytes[start + k];
        } else {
            w[k] = 0;
        }
        k = k + 1;
    }
    assert(w@ =~= spec_chunk(bytes@, i as nat));
    w
}

/// Stores `bytes` as the value with base slot `base`.
pub fn store_bytes_like(bytes: &[u8], storage: &mut SlotStorage, base: U256) -> (r: Result<()>)
    requires
        bytes@.len() * 2 + 1 <= usize::MAX,
    ensures
        r is Ok,
        spec_stored(old(storage), final(storage), base.value(), bytes@),
{
    let length = bytes.len();
    if length <= 31 {
        storage.store(base, encode_short_string(bytes));
        return Ok(());
    }
    let ghost b = base.value();
    let ghost n = spec_chunks(length as nat);
    storage.store(base, encode_long_string_length(length));
    let ghost pre = *storage;
    let start = calc_data_slot(base);
    let chunks = calc_chunks(length);
    proof {
        lemma_value_bound(base);
    }
    let mut i: usize = 0;
    while i < chunks
        invariant
            i <= chunks,
            chunks == n,
            n == spec_chunks(bytes@.len()),
            length == bytes@.len() > 31,
            length * 2 + 1 <= usize::MAX,
            b == base.value(),
            b < word_modulus(),
            start.value() == spec_data_slot(b),
            forall|j: nat|
                #![trigger spec_chunk_slot(b, j)]
                j < i ==> storage.word_at(spec_chunk_slot(b, j)) == spec_be_value(
                    spec_chunk(bytes@, j),
                ),
            (forall|j: nat| #![trigger spec_chunk_slot(b, j)] j < i ==> spec_chunk_slot(b, j) != b)
                ==> storage.word_at(b) == 2 * length + 1,
            forall|s: nat|
                #![trigger storage.word_at(s)]
                s < word_modulus() && (forall|j: nat|
                    #![trigger spec_chunk_slot(b, j)]
                    j < i ==> spec_chunk_slot(b, j) != s) ==> storage.word_at(s) == pre.word_at(
                    s,
                ),
            pre.word_at(b) == 2 * length + 1,
            forall|s: nat|
                #![trigger pre.word_at(s)]
                s < word_modulus() && s != b ==> pre.word_at(s) == old(storage).word_at(s),
        decreases chunks - i,
    {
        let slot = chunk_slot(start, i, Ghost(b));
        let chunk = chunk_of(bytes, i);
        let ghost before = *storage;
        storage.store(slot, word::from_be_bytes(chunk));
        proof {
            lemma_value_bound(slot);
            assert forall|j: nat| #![trigger spec_chunk_slot(b, j)] j < i + 1 implies storage.word_at(
                spec_chunk_slot(b, j),
            ) == spec_be_value(spec_chunk(bytes@, j)) by {
                if j < i {
                    lemma_chunk_slots_distinct(b, j, i as nat);
                    vstd::arithmetic::div_mod::lemma_mod_bound(
                        (spec_data_slot(b) + j) as int,
                        word_modulus() as int,
                    );
                }
            }
            assert forall|s: nat|
                #![trigger storage.word_at(s)]
                s < word_modulus() && (forall|j: nat|
                    #![trigger spec_chunk_slot(b, j)]
                    j < i + 1 ==> spec_chunk_slot(b, j) != s) implies storage.word_at(s)
                == pre.word_at(s) by {
                assert(spec_chunk_slot(b, i as nat) != s);
                assert forall|j: nat| #![trigger spec_chunk_slot(b, j)] j < i implies spec_chunk_slot(
                    b,
                    j,
                ) != s by {
                    assert(j < i + 1);
                }
            }
            if forall|j: nat| #![trigger spec_chunk_slot(b, j)] j < i + 1 ==> spec_chunk_slot(b, j) != b {
                assert(spec_chunk_slot(b, i as nat) != b);
                assert forall|j: nat| #![trigger spec_chunk_slot(b, j)] j < i implies spec_chunk_slot(
                    b,
                    j,
                ) != b by {
                    assert(j < i + 1);
                }
            }
        }
        i = i + 1;
    }
    proof {
        assert forall|s: nat|
            #![trigger storage.word_at(s)]
            s < word_modulus() && s != b && (forall|j: nat|
                #![trigger spec_chunk_slot(b, j)]
                j < n ==> spec_chunk_slot(b, j) != s) implies storage.word_at(s) == old(
            storage,
        ).word_at(s) by {
            assert(pre.word_at(s) == old(storage).word_at(s));
        }
    }
    Ok(())
}

/// The bytes of chunk `i` of a long value whose base slot is `base`, as `st` holds them.
pub open spec fn spec_loaded_byte(st: &SlotStorage, base: nat, k: int) -> u8 {
    spec_word_bytes(st.word_at(spec_chunk_slot(base, (k / 32) as nat)))[k % 32]
}

/// Index `32 * i + k` of the data lies in chunk `i` at position `k`.
proof fn lemma_chunk_position(i: int, k: int)
    requires
        0 <= i,
        0 <= k < 32,
    ensures
        (32 * i + k) / 32 == i,
        (32 * i + k) % 32 == k,
{
    vstd::arithmetic::div_mod::lemma_fundamental_div_mod_converse(32 * i + k, 32, i, k);
}

/// Reads the value with base slot `base`.
///
/// Fails with an overflow panic when a long length exceeds `usize::MAX`, and with a fatal error
/// when a short length exceeds 31 (which only tampered state can hold).
pub fn load_bytes_like(storage: &SlotStorage, base: U256) -> (r: Result<Vec<u8>>)
    ensures
        spec_loaded(storage, base.value()) matches Some(d) ==> (r matches Ok(v) && v@ == d),
        spec_loaded(storage, base.value()) is None && storage.word_at(base.value()) % 2 == 1 ==> r
            == Err::<Vec<u8>, BasePrecompileError>(overflow()),
        spec_loaded(storage, base.value()) is None && storage.word_at(base.value()) % 2 == 0 ==> (
        r matches Err(e) && e is Fatal),
{
    let base_value = storage.load(base);
    let is_long = is_long_string(base_value);
    let length = calc_string_length(base_value, is_long)?;
    let ghost b = base.value();
    if is_long {
        let ghost expected = spec_loaded(storage, b).unwrap();
        let start = calc_data_slot(base);
        let chunks = calc_chunks(length);
        let mut data: Vec<u8> = Vec::new();
        let mut i: usize = 0;
        while i < chunks
            invariant
                i <= chunks,
                chunks == (length + 31) / 32,
                length <= usize::MAX,
                length == expected.len(),
                b == base.value(),
                start.value() == spec_data_slot(b),
                forall|k: int| 0 <= k < expected.len() ==> expected[k] == spec_loaded_byte(storage, b, k),
                data@.len() == (if 32 * i < length { 32 * i } else { length as int }),
                forall|k: int| 0 <= k < data@.len() ==> data@[k] == expected[k],
            decreases chunks - i,
        {
            let slot = chunk_slot(start, i, Ghost(b));
            let w = storage.load(slot).to_be_bytes();
            assert(32 * i < length);
            let take: usize = if i == chunks - 1 {
                length - i * 32
            } else {
                32
            };
            assert(take <= 32);
            assert(32 * i + take <= length);
            let mut k: usize = 0;
            while k < take
                invariant
                    k <= take <= 32,
                    32 * i + take <= length,
                    length == expected.len(),
                    w@ == spec_word_bytes(storage.word_at(spec_chunk_slot(b, i as nat))),
                    forall|k2: int| 0 <= k2 < expected.len() ==> expected[k2] == spec_loaded_byte(storage, b, k2),
                    data@.len() == 32 * i + k,
                    forall|k2: int| 0 <= k2 < data@.len() ==> data@[k2] == expected[k2],
                decreases take - k,
            {
                proof {
                    lemma_chunk_position(i as int, k as int);
                    assert(expected[32 * i + k] == spec_loaded_byte(storage, b, 32 * i + k));
                }
                data.push(w[k]);
                k = k + 1;
            }
            i = i + 1;
        }
        proof {
            assert(data@ =~= expected);
        }
        Ok(data)
    } else {
        let w = base_value.to_be_bytes();
        let mut data: Vec<u8> = Vec::new();
        let mut k: usize = 0;
        while k < length
            invariant
                k <= length <= 31,
                w@ == spec_word_bytes(base_value.value()),
                data@ == w@.subrange(0, k as int),
            decreases length - k,
        {
            data.push(w[k]);
            k = k + 1;
            assert(data@ =~= w@.subrange(0, k as int));
        }
        Ok(data)
    }
}

/// Deletes the value with base slot `base`: zeroes its base slot and, for a long value, its
/// chunk slots.
///
/// Fails with an overflow panic, changing nothing, when a long length exceeds `usize::MAX`.
pub fn delete_bytes_like(storage: &mut SlotStorage, base: U256) -> (r: Result<()>)
    ensures
        ({
            let v = old(storage).word_at(base.value());
            let len = ((v + word_modulus() - 1) % word_modulus() as int) / 2;
            &&& v % 2 == 1 && len > usize::MAX ==> r == Err::<(), BasePrecompileError>(overflow())
                && *final(storage) == *old(storage)
            &&& !(v % 2 == 1 && len > usize::MAX) ==> r is Ok && spec_deleted(
                old(storage),
                final(storage),
                base.value(),
            )
        }),
{
    let ghost b = base.value();
    let ghost pre = *storage;
    proof {
        lemma_value_bound(base);
    }
    let base_value = storage.load(base);
    if is_long_string(base_value) {
        let length = calc_string_length(base_value, true)?;
        let start = calc_data_slot(base);
        let chunks = calc_chunks(length);
        let mut i: usize = 0;
        while i < chunks
            invariant
                i <= chunks,
                chunks == spec_chunks(length as nat),
                length == ((pre.word_at(b) + word_modulus() - 1) % word_modulus() as int) / 2,
                pre.word_at(b) % 2 == 1,
                b == base.value(),
                b < word_modulus(),
                start.value() == spec_data_slot(b),
                forall|j: nat| #![trigger spec_chunk_slot(b, j)] j < i ==> storage.word_at(spec_chunk_slot(b, j)) == 0,
                forall|s: nat|
                    #![trigger storage.word_at(s)]
                    s < word_modulus() && (forall|j: nat|
                        #![trigger spec_chunk_slot(b, j)]
                        j < i ==> spec_chunk_slot(b, j) != s) ==> storage.word_at(s)
                        == pre.word_at(s),
            decreases chunks - i,
        {
            let slot = chunk_slot(start, i, Ghost(b));
            storage.store(slot, U256::zero());
            proof {
                lemma_value_bound(slot);
                assert forall|j: nat| #![trigger spec_chunk_slot(b, j)] j < i + 1 implies storage.word_at(
                    spec_chunk_slot(b, j),
                ) == 0 by {
                    if j < i {
                        lemma_chunk_slots_distinct(b, j, i as nat);
                        vstd::arithmetic::div_mod::lemma_mod_bound(
                            (spec_data_slot(b) + j) as int,
                            word_modulus() as int,
                        );
                    }
                }
                assert forall|s: nat|
                    #![trigger storage.word_at(s)]
                    s < word_modulus() && (forall|j: nat|
                        #![trigger spec_chunk_slot(b, j)]
                        j < i + 1 ==> spec_chunk_slot(b, j) != s) implies storage.word_at(s)
                    == pre.word_at(s) by {
                    assert(spec_chunk_slot(b, i as nat) != s);
                    assert forall|j: nat| #![trigger spec_chunk_slot(b, j)] j < i implies spec_chunk_slot(
                        b,
                        j,
                    ) != s by {
                        assert(j < i + 1);
                    }
                }
            }
            i = i + 1;
        }
        let ghost mid = *storage;
        storage.store(base, U256::zero());
        proof {
            assert forall|j: nat| #![trigger spec_chunk_slot(b, j)] j < spec_chunks(length as nat) implies storage.word_at(
                spec_chunk_slot(b, j),
            ) == 0 by {
                vstd::arithmetic::div_mod::lemma_mod_bound(
                    (spec_data_slot(b) + j) as int,
                    word_modulus() as int,
                );
                if spec_chunk_slot(b, j) != b {
                    assert(mid.word_at(spec_chunk_slot(b, j)) == 0);
                }
            }
        }
    } else {
        storage.store(base, U256::zero());
    }
    proof {
        U256::lemma_spec_zero_word();
    }
    Ok(())
}

/// Reading a value back after storing it gives the stored bytes, provided that the value's
/// length fits in `usize` and, for a long value, that no chunk slot is the base slot.
pub proof fn lemma_load_after_store(old: SlotStorage, new: SlotStorage, base: nat, bytes: Seq<u8>)
    requires
        base < word_modulus(),
        bytes.len() <= usize::MAX,
        spec_stored(&old, &new, base, bytes),
        bytes.len() > 31 ==> forall|j: nat|
            #![trigger spec_chunk_slot(base, j)]
            j < spec_chunks(bytes.len()) ==> spec_chunk_slot(base, j) != base,
    ensures
        spec_loaded(&new, base) == Some(bytes),
{
    let v = new.word_at(base);
    if bytes.len() <= 31 {
        let w = spec_short_word(bytes);
        lemma_word_bytes_round_trip(0, w);
        assert(v % 256 == w[31] as nat) by {
            assert(w.drop_last().len() == 31);
            assert(spec_be_value(w) == spec_be_value(w.drop_last()) * 256 + w.last());
            vstd::arithmetic::div_mod::lemma_fundamental_div_mod_converse(
                spec_be_value(w) as int,
                256,
                spec_be_value(w.drop_last()) as int,
                w.last() as int,
            );
        }
        assert(w[31] == (2 * bytes.len()) as u8);
        assert(v % 2 == 0) by {
            vstd::arithmetic::div_mod::lemma_mod_mod(v as int, 2, 128);
        }
        assert(spec_word_bytes(v).subrange(0, bytes.len() as int) =~= bytes);
    } else {
        lemma_long_length_round_trip(bytes.len());
        let n = spec_chunks(bytes.len());
        let d = spec_loaded(&new, base).unwrap();
        assert forall|k: int| 0 <= k < bytes.len() implies d[k] == bytes[k] by {
            let j = (k / 32) as nat;
            let p = k % 32;
            vstd::arithmetic::div_mod::lemma_fundamental_div_mod(k, 32);
            assert(j < n);
            let c = spec_chunk(bytes, j);
            lemma_word_bytes_round_trip(0, c);
            assert(new.word_at(spec_chunk_slot(base, j)) == spec_be_value(c));
            assert(c[p] == bytes[32 * j + p]);
        }
        assert(d =~= bytes);
    }
}

/// Reading a value back after deleting it gives the empty value.
pub proof fn lemma_load_after_delete(old: SlotStorage, new: SlotStorage, base: nat)
    requires
        spec_deleted(&old, &new, base),
    ensures
        spec_loaded(&new, base) == Some(Seq::<u8>::empty()),
{
    lemma_word_bytes_round_trip(0, Seq::new(32, |k: int| 0u8));
    assert(spec_word_bytes(0).subrange(0, 0) =~= Seq::<u8>::empty());
}

} // verus!

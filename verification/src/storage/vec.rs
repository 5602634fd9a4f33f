//! Dynamic arrays in storage, laid out as in Solidity: the length in the base slot, the
//! elements from slot `keccak256(base slot)` on, packed when they are at most 16 bytes wide.
//!
//! A length above `u32::MAX` can only come from tampered state and reads as an overflow.

use vstd::arithmetic::power2::pow2;
use vstd::prelude::*;

use crate::error::{overflow, BasePrecompileError, Result};
use crate::primitives::Address;
use crate::storage::bytes_like::{calc_data_slot, spec_data_slot};
use crate::storage::elements::{
    calc_slot_count, clear_region, compute_handler, in_region, lemma_elem_in_region,
    lemma_elems_per_slot, lemma_region_slot_holds_element, lemma_same_slot_disjoint,
    lemma_elems_after_write, load_elements, packs, spec_elem, spec_elem_offset, spec_elem_slot,
    spec_elems, spec_elems_written, spec_region_cleared, spec_region_slot, spec_slot_count,
    spec_slot_of, store_elements, word_values, ElementSlot,
};
use crate::storage::packing::{
    elems_per_slot, lemma_delete_is_insert_zero, lemma_extract_after_insert,
    lemma_insert_keeps_other_fields, spec_delete, spec_extract, spec_insert,
};
use crate::storage::slots::SlotStorage;
use crate::word::{self, word_modulus, U256};

verus! {

/// The most elements a vector of elements of `b` bytes may hold.
pub open spec fn spec_max_len(b: nat) -> nat {
    if packs(b) {
        u32::MAX as nat / b
    } else {
        u32::MAX as nat
    }
}

/// The vector with its length in slot `len_slot` and elements of `b` bytes, or `None` when its
/// length exceeds `u32::MAX`.
pub open spec fn spec_vec(st: &SlotStorage, len_slot: nat, b: nat) -> Option<Seq<nat>> {
    let l = st.word_at(len_slot);
    if l > u32::MAX {
        None
    } else {
        Some(spec_elems(st, spec_data_slot(len_slot), b, l))
    }
}

/// Whether none of the first `n` elements of the vector with length slot `len_slot` lives in
/// that slot (which only a Keccak-256 collision could bring about).
pub open spec fn elems_clear_of(len_slot: nat, b: nat, n: nat) -> bool {
    forall|i: nat| i < n ==> #[trigger] spec_elem_slot(spec_data_slot(len_slot), b, i) != len_slot
}

/// Whether `new` is `old` after pushing `v` onto the vector with length slot `len_slot`: the
/// new element is written into its slot, then the length grows by one.
pub open spec fn spec_pushed(old: &SlotStorage, new: &SlotStorage, len_slot: nat, b: nat, v: nat) -> bool {
    let l = old.word_at(len_slot);
    let es = spec_elem_slot(spec_data_slot(len_slot), b, l);
    let ew = if packs(b) {
        spec_insert(old.word_at(es), v, spec_elem_offset(b, l), b)
    } else {
        v
    };
    &&& new.word_at(len_slot) == l + 1
    &&& es != len_slot ==> new.word_at(es) == ew
    &&& forall|s: nat|
        #![trigger new.word_at(s)]
        s < word_modulus() && s != len_slot && s != es ==> new.word_at(s) == old.word_at(s)
}

/// Whether `new` is `old` after popping the last element of the vector with length slot
/// `len_slot`: the element is cleared, then the length shrinks by one.
pub open spec fn spec_popped(old: &SlotStorage, new: &SlotStorage, len_slot: nat, b: nat) -> bool {
    let l = old.word_at(len_slot);
    let last = (l - 1) as nat;
    let es = spec_elem_slot(spec_data_slot(len_slot), b, last);
    let cw = if packs(b) {
        spec_delete(old.word_at(es), spec_elem_offset(b, last), b)
    } else {
        0
    };
    &&& new.word_at(len_slot) == last
    &&& es != len_slot ==> new.word_at(es) == cw
    &&& forall|s: nat|
        #![trigger new.word_at(s)]
        s < word_modulus() && s != len_slot && s != es ==> new.word_at(s) == old.word_at(s)
}

/// Whether `new` is `old` after writing the vector `vals` with length slot `len_slot`: the
/// length is written, then the elements, so an element slot that were the length slot would
/// win.
pub open spec fn spec_vec_written(
    old: &SlotStorage,
    new: &SlotStorage,
    len_slot: nat,
    b: nat,
    vals: Seq<nat>,
) -> bool {
    exists|mid: SlotStorage|
        {
            &&& mid.word_at(len_slot) == vals.len()
            &&& forall|s: nat|
                #![trigger mid.word_at(s)]
                s < word_modulus() && s != len_slot ==> mid.word_at(s) == old.word_at(s)
            &&& spec_elems_written(&mid, new, spec_data_slot(len_slot), b, vals)
        }
}

/// Whether `new` is `old` after deleting the vector with length slot `len_slot`: the length
/// is zeroed, then every slot that held its elements.
pub open spec fn spec_vec_deleted(old: &SlotStorage, new: &SlotStorage, len_slot: nat, b: nat) -> bool {
    exists|mid: SlotStorage|
        {
            &&& mid.word_at(len_slot) == 0
            &&& forall|s: nat|
                #![trigger mid.word_at(s)]
                s < word_modulus() && s != len_slot ==> mid.word_at(s) == old.word_at(s)
            &&& spec_region_cleared(
                &mid,
                new,
                spec_data_slot(len_slot),
                spec_slot_count(b, old.word_at(len_slot)),
            )
        }
}

/// Reads the length stored in `slot`, which must not exceed `u32::MAX`.
fn load_checked_len(st: &SlotStorage, slot: U256) -> (r: Result<usize>)
    ensures
        st.word_at(slot.value()) > u32::MAX ==> r == Err::<usize, BasePrecompileError>(overflow()),
        st.word_at(slot.value()) <= u32::MAX ==> r == Ok::<usize, BasePrecompileError>(
            st.word_at(slot.value()) as usize,
        ),
{
    let raw = st.load(slot);
    if word::lt(U256::from_u64(u32::MAX as u64), raw) {
        return Err(BasePrecompileError::under_overflow());
    }
    proof {
        vstd::arithmetic::power2::lemma2_to64();
        crate::word::lemma_pow2_256();
    }
    match raw.to_u128() {
        Some(v) => Ok(v as usize),
        None => Err(BasePrecompileError::under_overflow()),
    }
}

/// Handle on a dynamic array of elements of `elem_bytes` bytes whose length lives in slot
/// `len_slot` of the contract at `address`.
#[derive(Clone, Copy, Debug)]
pub struct VecHandler {
    len_slot: U256,
    address: Address,
    elem_bytes: usize,
}

impl VecHandler {
    #[verifier::type_invariant]
    closed spec fn inv(self) -> bool {
        1 <= self.elem_bytes <= 32
    }

    /// The slot number that holds the length.
    pub closed spec fn slot(&self) -> nat {
        self.len_slot.value()
    }

    /// The size of an element in bytes.
    pub closed spec fn elem_size(&self) -> nat {
        self.elem_bytes as nat
    }

    /// The contract whose storage holds the vector.
    pub closed spec fn owner(&self) -> Address {
        self.address
    }

    /// The vector as stored in `st`.
    pub open spec fn view_in(&self, st: &SlotStorage) -> Option<Seq<nat>> {
        spec_vec(st, self.slot(), self.elem_size())
    }

    /// A handle on the vector with length slot `len_slot` of the contract at `address`, whose
    /// elements have `elem_bytes` bytes.
    pub fn new(len_slot: U256, address: Address, elem_bytes: usize) -> (r: VecHandler)
        requires
            1 <= elem_bytes <= 32,
        ensures
            r.slot() == len_slot.value(),
            r.owner() == address,
            r.elem_size() == elem_bytes,
    {
        VecHandler { len_slot, address, elem_bytes }
    }

    /// The most elements the vector may hold: `u32::MAX` divided by the element size for
    /// packed elements, `u32::MAX` otherwise.
    fn max_index(&self) -> (r: usize)
        ensures
            r == spec_max_len(self.elem_size()),
    {
        proof {
            use_type_invariant(self);
        }
        if self.elem_bytes <= 16 {
            u32::MAX as usize / self.elem_bytes
        } else {
            u32::MAX as usize
        }
    }

    /// The slot that stores the length.
    pub fn len_slot(&self) -> (r: U256)
        ensures
            r.value() == self.slot(),
    {
        self.len_slot
    }

    /// The first slot of the elements: `keccak256(len_slot)`.
    pub fn data_slot(&self) -> (r: U256)
        ensures
            r.value() == spec_data_slot(self.slot()),
    {
        calc_data_slot(self.len_slot)
    }

    /// The number of elements.
    pub fn len(&self, st: &SlotStorage) -> (r: Result<usize>)
        ensures
            self.view_in(st) matches Some(v) ==> r == Ok::<usize, BasePrecompileError>(
                v.len() as usize,
            ),
            self.view_in(st) is None ==> r == Err::<usize, BasePrecompileError>(overflow()),
    {
        load_checked_len(st, self.len_slot)
    }

    /// Whether the vector has no element.
    pub fn is_empty(&self, st: &SlotStorage) -> (r: Result<bool>)
        ensures
            self.view_in(st) matches Some(v) ==> r == Ok::<bool, BasePrecompileError>(v.len() == 0),
            self.view_in(st) is None ==> r == Err::<bool, BasePrecompileError>(overflow()),
    {
        Ok(self.len(st)? == 0)
    }

    /// Where element `index` lives, or `None` when the vector is shorter.
    pub fn at(&self, st: &SlotStorage, index: usize) -> (r: Result<Option<ElementSlot>>)
        ensures
            self.view_in(st) is None ==> r == Err::<Option<ElementSlot>, BasePrecompileError>(
                overflow(),
            ),
            self.view_in(st) matches Some(v) ==> {
                &&& index >= v.len() ==> r == Ok::<Option<ElementSlot>, BasePrecompileError>(None)
                &&& index < v.len() ==> (r matches Ok(Some(h)) && h.locates(
                    spec_data_slot(self.slot()),
                    self.elem_size(),
                    index as nat,
                ) && h.value_in(st) == v[index as int])
            },
    {
        proof {
            use_type_invariant(self);
        }
        if index >= self.len(st)? {
            return Ok(None);
        }
        Ok(Some(compute_handler(self.data_slot(), self.elem_bytes, index)))
    }

    /// Appends `value`: writes it into the slot of the next element, then stores the grown
    /// length. Fails when the vector is already at its capacity.
    pub fn push(&self, st: &mut SlotStorage, value: U256) -> (r: Result<()>)
        ensures
            self.view_in(old(st)) is None ==> r == Err::<(), BasePrecompileError>(overflow())
                && *final(st) == *old(st),
            self.view_in(old(st)) matches Some(v) ==> {
                &&& v.len() >= spec_max_len(self.elem_size()) ==> (r matches Err(e) && e is Fatal)
                    && *final(st) == *old(st)
                &&& v.len() < spec_max_len(self.elem_size()) ==> r is Ok && spec_pushed(
                    old(st),
                    final(st),
                    self.slot(),
                    self.elem_size(),
                    value.value(),
                )
            },
    {
        proof {
            use_type_invariant(self);
        }
        let length = self.len(st)?;
        if length >= self.max_index() {
            return Err(BasePrecompileError::Fatal(String::from_str("Vec is at max capacity")));
        }
        let handler = compute_handler(self.data_slot(), self.elem_bytes, length);
        handler.write(st, value)?;
        st.store(self.len_slot, U256::from_u64((length + 1) as u64));
        Ok(())
    }

    /// Removes the last element and returns it: clears its bytes, then stores the shrunk
    /// length. An empty vector gives `None` and stays as it is.
    pub fn pop(&self, st: &mut SlotStorage) -> (r: Result<Option<U256>>)
        ensures
            self.view_in(old(st)) is None ==> r == Err::<Option<U256>, BasePrecompileError>(
                overflow(),
            ) && *final(st) == *old(st),
            self.view_in(old(st)) matches Some(v) ==> {
                &&& v.len() == 0 ==> r == Ok::<Option<U256>, BasePrecompileError>(None)
                    && *final(st) == *old(st)
                &&& v.len() > 0 ==> (r matches Ok(Some(x)) && x.value() == v.last()) && spec_popped(
                    old(st),
                    final(st),
                    self.slot(),
                    self.elem_size(),
                )
            },
    {
        proof {
            use_type_invariant(self);
        }
        let length = self.len(st)?;
        if length == 0 {
            return Ok(None);
        }
        let last_index = length - 1;
        let handler = compute_handler(self.data_slot(), self.elem_bytes, last_index);
        let element = handler.read(st)?;
        handler.delete(st)?;
        st.store(self.len_slot, U256::from_u64(last_index as u64));
        Ok(Some(element))
    }

    /// Reads the whole vector.
    pub fn read(&self, st: &SlotStorage) -> (r: Result<Vec<U256>>)
        ensures
            self.view_in(st) matches Some(v) ==> (r matches Ok(w) && word_values(w@) == v),
            self.view_in(st) is None ==> r == Err::<Vec<U256>, BasePrecompileError>(overflow()),
    {
        proof {
            use_type_invariant(self);
        }
        let length = load_checked_len(st, self.len_slot)?;
        if length == 0 {
            let empty: Vec<U256> = Vec::new();
            assert(word_values(empty@) =~= spec_elems(
                st,
                spec_data_slot(self.slot()),
                self.elem_size(),
                0,
            ));
            return Ok(empty);
        }
        load_elements(st, self.data_slot(), self.elem_bytes, length)
    }

    /// Writes the whole vector: its length, then its elements. Elements past the new length
    /// stay in storage, as in Solidity.
    pub fn write(&self, st: &mut SlotStorage, value: Vec<U256>) -> (r: Result<()>)
        ensures
            r is Ok,
            spec_vec_written(old(st), final(st), self.slot(), self.elem_size(), word_values(value@)),
    {
        proof {
            use_type_invariant(self);
            crate::word::lemma_pow2_256();
            vstd::arithmetic::power2::lemma_pow2_strictly_increases(64, 256);
            vstd::arithmetic::power2::lemma2_to64();
        }
        let ghost s0 = *st;
        st.store(self.len_slot, U256::from_u64(value.len() as u64));
        let ghost mid = *st;
        if value.len() == 0 {
            proof {
                let e = crate::storage::packing::elems_per_slot(self.elem_size());
                crate::storage::elements::lemma_elems_per_slot(self.elem_size());
                vstd::arithmetic::div_mod::lemma_basic_div((e - 1) as int, e as int);
                assert(spec_slot_count(self.elem_size(), 0) == 0);
                assert(spec_elems_written(&mid, st, spec_data_slot(self.slot()), self.elem_size(), word_values(value@)));
            }
            return Ok(());
        }
        let start = self.data_slot();
        let r = store_elements(value.as_slice(), st, start, self.elem_bytes);
        proof {
            assert(mid.word_at(self.slot()) == word_values(value@).len());
        }
        r
    }

    /// Deletes the vector: zeroes its length and every slot that held its elements.
    pub fn delete(&self, st: &mut SlotStorage) -> (r: Result<()>)
        ensures
            self.view_in(old(st)) is None ==> r == Err::<(), BasePrecompileError>(overflow())
                && *final(st) == *old(st),
            self.view_in(old(st)) is Some ==> r is Ok && spec_vec_deleted(
                old(st),
                final(st),
                self.slot(),
                self.elem_size(),
            ) && self.view_in(final(st)) == Some(Seq::<nat>::empty()),
    {
        proof {
            use_type_invariant(self);
        }
        let length = load_checked_len(st, self.len_slot)?;
        st.store(self.len_slot, U256::zero());
        let ghost mid = *st;
        let count = calc_slot_count(self.elem_bytes, length);
        if length == 0 {
            proof {
                assert(spec_region_cleared(&mid, st, spec_data_slot(self.slot()), count as nat));
            }
            return Ok(());
        }
        let start = self.data_slot();
        clear_region(st, start, count);
        proof {
            let start_v = spec_data_slot(self.slot());
            if crate::storage::elements::in_region(start_v, count as nat, self.slot()) {
                let j = choose|j: nat| j < count && crate::storage::elements::spec_region_slot(start_v, j) == self.slot();
                assert(st.word_at(crate::storage::elements::spec_region_slot(start_v, j)) == 0);
            }
            crate::word::lemma_value_bound(self.len_slot);
            assert(st.word_at(self.slot()) == 0);
            assert(spec_elems(st, start_v, self.elem_size(), 0) =~= Seq::<nat>::empty());
        }
        Ok(())
    }
}

/// Reading a vector back after writing it gives what was written: the vector `vals` of
/// values that fit in `b` bytes, at most `u32::MAX` of them, when no element slot is the
/// length slot.
pub proof fn lemma_read_after_write(
    old: SlotStorage,
    new: SlotStorage,
    len_slot: nat,
    b: nat,
    vals: Seq<nat>,
)
    requires
        1 <= b <= 32,
        len_slot < word_modulus(),
        spec_vec_written(&old, &new, len_slot, b, vals),
        vals.len() <= u32::MAX,
        forall|i: int| 0 <= i < vals.len() ==> #[trigger] vals[i] < pow2(8 * b),
        elems_clear_of(len_slot, b, vals.len()),
    ensures
        spec_vec(&new, len_slot, b) == Some(vals),
{
    let mid = choose|mid: SlotStorage|
        {
            &&& mid.word_at(len_slot) == vals.len()
            &&& forall|s: nat|
                #![trigger mid.word_at(s)]
                s < word_modulus() && s != len_slot ==> mid.word_at(s) == old.word_at(s)
            &&& spec_elems_written(&mid, &new, spec_data_slot(len_slot), b, vals)
        };
    let start = spec_data_slot(len_slot);
    let n = vals.len();
    let count = spec_slot_count(b, n);
    if in_region(start, count, len_slot) {
        let j = choose|j: nat| j < count && spec_region_slot(start, j) == len_slot;
        let i = lemma_region_slot_holds_element(b, n, j);
        assert(spec_elem_slot(start, b, i) == len_slot);
    }
    assert(new.word_at(len_slot) == n);
    lemma_elems_after_write(mid, new, start, b, vals);
}

/// Pushing appends: after a push that succeeded, the vector is the old one with the low `b`
/// bytes of the pushed value at its end, when no element slot is the length slot.
pub proof fn lemma_push_appends(old: SlotStorage, new: SlotStorage, len_slot: nat, b: nat, v: nat)
    requires
        1 <= b <= 32,
        len_slot < word_modulus(),
        spec_vec(&old, len_slot, b) is Some,
        old.word_at(len_slot) < spec_max_len(b),
        spec_pushed(&old, &new, len_slot, b, v),
        elems_clear_of(len_slot, b, old.word_at(len_slot) + 1),
    ensures
        spec_vec(&new, len_slot, b) == Some(spec_vec(&old, len_slot, b).unwrap().push(v % pow2(8 * b))),
{
    let start = spec_data_slot(len_slot);
    let l = old.word_at(len_slot);
    let es = spec_elem_slot(start, b, l);
    let old_seq = spec_vec(&old, len_slot, b).unwrap();
    vstd::arithmetic::power2::lemma_pow2_pos(8 * b);
    let want = old_seq.push(v % pow2(8 * b));
    lemma_elems_per_slot(b);
    vstd::arithmetic::div_mod::lemma_div_is_ordered_by_denominator(u32::MAX as int, 1, b as int);
    vstd::arithmetic::div_mod::lemma_div_basics(u32::MAX as int);
    crate::word::lemma_pow2_256();
    vstd::arithmetic::power2::lemma_pow2_strictly_increases(32, 256);
    vstd::arithmetic::power2::lemma2_to64();
    assert(l + 1 <= u32::MAX);
    old.lemma_word_bound(es);
    assert(spec_elem_slot(start, b, l) != len_slot);
    assert(spec_elem_offset(b, l) + b <= 32) by {
        if packs(b) {
            lemma_same_slot_offset_bound(b, l);
        }
    }
    assert forall|i: int| 0 <= i < l + 1 implies #[trigger] spec_elem(&new, start, b, i as nat) == want[i] by {
        let si = spec_elem_slot(start, b, i as nat);
        assert(si != len_slot);
        if i == l {
            if packs(b) {
                lemma_extract_after_insert(old.word_at(es), v, spec_elem_offset(b, l), b);
            } else {
                vstd::arithmetic::div_mod::lemma_div_basics(v as int);
            }
        } else if si == es {
            lemma_same_slot_disjoint(start, b, i as nat, l);
            lemma_insert_keeps_other_fields(
                old.word_at(es),
                v,
                spec_elem_offset(b, l),
                b,
                spec_elem_offset(b, i as nat),
                b,
            );
        }
    }
    assert(spec_elems(&new, start, b, l + 1) =~= want);
}

/// An element's byte range lies within its slot.
proof fn lemma_same_slot_offset_bound(b: nat, i: nat)
    requires
        1 <= b <= 16,
    ensures
        spec_elem_offset(b, i) + b <= 32,
{
    lemma_elems_per_slot(b);
    let e = elems_per_slot(b) as int;
    vstd::arithmetic::div_mod::lemma_mod_pos_bound(i as int, e);
    let a = i as int % e;
    assert(a * b + b <= 32) by (nonlinear_arith)
        requires
            0 <= a < e,
            e * b <= 32,
            b >= 0,
    {
        assert((a + 1) * b <= e * b);
    }
}

/// Popping removes the last element: after a pop of a non-empty vector, the vector is the old
/// one without its last element, when no element slot is the length slot.
pub proof fn lemma_pop_removes(old: SlotStorage, new: SlotStorage, len_slot: nat, b: nat)
    requires
        1 <= b <= 32,
        len_slot < word_modulus(),
        spec_vec(&old, len_slot, b) matches Some(s) && s.len() > 0,
        spec_popped(&old, &new, len_slot, b),
        elems_clear_of(len_slot, b, old.word_at(len_slot)),
    ensures
        spec_vec(&new, len_slot, b) == Some(spec_vec(&old, len_slot, b).unwrap().drop_last()),
{
    let start = spec_data_slot(len_slot);
    let l = old.word_at(len_slot);
    let last = (l - 1) as nat;
    let es = spec_elem_slot(start, b, last);
    let want = spec_vec(&old, len_slot, b).unwrap().drop_last();
    lemma_elems_per_slot(b);
    crate::word::lemma_pow2_256();
    vstd::arithmetic::power2::lemma_pow2_strictly_increases(32, 256);
    vstd::arithmetic::power2::lemma2_to64();
    old.lemma_word_bound(es);
    assert(spec_elem_slot(start, b, last) != len_slot);
    assert forall|i: int| 0 <= i < last implies #[trigger] spec_elem(&new, start, b, i as nat) == want[i] by {
        let si = spec_elem_slot(start, b, i as nat);
        assert(si != len_slot);
        if si == es {
            lemma_same_slot_disjoint(start, b, i as nat, last);
            lemma_delete_is_insert_zero(old.word_at(es), spec_elem_offset(b, last), b);
            lemma_insert_keeps_other_fields(
                old.word_at(es),
                0,
                spec_elem_offset(b, last),
                b,
                spec_elem_offset(b, i as nat),
                b,
            );
        }
    }
    assert(spec_elems(&new, start, b, last) =~= want);
}

/// Popping undoes pushing: a push of `v` followed by a pop leaves the vector as it was, and
/// the pop returns the low `b` bytes of `v`, when no element slot is the length slot.
pub proof fn lemma_pop_undoes_push(
    s0: SlotStorage,
    s1: SlotStorage,
    s2: SlotStorage,
    len_slot: nat,
    b: nat,
    v: nat,
)
    requires
        1 <= b <= 32,
        len_slot < word_modulus(),
        spec_vec(&s0, len_slot, b) is Some,
        s0.word_at(len_slot) < spec_max_len(b),
        spec_pushed(&s0, &s1, len_slot, b, v),
        spec_popped(&s1, &s2, len_slot, b),
        elems_clear_of(len_slot, b, s0.word_at(len_slot) + 1),
    ensures
        spec_vec(&s1, len_slot, b) matches Some(s) && s.last() == v % pow2(8 * b),
        spec_vec(&s2, len_slot, b) == spec_vec(&s0, len_slot, b),
{
    vstd::arithmetic::power2::lemma_pow2_pos(8 * b);
    lemma_push_appends(s0, s1, len_slot, b, v);
    let s = spec_vec(&s0, len_slot, b).unwrap();
    assert(s1.word_at(len_slot) == s0.word_at(len_slot) + 1);
    lemma_pop_removes(s1, s2, len_slot, b);
    assert(s.push(v % pow2(8 * b)).drop_last() =~= s);
}

} // verus!

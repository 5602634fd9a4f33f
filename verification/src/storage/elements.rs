//! Elements of arrays in storage: where element `i` lives, and reading, writing and clearing
//! it.
//!
//! Elements of at most 16 bytes are packed, several to a slot, from offset 0 of each slot and
//! never across two slots. Wider elements have a slot each.

use vstd::arithmetic::power2::{lemma_pow2_pos, pow2};
use vstd::prelude::*;

use crate::error::Result;
use crate::storage::packing::{
    calc_element_loc, calc_packed_slot_count, delete_from_word, elems_per_slot, extract_from_word,
    insert_into_word, lemma_element_within_slot_count, lemma_extract_after_insert,
    lemma_insert_bound, lemma_insert_keeps_other_fields, spec_delete, spec_extract, spec_insert,
};
use crate::storage::slots::SlotStorage;
use crate::word::{self, lemma_value_bound, word_modulus, U256};

verus! {

/// How an element sits in its slot.
#[derive(Clone, Copy, Debug, PartialEq, Eq, Structural)]
pub enum LayoutCtx {
    /// The element has the whole slot.
    Full,
    /// The element shares its slot, starting at this byte offset.
    Packed(usize),
}

/// Whether elements of `b` bytes share slots.
pub open spec fn packs(b: nat) -> bool {
    b <= 16
}

/// The slot of a region starting at `start` that holds element `i` of `b` bytes, counted
/// from the start.
pub open spec fn spec_slot_of(b: nat, i: nat) -> nat {
    if packs(b) {
        i / elems_per_slot(b)
    } else {
        i
    }
}

/// Slot `j` of the region that starts at slot `start`.
pub open spec fn spec_region_slot(start: nat, j: nat) -> nat {
    (start + j) % word_modulus()
}

/// The slot of element `i` of `b` bytes of the array whose elements start at slot `start`.
pub open spec fn spec_elem_slot(start: nat, b: nat, i: nat) -> nat {
    spec_region_slot(start, spec_slot_of(b, i))
}

/// The byte offset of element `i` of `b` bytes within its slot.
pub open spec fn spec_elem_offset(b: nat, i: nat) -> nat {
    if packs(b) {
        (i % elems_per_slot(b)) * b
    } else {
        0
    }
}

/// Element `i` of `b` bytes of the array whose elements start at slot `start`.
pub open spec fn spec_elem(st: &SlotStorage, start: nat, b: nat, i: nat) -> nat {
    spec_extract(st.word_at(spec_elem_slot(start, b, i)), spec_elem_offset(b, i), b)
}

/// The first `n` elements of `b` bytes of the array whose elements start at slot `start`.
pub open spec fn spec_elems(st: &SlotStorage, start: nat, b: nat, n: nat) -> Seq<nat> {
    Seq::new(n, |i: int| spec_elem(st, start, b, i as nat))
}

/// The number of slots that `n` elements of `b` bytes occupy.
pub open spec fn spec_slot_count(b: nat, n: nat) -> nat {
    if packs(b) {
        ((n + elems_per_slot(b) - 1) as nat) / elems_per_slot(b)
    } else {
        n
    }
}

/// Whether `s` is one of the first `count` slots of the region that starts at `start`.
pub open spec fn in_region(start: nat, count: nat, s: nat) -> bool {
    exists|j: nat| j < count && spec_region_slot(start, j) == s
}

/// The word that holds the elements `vals[lo..hi]` packed from offset 0, every other byte
/// zero.
pub open spec fn spec_pack(vals: Seq<nat>, b: nat, lo: nat, hi: nat) -> nat
    decreases hi - lo,
{
    if hi <= lo {
        0
    } else {
        spec_insert(
            spec_pack(vals, b, lo, (hi - 1) as nat),
            vals[hi - 1],
            ((hi - 1 - lo) * b) as nat,
            b,
        )
    }
}

/// The word that slot `j` of an array of the elements `vals` of `b` bytes holds once the
/// array is written.
pub open spec fn spec_slot_word(vals: Seq<nat>, b: nat, j: nat) -> nat {
    if packs(b) {
        let e = elems_per_slot(b);
        let hi = if (j + 1) * e <= vals.len() {
            (j + 1) * e
        } else {
            vals.len()
        };
        spec_pack(vals, b, j * e, hi)
    } else {
        vals[j as int]
    }
}

/// Whether `new` is `old` after writing the elements `vals` of `b` bytes from slot `start`:
/// each slot of the region holds its packed word, every other slot keeps its word.
pub open spec fn spec_elems_written(
    old: &SlotStorage,
    new: &SlotStorage,
    start: nat,
    b: nat,
    vals: Seq<nat>,
) -> bool {
    let count = spec_slot_count(b, vals.len());
    &&& forall|j: nat|
        #![trigger spec_region_slot(start, j)]
        j < count ==> new.word_at(spec_region_slot(start, j)) == spec_slot_word(vals, b, j)
    &&& forall|s: nat|
        #![trigger new.word_at(s)]
        s < word_modulus() && !in_region(start, count, s) ==> new.word_at(s) == old.word_at(s)
}

/// Whether `new` is `old` with the first `count` slots from `start` zeroed.
pub open spec fn spec_region_cleared(old: &SlotStorage, new: &SlotStorage, start: nat, count: nat) -> bool {
    &&& forall|j: nat|
        #![trigger spec_region_slot(start, j)]
        j < count ==> new.word_at(spec_region_slot(start, j)) == 0
    &&& forall|s: nat|
        #![trigger new.word_at(s)]
        s < word_modulus() && !in_region(start, count, s) ==> new.word_at(s) == old.word_at(s)
}

/// The values of a sequence of words.
pub open spec fn word_values(s: Seq<U256>) -> Seq<nat> {
    s.map_values(|w: U256| w.value())
}

/// Whether `new` is `old` with only slot `slot` changed, to `w`.
pub open spec fn only_slot_changed(old: &SlotStorage, new: &SlotStorage, slot: nat, w: nat) -> bool {
    &&& new.word_at(slot) == w
    &&& forall|s: nat|
        #![trigger new.word_at(s)]
        s < word_modulus() && s != slot ==> new.word_at(s) == old.word_at(s)
}

/// Between one and 32 elements fit in a slot, and a slot of packed elements never overflows.
pub proof fn lemma_elems_per_slot(b: nat)
    requires
        1 <= b <= 32,
    ensures
        1 <= elems_per_slot(b) <= 32,
        elems_per_slot(b) * b <= 32,
{
    vstd::arithmetic::div_mod::lemma_div_is_ordered(b as int, 32, b as int);
    vstd::arithmetic::div_mod::lemma_div_by_self(b as int);
    vstd::arithmetic::div_mod::lemma_div_is_ordered_by_denominator(32, 1, b as int);
    vstd::arithmetic::div_mod::lemma_fundamental_div_mod(32, b as int);
    vstd::arithmetic::div_mod::lemma_mod_bound(32, b as int);
}

/// Distinct slots of a region shorter than `2^256` are distinct storage slots.
pub proof fn lemma_region_slots_distinct(start: nat, i: nat, j: nat)
    requires
        i < word_modulus(),
        j < word_modulus(),
        i != j,
    ensures
        spec_region_slot(start, i) != spec_region_slot(start, j),
{
    let m = word_modulus() as int;
    let (a, x, y) = (start as int, i as int, j as int);
    vstd::arithmetic::div_mod::lemma_fundamental_div_mod(a + x, m);
    vstd::arithmetic::div_mod::lemma_fundamental_div_mod(a + y, m);
    let qi = (a + x) / m;
    let qj = (a + y) / m;
    if spec_region_slot(start, i) == spec_region_slot(start, j) {
        assert(y - x == m * (qj - qi)) by (nonlinear_arith)
            requires
                a + x == m * qi + (a + x) % m,
                a + y == m * qj + (a + y) % m,
                (a + x) % m == (a + y) % m,
        ;
        if qj - qi >= 1 {
            assert(m * (qj - qi) >= m) by (nonlinear_arith)
                requires
                    qj - qi >= 1,
                    m > 0,
            ;
        } else if qj - qi <= -1 {
            assert(m * (qj - qi) <= -m) by (nonlinear_arith)
                requires
                    qj - qi <= -1,
                    m > 0,
            ;
        }
    }
}

/// Element `i` of `n` lies in one of the slots that `n` elements occupy, below `2^32` when
/// `n` is.
pub proof fn lemma_elem_in_region(b: nat, n: nat, i: nat)
    requires
        1 <= b <= 32,
        i < n,
    ensures
        spec_slot_of(b, i) < spec_slot_count(b, n),
        spec_slot_of(b, i) <= i,
{
    lemma_elems_per_slot(b);
    if packs(b) {
        lemma_element_within_slot_count(i, n, b);
        vstd::arithmetic::div_mod::lemma_div_is_ordered_by_denominator(i as int, 1, elems_per_slot(b) as int);
        vstd::arithmetic::div_mod::lemma_div_basics(i as int);
    }
}

/// Each of the slots that `n` elements occupy holds at least one of them.
pub proof fn lemma_region_slot_holds_element(b: nat, n: nat, j: nat) -> (i: nat)
    requires
        1 <= b <= 32,
        j < spec_slot_count(b, n),
    ensures
        i < n,
        spec_slot_of(b, i) == j,
{
    lemma_elems_per_slot(b);
    if packs(b) {
        let e = elems_per_slot(b) as int;
        let x = n + e - 1;
        vstd::arithmetic::div_mod::lemma_fundamental_div_mod(x, e);
        vstd::arithmetic::div_mod::lemma_mod_pos_bound(x, e);
        assert(j * e <= n - 1) by (nonlinear_arith)
            requires
                j + 1 <= x / e,
                x == e * (x / e) + x % e,
                x % e >= 0,
                x == n + e - 1,
                e >= 1,
        {
            assert((j + 1) * e <= (x / e) * e);
        }
        vstd::arithmetic::div_mod::lemma_div_by_multiple(j as int, e);
        (j * e) as nat
    } else {
        j
    }
}

/// An element read back from its slot of a written array is the element written, when it fits
/// in `b` bytes.
pub proof fn lemma_slot_word_extract(vals: Seq<nat>, b: nat, i: nat)
    requires
        1 <= b <= 32,
        i < vals.len(),
        vals[i as int] < pow2(8 * b),
    ensures
        spec_extract(spec_slot_word(vals, b, spec_slot_of(b, i)), spec_elem_offset(b, i), b)
            == vals[i as int],
{
    lemma_elems_per_slot(b);
    lemma_pow2_pos(8 * b);
    vstd::arithmetic::div_mod::lemma_small_mod(vals[i as int], pow2(8 * b));
    if packs(b) {
        let e = elems_per_slot(b);
        let j = i / e;
        let lo = j * e;
        let n = vals.len();
        let hi = if (j + 1) * e <= n {
            (j + 1) * e
        } else {
            n
        };
        vstd::arithmetic::div_mod::lemma_fundamental_div_mod(i as int, e as int);
        vstd::arithmetic::div_mod::lemma_mod_pos_bound(i as int, e as int);
        assert(lo <= i < (j + 1) * e) by (nonlinear_arith)
            requires
                i == e * j + i % e,
                0 <= i % e < e,
                lo == j * e,
        ;
        assert((j + 1) * e == lo + e) by (nonlinear_arith)
            requires
                lo == j * e,
        ;
        assert((hi - lo) * b <= 32) by (nonlinear_arith)
            requires
                hi - lo <= e,
                e * b <= 32,
        ;
        assert(i % e == i - lo);
        lemma_pack_extract(vals, b, lo, hi, i);
    } else {
        vstd::arithmetic::power2::lemma2_to64();
        vstd::arithmetic::div_mod::lemma_div_basics(vals[i as int] as int);
    }
}

/// Two elements that share a slot occupy byte ranges that do not overlap.
pub proof fn lemma_same_slot_disjoint(start: nat, b: nat, i: nat, l: nat)
    requires
        1 <= b <= 32,
        i != l,
        i < word_modulus(),
        l < word_modulus(),
        spec_elem_slot(start, b, i) == spec_elem_slot(start, b, l),
    ensures
        packs(b),
        spec_elem_offset(b, i) + b <= spec_elem_offset(b, l) || spec_elem_offset(b, l) + b
            <= spec_elem_offset(b, i),
        spec_elem_offset(b, i) + b <= 32,
        spec_elem_offset(b, l) + b <= 32,
{
    lemma_elems_per_slot(b);
    let e = elems_per_slot(b) as int;
    if !packs(b) {
        lemma_region_slots_distinct(start, i, l);
    } else {
        vstd::arithmetic::div_mod::lemma_div_is_ordered_by_denominator(i as int, 1, e);
        vstd::arithmetic::div_mod::lemma_div_is_ordered_by_denominator(l as int, 1, e);
        vstd::arithmetic::div_mod::lemma_div_basics(i as int);
        vstd::arithmetic::div_mod::lemma_div_basics(l as int);
        if i / elems_per_slot(b) != l / elems_per_slot(b) {
            lemma_region_slots_distinct(start, i / elems_per_slot(b), l / elems_per_slot(b));
        }
        vstd::arithmetic::div_mod::lemma_fundamental_div_mod(i as int, e);
        vstd::arithmetic::div_mod::lemma_fundamental_div_mod(l as int, e);
        vstd::arithmetic::div_mod::lemma_mod_pos_bound(i as int, e);
        vstd::arithmetic::div_mod::lemma_mod_pos_bound(l as int, e);
        let a = i as int % e;
        let c = l as int % e;
        assert(a != c);
        assert(a * b + b <= 32 && c * b + b <= 32) by (nonlinear_arith)
            requires
                0 <= a < e,
                0 <= c < e,
                e * b <= 32,
                b >= 0,
        {
            assert((a + 1) * b <= e * b);
            assert((c + 1) * b <= e * b);
        }
        if a < c {
            assert(a * b + b <= c * b) by (nonlinear_arith)
                requires
                    a + 1 <= c,
                    b >= 0,
            ;
        } else {
            assert(c * b + b <= a * b) by (nonlinear_arith)
                requires
                    c + 1 <= a,
                    b >= 0,
            ;
        }
    }
}

/// Reading the elements back after writing them gives what was written, when each fits in
/// `b` bytes.
pub proof fn lemma_elems_after_write(old: SlotStorage, new: SlotStorage, start: nat, b: nat, vals: Seq<nat>)
    requires
        1 <= b <= 32,
        spec_elems_written(&old, &new, start, b, vals),
        forall|i: int| 0 <= i < vals.len() ==> #[trigger] vals[i] < pow2(8 * b),
    ensures
        spec_elems(&new, start, b, vals.len()) == vals,
{
    let n = vals.len();
    assert forall|i: int| 0 <= i < n implies #[trigger] spec_elem(&new, start, b, i as nat) == vals[i] by {
        lemma_elem_in_region(b, n, i as nat);
        lemma_slot_word_extract(vals, b, i as nat);
    }
    assert(spec_elems(&new, start, b, n) =~= vals);
}

/// Every element of a cleared region reads as zero.
pub proof fn lemma_elems_after_clear(old: SlotStorage, new: SlotStorage, start: nat, b: nat, n: nat)
    requires
        1 <= b <= 32,
        spec_region_cleared(&old, &new, start, spec_slot_count(b, n)),
    ensures
        spec_elems(&new, start, b, n) == Seq::new(n, |i: int| 0nat),
{
    assert forall|i: int| 0 <= i < n implies #[trigger] spec_elem(&new, start, b, i as nat) == 0 by {
        lemma_elem_in_region(b, n, i as nat);
        let o = spec_elem_offset(b, i as nat);
        lemma_pow2_pos(8 * o);
        lemma_pow2_pos(8 * b);
        vstd::arithmetic::div_mod::lemma_basic_div(0, pow2(8 * o) as int);
        vstd::arithmetic::div_mod::lemma_small_mod(0, pow2(8 * b));
    }
    assert(spec_elems(&new, start, b, n) =~= Seq::new(n, |i: int| 0nat));
}

/// Where element `index` of `b` bytes lives, for the array whose elements start at slot
/// `start`.
#[derive(Clone, Copy, Debug)]
pub struct ElementSlot {
    /// The slot.
    pub slot: U256,
    /// How the element sits in it.
    pub ctx: LayoutCtx,
    /// The element's size in bytes.
    pub bytes: usize,
}

impl ElementSlot {
    /// Whether the element fits in its slot.
    pub open spec fn wf(&self) -> bool {
        &&& 1 <= self.bytes <= 32
        &&& match self.ctx {
            LayoutCtx::Full => true,
            LayoutCtx::Packed(o) => o + self.bytes <= 32,
        }
    }

    /// The byte offset of the element within its slot.
    pub open spec fn offset(&self) -> nat {
        match self.ctx {
            LayoutCtx::Full => 0,
            LayoutCtx::Packed(o) => o as nat,
        }
    }

    /// The element as stored in `st`.
    pub open spec fn value_in(&self, st: &SlotStorage) -> nat {
        spec_extract(st.word_at(self.slot.value()), self.offset(), self.bytes as nat)
    }

    /// The slot's word after writing `v` into a slot that held `w`.
    pub open spec fn written_word(&self, w: nat, v: nat) -> nat {
        match self.ctx {
            LayoutCtx::Full => v,
            LayoutCtx::Packed(o) => spec_insert(w, v, o as nat, self.bytes as nat),
        }
    }

    /// The slot's word after clearing the element of a slot that held `w`.
    pub open spec fn cleared_word(&self, w: nat) -> nat {
        match self.ctx {
            LayoutCtx::Full => 0,
            LayoutCtx::Packed(o) => spec_delete(w, o as nat, self.bytes as nat),
        }
    }

    /// Whether this is where element `i` of `b` bytes of the array starting at `start` lives.
    pub open spec fn locates(&self, start: nat, b: nat, i: nat) -> bool {
        &&& self.wf()
        &&& self.bytes == b
        &&& self.slot.value() == spec_elem_slot(start, b, i)
        &&& self.offset() == spec_elem_offset(b, i)
        &&& (self.ctx is Packed <==> packs(b))
    }

    /// Reads the element.
    pub fn read(&self, st: &SlotStorage) -> (r: Result<U256>)
        requires
            self.wf(),
        ensures
            r matches Ok(v) && v.value() == self.value_in(st),
    {
        let word = st.load(self.slot);
        match self.ctx {
            LayoutCtx::Full => extract_from_word(word, 0, self.bytes),
            LayoutCtx::Packed(offset) => extract_from_word(word, offset, self.bytes),
        }
    }

    /// Writes `value` as the element; the rest of a shared slot is kept.
    pub fn write(&self, st: &mut SlotStorage, value: U256) -> (r: Result<()>)
        requires
            self.wf(),
        ensures
            r is Ok,
            only_slot_changed(
                old(st),
                final(st),
                self.slot.value(),
                self.written_word(old(st).word_at(self.slot.value()), value.value()),
            ),
    {
        match self.ctx {
            LayoutCtx::Full => {
                st.store(self.slot, value);
                Ok(())
            },
            LayoutCtx::Packed(offset) => {
                let current = st.load(self.slot);
                let updated = insert_into_word(current, value, offset, self.bytes)?;
                st.store(self.slot, updated);
                Ok(())
            },
        }
    }

    /// Clears the element: a slot of its own becomes zero, a shared slot loses the element's
    /// bytes only.
    pub fn delete(&self, st: &mut SlotStorage) -> (r: Result<()>)
        requires
            self.wf(),
        ensures
            r is Ok,
            only_slot_changed(
                old(st),
                final(st),
                self.slot.value(),
                self.cleared_word(old(st).word_at(self.slot.value())),
            ),
    {
        match self.ctx {
            LayoutCtx::Full => {
                st.store(self.slot, U256::zero());
                Ok(())
            },
            LayoutCtx::Packed(offset) => {
                let current = st.load(self.slot);
                let updated = delete_from_word(current, offset, self.bytes)?;
                st.store(self.slot, updated);
                Ok(())
            },
        }
    }
}

/// Where element `index` of `elem_bytes` bytes lives, for the array whose elements start at
/// slot `start`.
pub fn compute_handler(start: U256, elem_bytes: usize, index: usize) -> (r: ElementSlot)
    requires
        1 <= elem_bytes <= 32,
    ensures
        r.locates(start.value(), elem_bytes as nat, index as nat),
{
    if elem_bytes <= 16 {
        let location = calc_element_loc(index, elem_bytes);
        let slot = word::wrapping_add(start, U256::from_u64(location.offset_slots as u64));
        ElementSlot { slot, ctx: LayoutCtx::Packed(location.offset_bytes), bytes: elem_bytes }
    } else {
        let slot = word::wrapping_add(start, U256::from_u64(index as u64));
        ElementSlot { slot, ctx: LayoutCtx::Full, bytes: elem_bytes }
    }
}

/// A packed word stays below `2^256`.
pub proof fn lemma_pack_bound(vals: Seq<nat>, b: nat, lo: nat, hi: nat)
    requires
        (hi - lo) * b <= 32,
    ensures
        spec_pack(vals, b, lo, hi) < word_modulus(),
    decreases hi - lo,
{
    if hi > lo {
        let k = (hi - 1 - lo) as nat;
        assert(k * b + b <= 32) by (nonlinear_arith)
            requires
                k + 1 == hi - lo,
                (hi - lo) * b <= 32,
        ;
        assert(((hi - 1) as nat - lo) * b <= 32) by (nonlinear_arith)
            requires
                k + 1 == hi - lo,
                (hi - lo) * b <= 32,
                b >= 0,
        ;
        lemma_pack_bound(vals, b, lo, (hi - 1) as nat);
        lemma_insert_bound(spec_pack(vals, b, lo, (hi - 1) as nat), vals[hi - 1], k * b, b);
    } else {
        vstd::arithmetic::power2::lemma2_to64();
        crate::word::lemma_pow2_256();
        lemma_pow2_pos(256);
    }
}

/// Each element packed into a word reads back as its low `b` bytes.
pub proof fn lemma_pack_extract(vals: Seq<nat>, b: nat, lo: nat, hi: nat, i: nat)
    requires
        (hi - lo) * b <= 32,
        lo <= i < hi,
    ensures
        spec_extract(spec_pack(vals, b, lo, hi), ((i - lo) * b) as nat, b) == vals[i as int] % pow2(
            8 * b,
        ),
    decreases hi - lo,
{
    let k = (hi - 1 - lo) as nat;
    assert(k * b + b <= 32) by (nonlinear_arith)
        requires
            k + 1 == hi - lo,
            (hi - lo) * b <= 32,
    ;
    assert(((hi - 1) as nat - lo) * b <= 32) by (nonlinear_arith)
        requires
            k + 1 == hi - lo,
            (hi - lo) * b <= 32,
            b >= 0,
    ;
    let w = spec_pack(vals, b, lo, (hi - 1) as nat);
    lemma_pack_bound(vals, b, lo, (hi - 1) as nat);
    if i == hi - 1 {
        lemma_extract_after_insert(w, vals[hi - 1], k * b, b);
    } else {
        let io = (i - lo) as nat;
        assert(io * b + b <= k * b) by (nonlinear_arith)
            requires
                io + 1 <= k,
                b >= 0,
        ;
        lemma_insert_keeps_other_fields(w, vals[hi - 1], k * b, b, io * b, b);
        lemma_pack_extract(vals, b, lo, (hi - 1) as nat, i);
    }
}

/// The word holding the elements `vals[lo..hi]` of `elem_bytes` bytes, packed from offset 0.
fn build_packed_slot(vals: &[U256], lo: usize, hi: usize, elem_bytes: usize) -> (r: Result<U256>)
    requires
        1 <= elem_bytes <= 32,
        lo <= hi <= vals@.len(),
        (hi - lo) * elem_bytes <= 32,
    ensures
        r matches Ok(w) && w.value() == spec_pack(word_values(vals@), elem_bytes as nat, lo as nat, hi as nat),
{
    let ghost v = word_values(vals@);
    let mut slot_value = U256::zero();
    let mut current_offset: usize = 0;
    let mut k: usize = lo;
    proof {
        vstd::arithmetic::power2::lemma2_to64();
    }
    while k < hi
        invariant
            1 <= elem_bytes <= 32,
            lo <= k <= hi <= vals@.len(),
            (hi - lo) * elem_bytes <= 32,
            v == word_values(vals@),
            current_offset == (k - lo) * elem_bytes,
            slot_value.value() == spec_pack(v, elem_bytes as nat, lo as nat, k as nat),
        decreases hi - k,
    {
        assert(current_offset + elem_bytes <= 32) by (nonlinear_arith)
            requires
                current_offset == (k - lo) * elem_bytes,
                k < hi,
                (hi - lo) * elem_bytes <= 32,
                elem_bytes >= 1,
        {
            assert((k - lo) + 1 <= hi - lo);
            assert(((k - lo) + 1) * elem_bytes <= (hi - lo) * elem_bytes);
        }
        slot_value = insert_into_word(slot_value, vals[k], current_offset, elem_bytes)?;
        current_offset = current_offset + elem_bytes;
        assert(current_offset == (k + 1 - lo) * elem_bytes) by (nonlinear_arith)
            requires
                current_offset == (k - lo) * elem_bytes + elem_bytes,
        ;
        k = k + 1;
    }
    Ok(slot_value)
}

/// Reads the first `n` elements of `elem_bytes` bytes of the array whose elements start at
/// slot `start`.
pub fn load_elements(st: &SlotStorage, start: U256, elem_bytes: usize, n: usize) -> (r: Result<Vec<U256>>)
    requires
        1 <= elem_bytes <= 32,
    ensures
        r matches Ok(v) && word_values(v@) == spec_elems(st, start.value(), elem_bytes as nat, n as nat),
{
    let mut result: Vec<U256> = Vec::new();
    let mut i: usize = 0;
    while i < n
        invariant
            1 <= elem_bytes <= 32,
            i <= n,
            result@.len() == i,
            forall|k: int|
                0 <= k < i ==> #[trigger] result@[k].value() == spec_elem(
                    st,
                    start.value(),
                    elem_bytes as nat,
                    k as nat,
                ),
        decreases n - i,
    {
        let handler = compute_handler(start, elem_bytes, i);
        let elem = handler.read(st)?;
        result.push(elem);
        i = i + 1;
    }
    assert(word_values(result@) =~= spec_elems(st, start.value(), elem_bytes as nat, n as nat));
    Ok(result)
}

/// The number of slots that `n` elements of `elem_bytes` bytes occupy.
pub fn calc_slot_count(elem_bytes: usize, n: usize) -> (r: usize)
    requires
        1 <= elem_bytes <= 32,
    ensures
        r == spec_slot_count(elem_bytes as nat, n as nat),
        r <= n,
{
    proof {
        lemma_elems_per_slot(elem_bytes as nat);
    }
    if elem_bytes <= 16 {
        let r = calc_packed_slot_count(n, elem_bytes);
        proof {
            let e = elems_per_slot(elem_bytes as nat) as int;
            if n > 0 {
                assert(n + e - 1 <= n * e) by (nonlinear_arith)
                    requires
                        n >= 1,
                        e >= 1,
                ;
                vstd::arithmetic::div_mod::lemma_div_is_ordered(n + e - 1, n * e, e);
                vstd::arithmetic::div_mod::lemma_div_by_multiple(n as int, e);
            } else {
                vstd::arithmetic::div_mod::lemma_div_is_ordered(e - 1, e - 1, e);
                vstd::arithmetic::div_mod::lemma_basic_div(e - 1, e);
            }
        }
        r
    } else {
        n
    }
}

/// The slot `j` of the region that starts at `start`.
fn region_slot(start: U256, j: usize) -> (r: U256)
    ensures
        r.value() == spec_region_slot(start.value(), j as nat),
{
    word::wrapping_add(start, U256::from_u64(j as u64))
}

/// Writes the elements `vals` of `elem_bytes` bytes from slot `start`: packed elements fill
/// each slot from offset 0 and zero the rest of it; wide ones take a slot each.
pub fn store_elements(vals: &[U256], st: &mut SlotStorage, start: U256, elem_bytes: usize) -> (r: Result<()>)
    requires
        1 <= elem_bytes <= 32,
    ensures
        r is Ok,
        spec_elems_written(old(st), final(st), start.value(), elem_bytes as nat, word_values(vals@)),
{
    let ghost v = word_values(vals@);
    let ghost b = elem_bytes as nat;
    let n = vals.len();
    let count = calc_slot_count(elem_bytes, n);
    proof {
        lemma_elems_per_slot(b);
        crate::word::lemma_pow2_256();
        vstd::arithmetic::power2::lemma_pow2_strictly_increases(64, 256);
        vstd::arithmetic::power2::lemma2_to64();
    }
    let elements_per_slot = 32 / elem_bytes;
    let mut slot_idx: usize = 0;
    while slot_idx < count
        invariant
            1 <= elem_bytes <= 32,
            b == elem_bytes as nat,
            v == word_values(vals@),
            n == vals@.len(),
            count == spec_slot_count(b, n as nat),
            count <= n,
            n < word_modulus(),
            elements_per_slot == elems_per_slot(b),
            1 <= elements_per_slot <= 32,
            elements_per_slot * elem_bytes <= 32,
            slot_idx <= count,
            forall|j: nat|
                #![trigger spec_region_slot(start.value(), j)]
                j < slot_idx ==> st.word_at(spec_region_slot(start.value(), j)) == spec_slot_word(v, b, j),
            forall|s: nat|
                #![trigger st.word_at(s)]
                s < word_modulus() && !in_region(start.value(), slot_idx as nat, s) ==> st.word_at(s)
                    == old(st).word_at(s),
        decreases count - slot_idx,
    {
        let slot = region_slot(start, slot_idx);
        let word = if elem_bytes <= 16 {
            proof {
                let e = elements_per_slot as int;
                let x = n + e - 1;
                vstd::arithmetic::div_mod::lemma_fundamental_div_mod(x, e);
                vstd::arithmetic::div_mod::lemma_mod_pos_bound(x, e);
                assert(slot_idx * e <= n - 1) by (nonlinear_arith)
                    requires
                        slot_idx + 1 <= x / e,
                        x == e * (x / e) + x % e,
                        x % e >= 0,
                        x == n + e - 1,
                        e >= 1,
                {
                    assert((slot_idx + 1) * e <= (x / e) * e);
                }
            }
            let lo = slot_idx * elements_per_slot;
            let hi = if n - lo > elements_per_slot {
                lo + elements_per_slot
            } else {
                n
            };
            assert((hi - lo) * elem_bytes <= 32) by (nonlinear_arith)
                requires
                    hi - lo <= elements_per_slot,
                    elements_per_slot * elem_bytes <= 32,
            ;
            assert((slot_idx + 1) * elements_per_slot == lo + elements_per_slot) by (nonlinear_arith)
                requires
                    lo == slot_idx * elements_per_slot,
            ;
            let w = build_packed_slot(vals, lo, hi, elem_bytes)?;
            assert(w.value() == spec_slot_word(v, b, slot_idx as nat));
            w
        } else {
            assert(v[slot_idx as int] == vals@[slot_idx as int].value());
            vals[slot_idx]
        };
        st.store(slot, word);
        proof {
            assert forall|j: nat|
                #![trigger spec_region_slot(start.value(), j)]
                j < slot_idx + 1 implies st.word_at(spec_region_slot(start.value(), j))
                == spec_slot_word(v, b, j) by {
                if j < slot_idx {
                    lemma_region_slots_distinct(start.value(), j, slot_idx as nat);
                }
            }
            assert forall|s: nat|
                #![trigger st.word_at(s)]
                s < word_modulus() && !in_region(start.value(), (slot_idx + 1) as nat, s) implies st.word_at(s)
                == old(st).word_at(s) by {
                if in_region(start.value(), slot_idx as nat, s) {
                    let j = choose|j: nat| j < slot_idx && spec_region_slot(start.value(), j) == s;
                    assert(j < slot_idx + 1 && spec_region_slot(start.value(), j) == s);
                }
                if s == spec_region_slot(start.value(), slot_idx as nat) {
                    assert(slot_idx < slot_idx + 1);
                }
            }
        }
        slot_idx = slot_idx + 1;
    }
    Ok(())
}

/// Zeroes the first `count` slots from `start`.
pub fn clear_region(st: &mut SlotStorage, start: U256, count: usize)
    ensures
        spec_region_cleared(old(st), final(st), start.value(), count as nat),
{
    proof {
        crate::word::lemma_pow2_256();
        vstd::arithmetic::power2::lemma_pow2_strictly_increases(64, 256);
        vstd::arithmetic::power2::lemma2_to64();
    }
    let mut j: usize = 0;
    while j < count
        invariant
            j <= count,
            count < word_modulus(),
            forall|k: nat|
                #![trigger spec_region_slot(start.value(), k)]
                k < j ==> st.word_at(spec_region_slot(start.value(), k)) == 0,
            forall|s: nat|
                #![trigger st.word_at(s)]
                s < word_modulus() && !in_region(start.value(), j as nat, s) ==> st.word_at(s)
                    == old(st).word_at(s),
        decreases count - j,
    {
        let slot = region_slot(start, j);
        st.store(slot, U256::zero());
        proof {
            assert forall|k: nat|
                #![trigger spec_region_slot(start.value(), k)]
                k < j + 1 implies st.word_at(spec_region_slot(start.value(), k)) == 0 by {
                if k < j {
                    lemma_region_slots_distinct(start.value(), k, j as nat);
                }
            }
            assert forall|s: nat|
                #![trigger st.word_at(s)]
                s < word_modulus() && !in_region(start.value(), (j + 1) as nat, s) implies st.word_at(s)
                == old(st).word_at(s) by {
                if in_region(start.value(), j as nat, s) {
                    let k = choose|k: nat| k < j && spec_region_slot(start.value(), k) == s;
                    assert(k < j + 1 && spec_region_slot(start.value(), k) == s);
                }
                if s == spec_region_slot(start.value(), j as nat) {
                    assert(j < j + 1);
                }
            }
        }
        j = j + 1;
    }
}

} // verus!

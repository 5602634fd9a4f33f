//! Fixed-size arrays in storage, laid out as in Solidity: the elements start at the base
//! slot itself (not at its hash), packed when they are at most 16 bytes wide.

use vstd::arithmetic::power2::pow2;
use vstd::prelude::*;

use crate::error::Result;
use crate::primitives::Address;
use crate::storage::elements::{
    calc_slot_count, clear_region, compute_handler, lemma_elems_after_clear,
    lemma_elems_after_write, load_elements, spec_elems, spec_elems_written, spec_region_cleared,
    spec_slot_count, store_elements, word_values, ElementSlot,
};
use crate::storage::slots::SlotStorage;
use crate::word::U256;

verus! {

/// Handle on a fixed-size array of `len` elements of `elem_bytes` bytes that starts at slot
/// `base_slot` of the contract at `address`.
#[derive(Clone, Copy, Debug)]
pub struct ArrayHandler {
    base_slot: U256,
    address: Address,
    len: usize,
    elem_bytes: usize,
}

impl ArrayHandler {
    #[verifier::type_invariant]
    closed spec fn inv(self) -> bool {
        1 <= self.elem_bytes <= 32
    }

    /// The slot number where the array starts.
    pub closed spec fn slot(&self) -> nat {
        self.base_slot.value()
    }

    /// The number of elements.
    pub closed spec fn size(&self) -> nat {
        self.len as nat
    }

    /// The size of an element in bytes.
    pub closed spec fn elem_size(&self) -> nat {
        self.elem_bytes as nat
    }

    /// The contract whose storage holds the array.
    pub closed spec fn owner(&self) -> Address {
        self.address
    }

    /// The array as stored in `st`.
    pub open spec fn view_in(&self, st: &SlotStorage) -> Seq<nat> {
        spec_elems(st, self.slot(), self.elem_size(), self.size())
    }

    /// A handle on the array of `len` elements of `elem_bytes` bytes that starts at slot
    /// `base_slot` of the contract at `address`.
    pub fn new(base_slot: U256, address: Address, len: usize, elem_bytes: usize) -> (r: ArrayHandler)
        requires
            1 <= elem_bytes <= 32,
        ensures
            r.slot() == base_slot.value(),
            r.owner() == address,
            r.size() == len,
            r.elem_size() == elem_bytes,
    {
        ArrayHandler { base_slot, address, len, elem_bytes }
    }

    /// The slot where the array starts.
    pub fn base_slot(&self) -> (r: U256)
        ensures
            r.value() == self.slot(),
    {
        self.base_slot
    }

    /// The number of elements.
    pub fn len(&self) -> (r: usize)
        ensures
            r == self.size(),
    {
        self.len
    }

    /// Whether the array has no element.
    pub fn is_empty(&self) -> (r: bool)
        ensures
            r == (self.size() == 0),
    {
        self.len == 0
    }

    /// Where element `index` lives, or `None` past the end of the array.
    pub fn at(&self, index: usize) -> (r: Option<ElementSlot>)
        ensures
            index >= self.size() ==> r is None,
            index < self.size() ==> (r matches Some(h) && h.locates(
                self.slot(),
                self.elem_size(),
                index as nat,
            )),
    {
        proof {
            use_type_invariant(self);
        }
        if index >= self.len {
            return None;
        }
        Some(compute_handler(self.base_slot, self.elem_bytes, index))
    }

    /// Reads the whole array.
    pub fn read(&self, st: &SlotStorage) -> (r: Result<Vec<U256>>)
        ensures
            r matches Ok(v) && word_values(v@) == self.view_in(st),
    {
        proof {
            use_type_invariant(self);
        }
        load_elements(st, self.base_slot, self.elem_bytes, self.len)
    }

    /// Writes the whole array; `value` has exactly as many elements as the array.
    pub fn write(&self, st: &mut SlotStorage, value: Vec<U256>) -> (r: Result<()>)
        requires
            value@.len() == self.size(),
        ensures
            r is Ok,
            spec_elems_written(old(st), final(st), self.slot(), self.elem_size(), word_values(value@)),
    {
        proof {
            use_type_invariant(self);
        }
        store_elements(value.as_slice(), st, self.base_slot, self.elem_bytes)
    }

    /// Deletes the array: zeroes every slot that holds its elements, so each reads as zero.
    pub fn delete(&self, st: &mut SlotStorage) -> (r: Result<()>)
        ensures
            r is Ok,
            spec_region_cleared(
                old(st),
                final(st),
                self.slot(),
                spec_slot_count(self.elem_size(), self.size()),
            ),
            self.view_in(final(st)) == Seq::new(self.size(), |i: int| 0nat),
    {
        proof {
            use_type_invariant(self);
        }
        let count = calc_slot_count(self.elem_bytes, self.len);
        clear_region(st, self.base_slot, count);
        proof {
            lemma_elems_after_clear(*old(st), *st, self.slot(), self.elem_size(), self.size());
        }
        Ok(())
    }
}

/// Reading an array back after writing it gives what was written, when each element fits in
/// `b` bytes.
pub proof fn lemma_array_read_after_write(
    old: SlotStorage,
    new: SlotStorage,
    base: nat,
    b: nat,
    vals: Seq<nat>,
)
    requires
        1 <= b <= 32,
        spec_elems_written(&old, &new, base, b, vals),
        forall|i: int| 0 <= i < vals.len() ==> #[trigger] vals[i] < pow2(8 * b),
    ensures
        spec_elems(&new, base, b, vals.len()) == vals,
{
    lemma_elems_after_write(old, new, base, b, vals);
}

} // verus!

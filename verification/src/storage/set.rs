//! Enumerable sets in storage (OpenZeppelin's `EnumerableSet`): the elements in an array,
//! and for each element its 1-based position in a mapping, where `0` means absent.

use vstd::prelude::*;

use crate::error::{overflow, BasePrecompileError, Result};
use crate::storage::mapping::{MapKey, Mapping};

verus! {

/// Whether no element occurs twice.
pub open spec fn no_duplicates<T>(s: Seq<T>) -> bool {
    forall|i: int, j: int| 0 <= i < j < s.len() ==> s[i] != s[j]
}

/// A read-only snapshot of a stored set, ordered as in storage.
pub struct StorageSet<T> {
    elems: Vec<T>,
}

impl<T> View for StorageSet<T> {
    type V = Seq<T>;

    closed spec fn view(&self) -> Seq<T> {
        self.elems@
    }
}

impl<T> StorageSet<T> {
    #[verifier::type_invariant]
    closed spec fn inv(self) -> bool {
        no_duplicates(self.elems@)
    }

    /// An empty set.
    pub fn new() -> (r: StorageSet<T>)
        ensures
            r@ == Seq::<T>::empty(),
    {
        StorageSet { elems: Vec::new() }
    }

    /// A set of the elements of `vec`, which must not hold any element twice: a duplicate
    /// would share one position in storage and corrupt later removals.
    pub fn new_unchecked(vec: Vec<T>) -> (r: StorageSet<T>)
        requires
            no_duplicates(vec@),
        ensures
            r@ == vec@,
    {
        StorageSet { elems: vec }
    }

    /// The number of elements.
    pub fn len(&self) -> (r: usize)
        ensures
            r == self@.len(),
    {
        self.elems.len()
    }

    /// The elements, in storage order.
    pub fn as_slice(&self) -> (r: &[T])
        ensures
            r@ == self@,
            no_duplicates(r@),
    {
        proof {
            use_type_invariant(self);
        }
        self.elems.as_slice()
    }

    /// The elements as a vector.
    pub fn into_vec(self) -> (r: Vec<T>)
        ensures
            r@ == self@,
            no_duplicates(r@),
    {
        proof {
            use_type_invariant(&self);
        }
        self.elems
    }
}

/// The 1-based storage position of the element at 0-based `index`; fails with an overflow
/// panic when it does not fit in `u32`, where it would collide with the absent marker `0`.
pub fn checked_position(index: usize) -> (r: Result<u32>)
    ensures
        index < u32::MAX ==> r == Ok::<u32, BasePrecompileError>((index + 1) as u32),
        index >= u32::MAX ==> r == Err::<u32, BasePrecompileError>(overflow()),
{
    if index >= u32::MAX as usize {
        return Err(BasePrecompileError::under_overflow());
    }
    let i = index as u32;
    match i.checked_add(1) {
        Some(p) => Ok(p),
        None => Err(BasePrecompileError::under_overflow()),
    }
}


/// Whether some element of `s` has the view `k`.
pub open spec fn holds_key<T: View>(s: Seq<T>, k: T::V) -> bool {
    exists|i: int| 0 <= i < s.len() && #[trigger] s[i]@ == k
}

/// Whether no two elements of `s` share a view.
pub open spec fn distinct_views<T: View>(s: Seq<T>) -> bool {
    forall|i: int, j: int| 0 <= i < j < s.len() ==> (#[trigger] s[i])@ != (#[trigger] s[j])@
}

/// The sequence after removing element `i` by moving the last element into its place.
pub open spec fn swap_remove<T>(s: Seq<T>, i: int) -> Seq<T> {
    s.update(i, s.last()).drop_last()
}

/// An enumerable set as stored: the elements in order, and for each element its 1-based
/// position (`0` for a value that is not an element).
pub struct SetHandler<T: MapKey + Copy> {
    values: Vec<T>,
    positions: Mapping<T, u32>,
}

impl<T: MapKey + Copy> View for SetHandler<T> {
    type V = Seq<T>;

    closed spec fn view(&self) -> Seq<T> {
        self.values@
    }
}

impl<T: MapKey + Copy> SetHandler<T> {
    /// The elements are distinct and at most `u32::MAX` many, and every value's position
    /// is `0` when it is not an element and its 1-based index when it is.
    #[verifier::type_invariant]
    closed spec fn inv(self) -> bool {
        &&& self.values@.len() <= u32::MAX
        &&& distinct_views(self.values@)
        &&& forall|i: int|
            #![trigger self.values@[i]]
            0 <= i < self.values@.len() ==> self.positions.get(self.values@[i]@) == i + 1
        &&& forall|k: T::V|
            #![trigger self.positions.get(k)]
            !holds_key(self.values@, k) ==> self.positions.get(k) == 0
    }

    /// The index of the element with view `k`.
    pub open spec fn index_of(&self, k: T::V) -> int {
        choose|i: int| 0 <= i < self@.len() && self@[i]@ == k
    }

    /// An empty set.
    pub fn new() -> (r: SetHandler<T>)
        ensures
            r@ == Seq::<T>::empty(),
    {
        SetHandler { values: Vec::new(), positions: Mapping::new() }
    }

    /// The number of elements.
    pub fn len(&self) -> (r: Result<usize>)
        ensures
            r == Ok::<usize, BasePrecompileError>(self@.len() as usize),
    {
        Ok(self.values.len())
    }

    /// Whether the set is empty.
    pub fn is_empty(&self) -> (r: Result<bool>)
        ensures
            r == Ok::<bool, BasePrecompileError>(self@.len() == 0),
    {
        Ok(self.values.len() == 0)
    }

    /// Whether `value` is an element.
    pub fn contains(&self, value: &T) -> (r: Result<bool>)
        ensures
            r == Ok::<bool, BasePrecompileError>(holds_key(self@, value@)),
    {
        proof {
            use_type_invariant(self);
        }
        let pos = self.positions.read(value);
        proof {
            if holds_key(self.values@, value@) {
                let i = choose|i: int| 0 <= i < self.values@.len() && self.values@[i]@ == value@;
                assert(self.positions.get(self.values@[i]@) == i + 1);
            }
        }
        Ok(pos != 0)
    }

    /// Inserts `value`: `true` when it was added, `false` when it already was an element.
    /// Fails with an overflow panic when the set already holds `u32::MAX` elements.
    pub fn insert(&mut self, value: T) -> (r: Result<bool>)
        ensures
            holds_key(old(self)@, value@) ==> r == Ok::<bool, BasePrecompileError>(false)
                && final(self)@ == old(self)@,
            !holds_key(old(self)@, value@) && old(self)@.len() >= u32::MAX ==> r == Err::<
                bool,
                BasePrecompileError,
            >(overflow()) && final(self)@ == old(self)@,
            !holds_key(old(self)@, value@) && old(self)@.len() < u32::MAX ==> r == Ok::<
                bool,
                BasePrecompileError,
            >(true) && final(self)@ == old(self)@.push(value),
            distinct_views(final(self)@),
    {
        proof {
            use_type_invariant(&*self);
        }
        if self.contains(&value)? {
            return Ok(false);
        }
        let length = self.values.len();
        let position = checked_position(length)?;
        let mut taken: SetHandler<T> = SetHandler::new();
        std::mem::swap(&mut taken, self);
        proof {
            use_type_invariant(&taken);
        }
        let SetHandler { mut values, mut positions } = taken;
        let ghost old_values = values@;
        let ghost old_positions = positions;
        positions.write(value, position);
        values.push(value);
        proof {
            assert(values@ == old_values.push(value));
            assert forall|i: int, j: int| 0 <= i < j < values@.len() implies (
            #[trigger] values@[i])@ != (#[trigger] values@[j])@ by {
                if j == values@.len() - 1 {
                    assert(values@[i] == old_values[i]);
                    if old_values[i]@ == value@ {
                        assert(holds_key(old_values, value@));
                    }
                } else {
                    assert(values@[i] == old_values[i] && values@[j] == old_values[j]);
                }
            }
            assert forall|i: int| 0 <= i < values@.len() implies #[trigger] positions.get(
                values@[i]@,
            ) == i + 1 by {
                if i < old_values.len() {
                    assert(values@[i] == old_values[i]);
                    if old_values[i]@ == value@ {
                        assert(holds_key(old_values, value@));
                    }
                    assert(old_positions.get(old_values[i]@) == i + 1);
                }
            }
            assert forall|k: T::V| !holds_key(values@, k) implies #[trigger] positions.get(k)
                == 0 by {
                assert(values@[values@.len() - 1]@ == value@);
                if holds_key(old_values, k) {
                    let i = choose|i: int| 0 <= i < old_values.len() && old_values[i]@ == k;
                    assert(values@[i] == old_values[i]);
                    assert(values@[i]@ == k);
                }
                assert(old_positions.get(k) == 0);
            }
        }
        *self = SetHandler { values, positions };
        Ok(true)
    }

    /// Removes `value`: `true` when it was an element, `false` otherwise. The last element
    /// moves into the vacated place, so order is not preserved.
    pub fn remove(&mut self, value: &T) -> (r: Result<bool>)
        ensures
            !holds_key(old(self)@, value@) ==> r == Ok::<bool, BasePrecompileError>(false)
                && final(self)@ == old(self)@,
            holds_key(old(self)@, value@) ==> r == Ok::<bool, BasePrecompileError>(true)
                && final(self)@ == swap_remove(old(self)@, old(self).index_of(value@)),
            !holds_key(final(self)@, value@),
            distinct_views(final(self)@),
    {
        proof {
            use_type_invariant(&*self);
        }
        let position = self.positions.read(value);
        if position == 0 {
            proof {
                if holds_key(self.values@, value@) {
                    let i = choose|i: int| 0 <= i < self.values@.len() && self.values@[i]@ == value@;
                    assert(self.positions.get(self.values@[i]@) == i + 1);
                }
            }
            return Ok(false);
        }
        let ghost old_values = self.values@;
        proof {
            assert(distinct_views(old_values));
        }
        let ghost idx = self.index_of(value@);
        proof {
            assert(holds_key(old_values, value@));
            assert(self.positions.get(old_values[idx]@) == idx + 1);
        }
        let len = self.values.len();
        let last_index = len - 1;
        let index = (position - 1) as usize;
        assert(index == idx);
        let mut taken: SetHandler<T> = SetHandler::new();
        std::mem::swap(&mut taken, self);
        proof {
            use_type_invariant(&taken);
        }
        let SetHandler { mut values, mut positions } = taken;
        let ghost p0 = positions;
        if index != last_index {
            let last_value = values[last_index];
            positions.write(last_value, position);
            values.set(index, last_value);
        }
        values.pop();
        positions.write(*value, 0);
        proof {
            let t = swap_remove(old_values, idx);
            assert(values@ =~= t);
            assert(!holds_key(values@, value@)) by {
                if holds_key(values@, value@) {
                    let i = choose|i: int| 0 <= i < values@.len() && values@[i]@ == value@;
                    let i2 = if i == idx { last_index as int } else { i };
                    assert(values@[i] == old_values[i2]);
                    assert(i2 != idx);
                    if i2 < idx {
                        assert(old_values[i2]@ != old_values[idx]@);
                    } else {
                        assert(old_values[idx]@ != old_values[i2]@);
                    }
                }
            }
            assert forall|i: int, j: int| 0 <= i < j < values@.len() implies (
            #[trigger] values@[i])@ != (#[trigger] values@[j])@ by {
                let i2 = if i == idx { last_index as int } else { i };
                let j2 = if j == idx { last_index as int } else { j };
                assert(values@[i] == old_values[i2]);
                assert(values@[j] == old_values[j2]);
            }
            assert forall|i: int| 0 <= i < values@.len() implies #[trigger] positions.get(
                values@[i]@,
            ) == i + 1 by {
                if i == idx {
                    assert(values@[i] == old_values[last_index as int]);
                    assert(old_values[last_index as int]@ != value@);
                } else {
                    assert(values@[i] == old_values[i]);
                    assert(old_values[i]@ != value@);
                    if idx != last_index {
                        assert(old_values[i]@ != old_values[last_index as int]@);
                    }
                }
            }
            assert forall|k: T::V| !holds_key(values@, k) implies #[trigger] positions.get(k)
                == 0 by {
                if k != value@ {
                    if holds_key(old_values, k) {
                        let i = choose|i: int| 0 <= i < old_values.len() && old_values[i]@ == k;
                        if i == last_index {
                            assert(values@[idx] == old_values[i]);
                        } else {
                            assert(i != idx);
                            assert(values@[i] == old_values[i]);
                        }
                    } else {
                        assert(p0.get(k) == 0);
                        if idx != last_index {
                            assert(k != old_values[last_index as int]@);
                        }
                    }
                }
            }
        }
        *self = SetHandler { values, positions };
        Ok(true)
    }

    /// The element at `index`, or `None` when out of bounds.
    pub fn at(&self, index: usize) -> (r: Result<Option<T>>)
        ensures
            index < self@.len() ==> r == Ok::<Option<T>, BasePrecompileError>(Some(self@[index as int])),
            index >= self@.len() ==> r == Ok::<Option<T>, BasePrecompileError>(None),
    {
        if index >= self.values.len() {
            return Ok(None);
        }
        Ok(Some(self.values[index]))
    }

    /// The elements from `start` up to `end`, both clamped to the length.
    pub fn read_range(&self, start: usize, end: usize) -> (r: Result<Vec<T>>)
        ensures
            ({
                let e = if end < self@.len() { end as int } else { self@.len() as int };
                let s = if start < e { start as int } else { e };
                r matches Ok(v) && v@ == self@.subrange(s, e)
            }),
    {
        let len = self.values.len();
        let end = if end < len {
            end
        } else {
            len
        };
        let start = if start < end {
            start
        } else {
            end
        };
        let mut result: Vec<T> = Vec::new();
        let mut i = start;
        while i < end
            invariant
                start <= i <= end,
                end <= self.values@.len(),
                result@ == self.values@.subrange(start as int, i as int),
            decreases end - i,
        {
            result.push(self.values[i]);
            i = i + 1;
        }
        Ok(result)
    }

    /// All elements, in storage order.
    pub fn read(&self) -> (r: Result<StorageSet<T>>)
        ensures
            r matches Ok(s) && s@ == self@,
    {
        proof {
            use_type_invariant(self);
        }
        let v = self.read_range(0, self.values.len())?;
        proof {
            assert(v@ =~= self.values@);
            assert forall|i: int, j: int| 0 <= i < j < v@.len() implies v@[i] != v@[j] by {
                assert(v@[i]@ != v@[j]@);
            }
        }
        Ok(StorageSet::new_unchecked(v))
    }

    /// Removes every element.
    pub fn delete(&mut self) -> (r: Result<()>)
        ensures
            r is Ok,
            final(self)@ == Seq::<T>::empty(),
    {
        *self = SetHandler::new();
        Ok(())
    }

    /// Replaces the elements by those of `set`, in its order. A set of more than
    /// `u32::MAX` elements cannot be stored: it fails with an overflow panic and leaves the
    /// set unchanged.
    pub fn write(&mut self, set: StorageSet<T>) -> (r: Result<()>)
        ensures
            set@.len() <= u32::MAX ==> r is Ok && final(self)@ == set@,
            set@.len() > u32::MAX ==> r == Err::<(), BasePrecompileError>(overflow())
                && final(self)@ == old(self)@,
    {
        let new_values = set.into_vec();
        if new_values.len() > u32::MAX as usize {
            return Err(BasePrecompileError::under_overflow());
        }
        let mut positions: Mapping<T, u32> = Mapping::new();
        let mut i: usize = 0;
        while i < new_values.len()
            invariant
                i <= new_values@.len() <= u32::MAX,
                no_duplicates(new_values@),
                forall|j: int|
                    #![trigger new_values@[j]]
                    0 <= j < i ==> positions.get(new_values@[j]@) == j + 1,
                forall|k: T::V|
                    #![trigger positions.get(k)]
                    !holds_key(new_values@.subrange(0, i as int), k) ==> positions.get(k) == 0,
            decreases new_values@.len() - i,
        {
            let v = new_values[i];
            let ghost p0 = positions;
            positions.write(v, (i + 1) as u32);
            proof {
                assert forall|j: int| 0 <= j < i + 1 implies #[trigger] positions.get(
                    new_values@[j]@,
                ) == j + 1 by {
                    if j < i {
                        if new_values@[j]@ == v@ {
                            T::lemma_view_injective(new_values@[j], v);
                        }
                    }
                }
                assert forall|k: T::V| !holds_key(new_values@.subrange(0, i + 1), k) implies #[trigger] positions.get(k) == 0 by {
                    let next = new_values@.subrange(0, i + 1);
                    let prev = new_values@.subrange(0, i as int);
                    assert(next[i as int]@ == v@);
                    if holds_key(prev, k) {
                        let j = choose|j: int| 0 <= j < prev.len() && prev[j]@ == k;
                        assert(next[j] == prev[j]);
                        assert(next[j]@ == k);
                    }
                    assert(k != v@);
                    assert(p0.get(k) == 0);
                }
            }
            i = i + 1;
        }
        proof {
            assert(new_values@.subrange(0, new_values@.len() as int) =~= new_values@);
            assert forall|a: int, b: int| 0 <= a < b < new_values@.len() implies (
            #[trigger] new_values@[a])@ != (#[trigger] new_values@[b])@ by {
                if new_values@[a]@ == new_values@[b]@ {
                    T::lemma_view_injective(new_values@[a], new_values@[b]);
                }
            }
        }
        *self = SetHandler { values: new_values, positions };
        Ok(())
    }
}

} // verus!

//! Storage mappings: keyed storage in which every key that was never written reads as zero.

use vstd::prelude::*;

use crate::primitives::{Address, B256};
use crate::word::U256;

verus! {

/// A key of a storage mapping: a value whose identity is its view.
pub trait MapKey: View + Sized {
    /// Whether `self` and `other` denote the same key.
    fn same_key(&self, other: &Self) -> (r: bool)
        ensures
            r == (self@ == other@),
    ;

    /// Keys with the same view are the same key.
    proof fn lemma_view_injective(a: Self, b: Self)
        requires
            a@ == b@,
        ensures
            a == b,
    ;
}

impl MapKey for u64 {
    fn same_key(&self, other: &Self) -> (r: bool) {
        *self == *other
    }

    proof fn lemma_view_injective(a: Self, b: Self) {
    }
}

impl MapKey for u32 {
    fn same_key(&self, other: &Self) -> (r: bool) {
        *self == *other
    }

    proof fn lemma_view_injective(a: Self, b: Self) {
    }
}

impl MapKey for Address {
    fn same_key(&self, other: &Self) -> (r: bool) {
        self.same(other)
    }

    proof fn lemma_view_injective(a: Self, b: Self) {
        crate::primitives::lemma_address_eq(a, b);
    }
}

impl MapKey for B256 {
    fn same_key(&self, other: &Self) -> (r: bool) {
        self.same(other)
    }

    proof fn lemma_view_injective(a: Self, b: Self) {
        crate::primitives::lemma_b256_eq(a, b);
    }
}

impl<A: MapKey, B: MapKey> MapKey for (A, B) {
    fn same_key(&self, other: &Self) -> (r: bool) {
        self.0.same_key(&other.0) && self.1.same_key(&other.1)
    }

    proof fn lemma_view_injective(a: Self, b: Self) {
        A::lemma_view_injective(a.0, b.0);
        B::lemma_view_injective(a.1, b.1);
    }
}

/// A value that can live in storage, with the value that an unwritten slot reads as.
pub trait StorageValue: Copy + Sized {
    /// The value of a slot that was never written.
    spec fn spec_zero() -> Self;

    /// The value of a slot that was never written.
    fn zero_value() -> (r: Self)
        ensures
            r == Self::spec_zero(),
    ;

    /// The amount this value contributes to the total of a mapping (the number a word denotes;
    /// zero for values that are not amounts).
    spec fn weight(self) -> nat;

    /// A slot that was never written contributes nothing.
    proof fn lemma_zero_weight()
        ensures
            Self::spec_zero().weight() == 0,
    ;
}

impl StorageValue for U256 {
    open spec fn spec_zero() -> U256 {
        U256::spec_zero_word()
    }

    fn zero_value() -> (r: U256) {
        U256::zero_word()
    }

    open spec fn weight(self) -> nat {
        self.value()
    }

    proof fn lemma_zero_weight() {
        U256::lemma_spec_zero_word();
    }
}

impl StorageValue for u32 {
    open spec fn spec_zero() -> u32 {
        0
    }

    fn zero_value() -> (r: u32) {
        0
    }

    open spec fn weight(self) -> nat {
        0
    }

    proof fn lemma_zero_weight() {
    }
}

impl StorageValue for bool {
    open spec fn spec_zero() -> bool {
        false
    }

    fn zero_value() -> (r: bool) {
        false
    }

    open spec fn weight(self) -> nat {
        0
    }

    proof fn lemma_zero_weight() {
    }
}

impl StorageValue for u64 {
    open spec fn spec_zero() -> u64 {
        0
    }

    fn zero_value() -> (r: u64) {
        0
    }

    open spec fn weight(self) -> nat {
        0
    }

    proof fn lemma_zero_weight() {
    }
}

impl StorageValue for u128 {
    open spec fn spec_zero() -> u128 {
        0
    }

    fn zero_value() -> (r: u128) {
        0
    }

    open spec fn weight(self) -> nat {
        0
    }

    proof fn lemma_zero_weight() {
    }
}

impl StorageValue for B256 {
    open spec fn spec_zero() -> B256 {
        B256 { bytes: vstd::array::spec_array_fill_for_copy_type::<u8, 32>(0u8) }
    }

    fn zero_value() -> (r: B256) {
        B256 { bytes: [0u8; 32] }
    }

    open spec fn weight(self) -> nat {
        0
    }

    proof fn lemma_zero_weight() {
    }
}

/// The map denoted by a list of entries with distinct keys.
pub open spec fn entries_map<K: View, V>(s: Seq<(K, V)>) -> Map<K::V, V>
    decreases s.len(),
{
    if s.len() == 0 {
        Map::empty()
    } else {
        entries_map(s.drop_last()).insert(s.last().0@, s.last().1)
    }
}

/// Whether the keys of a list of entries are pairwise distinct.
pub open spec fn distinct_keys<K: View, V>(s: Seq<(K, V)>) -> bool {
    forall|i: int, j: int| 0 <= i < j < s.len() ==> s[i].0@ != s[j].0@
}

/// A key is in the map of the entries exactly when some entry has it, and then the map holds
/// that entry's value.
pub(crate) proof fn lemma_entries_map<K: View, V>(s: Seq<(K, V)>)
    requires
        distinct_keys(s),
    ensures
        forall|k: K::V|
            #![trigger entries_map(s).contains_key(k)]
            entries_map(s).contains_key(k) <==> exists|i: int| 0 <= i < s.len() && s[i].0@ == k,
        forall|i: int|
            #![trigger s[i]]
            0 <= i < s.len() ==> entries_map(s).contains_key(s[i].0@) && entries_map(s)[s[i].0@]
                == s[i].1,
    decreases s.len(),
{
    if s.len() > 0 {
        let p = s.drop_last();
        assert(distinct_keys(p));
        lemma_entries_map(p);
        assert forall|k: K::V| entries_map(s).contains_key(k) <==> exists|i: int|
            0 <= i < s.len() && s[i].0@ == k by {
            if entries_map(s).contains_key(k) {
                if k == s.last().0@ {
                    assert(s[s.len() - 1].0@ == k);
                } else {
                    assert(entries_map(p).contains_key(k));
                    let i = choose|i: int| 0 <= i < p.len() && p[i].0@ == k;
                    assert(s[i].0@ == k);
                }
            }
            if exists|i: int| 0 <= i < s.len() && s[i].0@ == k {
                let i = choose|i: int| 0 <= i < s.len() && s[i].0@ == k;
                if i < s.len() - 1 {
                    assert(p[i].0@ == k);
                }
            }
        }
        assert forall|i: int| 0 <= i < s.len() implies entries_map(s).contains_key(s[i].0@)
            && entries_map(s)[s[i].0@] == s[i].1 by {
            if i < s.len() - 1 {
                assert(p[i] == s[i]);
                assert(s[i].0@ != s.last().0@);
            }
        }
    }
}

/// The total weight of the values of a list of entries.
pub open spec fn entries_total<K, V: StorageValue>(s: Seq<(K, V)>) -> nat
    decreases s.len(),
{
    if s.len() == 0 {
        0
    } else {
        entries_total(s.drop_last()) + s.last().1.weight()
    }
}

/// Each entry weighs at most the total.
proof fn lemma_entry_le_total<K, V: StorageValue>(s: Seq<(K, V)>, i: int)
    requires
        0 <= i < s.len(),
    ensures
        s[i].1.weight() <= entries_total(s),
    decreases s.len(),
{
    if i < s.len() - 1 {
        lemma_entry_le_total(s.drop_last(), i);
    }
}

/// The value that the entries map a key to weighs at most the total.
proof fn lemma_entries_map_value_le_total<K: View, V: StorageValue>(s: Seq<(K, V)>, k: K::V)
    requires
        entries_map(s).contains_key(k),
    ensures
        entries_map(s)[k].weight() <= entries_total(s),
    decreases s.len(),
{
    if s.len() > 0 && s.last().0@ != k {
        lemma_entries_map_value_le_total(s.drop_last(), k);
    }
}

/// Replacing one entry changes the total by the difference of the weights.
proof fn lemma_entries_total_update<K, V: StorageValue>(s: Seq<(K, V)>, i: int, e: (K, V))
    requires
        0 <= i < s.len(),
    ensures
        entries_total(s.update(i, e)) == entries_total(s) - s[i].1.weight() + e.1.weight(),
    decreases s.len(),
{
    let t = s.update(i, e);
    if i == s.len() - 1 {
        assert(t.drop_last() =~= s.drop_last());
    } else {
        lemma_entries_total_update(s.drop_last(), i, e);
        assert(t.drop_last() =~= s.drop_last().update(i, e));
    }
}

/// Replacing the value of an existing entry replaces it in the map.
pub(crate) proof fn lemma_entries_map_update<K: View, V>(s: Seq<(K, V)>, i: int, e: (K, V))
    requires
        distinct_keys(s),
        0 <= i < s.len(),
        s[i].0@ == e.0@,
    ensures
        distinct_keys(s.update(i, e)),
        entries_map(s.update(i, e)) == entries_map(s).insert(e.0@, e.1),
{
    let t = s.update(i, e);
    assert(distinct_keys(t)) by {
        assert forall|a: int, b: int| 0 <= a < b < t.len() implies t[a].0@ != t[b].0@ by {
            assert(s[a].0@ != s[b].0@);
        }
    }
    lemma_entries_map(s);
    lemma_entries_map(t);
    let m = entries_map(s).insert(e.0@, e.1);
    assert forall|k: K::V| #[trigger] entries_map(t).contains_key(k) == m.contains_key(k) by {
        if k == e.0@ {
            assert(t[i].0@ == k);
        }
        if m.contains_key(k) && k != e.0@ {
            assert(entries_map(s).contains_key(k));
            let j = choose|j: int| 0 <= j < s.len() && s[j].0@ == k;
            assert(t[j].0@ == k);
        }
        if entries_map(t).contains_key(k) {
            let j = choose|j: int| 0 <= j < t.len() && t[j].0@ == k;
            if j != i {
                assert(s[j] == t[j]);
            }
        }
    }
    assert forall|k: K::V| #[trigger] entries_map(t).contains_key(k) implies entries_map(t)[k]
        == m[k] by {
        let j = choose|j: int| 0 <= j < t.len() && t[j].0@ == k;
        assert(t[j] == t[j]);
        if j != i {
            assert(s[j] == t[j]);
        }
    }
    assert(entries_map(t) =~= m);
}

/// A storage mapping from keys `K` to values `V`. A key that was never written reads as
/// `V::spec_zero()`.
pub struct Mapping<K: MapKey, V: StorageValue> {
    entries: Vec<(K, V)>,
}

impl<K: MapKey, V: StorageValue> View for Mapping<K, V> {
    type V = Map<K::V, V>;

    closed spec fn view(&self) -> Map<K::V, V> {
        entries_map(self.entries@)
    }
}

impl<K: MapKey, V: StorageValue> Mapping<K, V> {
    #[verifier::type_invariant]
    closed spec fn inv(self) -> bool {
        distinct_keys(self.entries@)
    }

    /// The value stored under key `k` (zero when `k` was never written).
    pub open spec fn get(self, k: K::V) -> V {
        if self@.contains_key(k) {
            self@[k]
        } else {
            V::spec_zero()
        }
    }

    /// The sum of the weights of all values stored in the mapping.
    pub closed spec fn total(self) -> nat {
        entries_total(self.entries@)
    }

    /// No single value weighs more than the total.
    pub proof fn lemma_get_le_total(self, k: K::V)
        ensures
            self.get(k).weight() <= self.total(),
    {
        if self@.contains_key(k) {
            lemma_entries_map_value_le_total(self.entries@, k);
        } else {
            V::lemma_zero_weight();
        }
    }

    /// An empty mapping: every key reads as zero.
    pub fn new() -> (r: Self)
        ensures
            r@ == Map::<K::V, V>::empty(),
            r.total() == 0,
    {
        let r = Mapping { entries: Vec::new() };
        assert(r@ =~= Map::<K::V, V>::empty());
        r
    }

    /// The index of the entry holding key `k`, if any.
    fn find(&self, k: &K) -> (r: Option<usize>)
        ensures
            r matches Some(i) ==> i < self.entries@.len() && self.entries@[i as int].0@ == k@,
            r is None ==> forall|i: int| 0 <= i < self.entries@.len() ==> self.entries@[i].0@ != k@,
    {
        let mut i: usize = 0;
        while i < self.entries.len()
            invariant
                i <= self.entries@.len(),
                forall|j: int| 0 <= j < i ==> self.entries@[j].0@ != k@,
            decreases self.entries@.len() - i,
        {
            if self.entries[i].0.same_key(k) {
                return Some(i);
            }
            i = i + 1;
        }
        None
    }

    /// Reads the value under key `k` (zero when never written).
    pub fn read(&self, k: &K) -> (r: V)
        ensures
            r == self.get(k@),
            r.weight() <= self.total(),
    {
        proof {
            use_type_invariant(self);
            lemma_entries_map(self.entries@);
        }
        match self.find(k) {
            Some(i) => {
                proof {
                    lemma_entry_le_total(self.entries@, i as int);
                }
                self.entries[i].1
            },
            None => {
                proof {
                    V::lemma_zero_weight();
                }
                V::zero_value()
            },
        }
    }

    /// Writes `v` under key `k`.
    pub fn write(&mut self, k: K, v: V)
        ensures
            final(self)@ == old(self)@.insert(k@, v),
            final(self).total() == old(self).total() - old(self).get(k@).weight() + v.weight(),
    {
        proof {
            use_type_invariant(&*self);
            lemma_entries_map(self.entries@);
        }
        let ghost old_entries = self.entries@;
        match self.find(&k) {
            Some(i) => {
                let mut entries: Vec<(K, V)> = Vec::new();
                std::mem::swap(&mut entries, &mut self.entries);
                entries.set(i, (k, v));
                proof {
                    lemma_entries_map_update(old_entries, i as int, (k, v));
                    lemma_entries_total_update(old_entries, i as int, (k, v));
                    assert(entries@ == old_entries.update(i as int, (k, v)));
                }
                self.entries = entries;
            },
            None => {
                let mut entries: Vec<(K, V)> = Vec::new();
                std::mem::swap(&mut entries, &mut self.entries);
                entries.push((k, v));
                proof {
                    assert(entries@.drop_last() =~= old_entries);
                    assert(distinct_keys(entries@));
                    assert(!entries_map(old_entries).contains_key(k@));
                    V::lemma_zero_weight();
                }
                self.entries = entries;
            },
        }
    }
}

} // verus!

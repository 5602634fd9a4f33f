//! Contract storage as slots: 32-byte words under 256-bit slot numbers.

use vstd::prelude::*;

use crate::primitives::B256;
use crate::storage::mapping::Mapping;
use crate::word::{lemma_value_bound, lemma_word_bytes_round_trip, spec_word_bytes, word_modulus, U256};

verus! {

/// The storage of one contract: every slot holds a word, zero until written.
pub struct SlotStorage {
    words: Mapping<B256, U256>,
}

impl SlotStorage {
    /// The word in slot `slot`.
    pub closed spec fn word_at(&self, slot: nat) -> nat {
        self.words.get(spec_word_bytes(slot)).value()
    }

    /// Every slot holds a word below `2^256`.
    pub proof fn lemma_word_bound(&self, slot: nat)
        ensures
            self.word_at(slot) < word_modulus(),
    {
        lemma_value_bound(self.words.get(spec_word_bytes(slot)));
    }

    /// Storage where every slot holds zero.
    pub fn new() -> (r: SlotStorage)
        ensures
            forall|s: nat| r.word_at(s) == 0,
    {
        let r = SlotStorage { words: Mapping::new() };
        assert forall|s: nat| r.word_at(s) == 0 by {
            U256::lemma_spec_zero_word();
        }
        r
    }

    /// Reads the word in `slot`.
    pub fn load(&self, slot: U256) -> (r: U256)
        ensures
            r.value() == self.word_at(slot.value()),
    {
        let key = B256::from_bytes(slot.to_be_bytes());
        self.words.read(&key)
    }

    /// Writes `value` into `slot`; every other slot keeps its word.
    pub fn store(&mut self, slot: U256, value: U256)
        ensures
            final(self).word_at(slot.value()) == value.value(),
            forall|s: nat|
                #![trigger final(self).word_at(s)]
                s < word_modulus() && s != slot.value() ==> final(self).word_at(s) == old(
                    self,
                ).word_at(s),
    {
        let key = B256::from_bytes(slot.to_be_bytes());
        self.words.write(key, value);
        proof {
            lemma_value_bound(slot);
            assert forall|s: nat|
                #![trigger self.word_at(s)]
                s < word_modulus() && s != slot.value() implies self.word_at(s) == old(
                self,
            ).word_at(s) by {
                lemma_word_bytes_round_trip(s, spec_word_bytes(slot.value()));
                lemma_word_bytes_round_trip(slot.value(), spec_word_bytes(s));
            }
        }
    }
}

} // verus!

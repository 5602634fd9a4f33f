//! The B20 tokens of a chain, and the factory that creates them.
//!
//! [`B20Tokens`] holds the storage of every token that was written, keyed by address; a
//! token address that holds nothing reads as a fresh, uninitialized token.

use vstd::prelude::*;

use crate::address::{is_b20_prefix, spec_has_b20_prefix};
use crate::b20::B20Token;
use crate::error::{b20_err, B20Error, BasePrecompileError, Result};
use crate::primitives::Address;
use crate::spec::BaseBSpec;
use crate::storage::mapping::{distinct_keys, entries_map, lemma_entries_map, lemma_entries_map_update};

verus! {

/// The B20 tokens of a chain, keyed by address.
pub struct B20Tokens {
    spec: BaseBSpec,
    entries: Vec<(Address, B20Token)>,
}

impl View for B20Tokens {
    type V = Map<Seq<u8>, B20Token>;

    closed spec fn view(&self) -> Map<Seq<u8>, B20Token> {
        entries_map(self.entries@)
    }
}

/// Removing an entry removes its key from the map of the entries.
proof fn lemma_entries_map_remove<K: View, V>(s: Seq<(K, V)>, i: int)
    requires
        distinct_keys(s),
        0 <= i < s.len(),
    ensures
        distinct_keys(s.remove(i)),
        entries_map(s.remove(i)) == entries_map(s).remove(s[i].0@),
{
    let t = s.remove(i);
    assert(distinct_keys(t)) by {
        assert forall|a: int, b: int| 0 <= a < b < t.len() implies t[a].0@ != t[b].0@ by {
            let a2 = if a < i { a } else { a + 1 };
            let b2 = if b < i { b } else { b + 1 };
            assert(t[a] == s[a2] && t[b] == s[b2]);
        }
    }
    lemma_entries_map(s);
    lemma_entries_map(t);
    let m = entries_map(s).remove(s[i].0@);
    assert forall|k: K::V| #[trigger] entries_map(t).contains_key(k) == m.contains_key(k) by {
        if entries_map(t).contains_key(k) {
            let j = choose|j: int| 0 <= j < t.len() && t[j].0@ == k;
            let j2 = if j < i { j } else { j + 1 };
            assert(t[j] == s[j2]);
        }
        if m.contains_key(k) {
            let j = choose|j: int| 0 <= j < s.len() && s[j].0@ == k;
            assert(j != i);
            let j2 = if j < i { j } else { j - 1 };
            assert(t[j2] == s[j]);
        }
    }
    assert forall|k: K::V| #[trigger] entries_map(t).contains_key(k) implies entries_map(t)[k]
        == m[k] by {
        let j = choose|j: int| 0 <= j < t.len() && t[j].0@ == k;
        let j2 = if j < i { j } else { j + 1 };
        assert(t[j] == s[j2]);
    }
    assert(entries_map(t) =~= m);
}

impl B20Tokens {
    #[verifier::type_invariant]
    closed spec fn inv(self) -> bool {
        &&& distinct_keys(self.entries@)
        &&& forall|i: int|
            #![trigger self.entries@[i]]
            0 <= i < self.entries@.len() ==> {
                &&& self.entries@[i].0 == self.entries@[i].1.address
                &&& self.entries@[i].1.wf()
                &&& self.entries@[i].1.spec == self.spec
            }
    }

    /// `t` is the token that this store holds at `address`: the stored one, or a fresh one
    /// when nothing was stored there.
    pub open spec fn holds_token(&self, address: Seq<u8>, t: B20Token) -> bool {
        if self@.contains_key(address) {
            t == self@[address]
        } else {
            t.is_fresh(address, self.hardfork())
        }
    }

    /// The active hardfork of every token in the store.
    pub closed spec fn hardfork(&self) -> BaseBSpec {
        self.spec
    }

    /// The active hardfork of every token in the store.
    pub fn spec(&self) -> (r: BaseBSpec)
        ensures
            r == self.hardfork(),
    {
        self.spec
    }

    /// An empty store.
    pub fn new(spec: BaseBSpec) -> (r: B20Tokens)
        ensures
            r.hardfork() == spec,
            r@ == Map::<Seq<u8>, B20Token>::empty(),
    {
        let r = B20Tokens { spec, entries: Vec::new() };
        assert(r@ =~= Map::<Seq<u8>, B20Token>::empty());
        r
    }

    fn find(&self, address: &Address) -> (r: Option<usize>)
        ensures
            r matches Some(i) ==> i < self.entries@.len() && self.entries@[i as int].0@ == address@,
            r is None ==> forall|i: int|
                0 <= i < self.entries@.len() ==> self.entries@[i].0@ != address@,
    {
        let mut i: usize = 0;
        while i < self.entries.len()
            invariant
                i <= self.entries@.len(),
                forall|j: int| 0 <= j < i ==> self.entries@[j].0@ != address@,
            decreases self.entries@.len() - i,
        {
            if self.entries[i].0.same(address) {
                return Some(i);
            }
            i = i + 1;
        }
        None
    }

    /// Whether a token was stored at `address`.
    pub fn contains(&self, address: &Address) -> (r: bool)
        ensures
            r == self@.contains_key(address@),
    {
        proof {
            use_type_invariant(self);
            lemma_entries_map(self.entries@);
        }
        self.find(address).is_some()
    }

    /// The token stored at `address`, if any.
    pub fn get(&self, address: &Address) -> (r: Option<&B20Token>)
        ensures
            r matches Some(t) ==> self@.contains_key(address@) && *t == self@[address@] && t.wf()
                && t.address == *address,
            r is None ==> !self@.contains_key(address@),
    {
        proof {
            use_type_invariant(self);
            lemma_entries_map(self.entries@);
        }
        match self.find(address) {
            Some(i) => {
                proof {
                    assert(self.entries@[i as int].1.wf());
                    crate::primitives::lemma_address_eq(self.entries@[i as int].0, *address);
                }
                Some(&self.entries[i].1)
            },
            None => None,
        }
    }

    /// Takes the token at `address` out of the store to operate on it: the stored one, or a
    /// fresh one when nothing was stored. Fails with `InvalidToken` when `address` lacks the
    /// B20 prefix. Put it back with [`B20Tokens::put`].
    pub fn take(&mut self, address: Address) -> (r: Result<B20Token>)
        ensures
            final(self).hardfork() == old(self).hardfork(),
            !spec_has_b20_prefix(address@) ==> r == Err::<B20Token, BasePrecompileError>(
                b20_err(B20Error::InvalidToken),
            ) && final(self)@ == old(self)@,
            spec_has_b20_prefix(address@) ==> (r matches Ok(t) && old(self).holds_token(address@, t)
                && t.wf() && t.address == address && t.spec == old(self).hardfork() && final(self)@
                == old(self)@.remove(address@)),
    {
        proof {
            use_type_invariant(&*self);
            lemma_entries_map(self.entries@);
        }
        if !is_b20_prefix(&address) {
            return Err(BasePrecompileError::B20(B20Error::invalid_token()));
        }
        match self.find(&address) {
            Some(i) => {
                let ghost s = self.entries@;
                proof {
                    lemma_entries_map_remove(s, i as int);
                    assert(s[i as int].1.wf());
                    crate::primitives::lemma_address_eq(s[i as int].0, address);
                }
                let mut entries: Vec<(Address, B20Token)> = Vec::new();
                std::mem::swap(&mut entries, &mut self.entries);
                let (_, t) = entries.remove(i);
                proof {
                    assert(entries@ == s.remove(i as int));
                    assert forall|j: int| 0 <= j < entries@.len() implies #[trigger] entries@[j].0
                        == entries@[j].1.address && entries@[j].1.wf() && entries@[j].1.spec
                        == self.spec by {
                        let j2 = if j < i { j } else { j + 1 };
                        assert(entries@[j] == s[j2]);
                    }
                }
                self.entries = entries;
                Ok(t)
            },
            None => {
                let t = B20Token::from_address_unchecked(address, self.spec);
                proof {
                    assert(self@.remove(address@) =~= self@);
                }
                Ok(t)
            },
        }
    }

    /// Stores `token` at its address, replacing what was stored there.
    pub fn put(&mut self, token: B20Token)
        requires
            token.wf(),
            token.spec == old(self).hardfork(),
        ensures
            final(self).hardfork() == old(self).hardfork(),
            final(self)@ == old(self)@.insert(token.address@, token),
    {
        proof {
            use_type_invariant(&*self);
            lemma_entries_map(self.entries@);
        }
        let ghost s = self.entries@;
        let address = token.address;
        match self.find(&address) {
            Some(i) => {
                let mut entries: Vec<(Address, B20Token)> = Vec::new();
                std::mem::swap(&mut entries, &mut self.entries);
                entries.set(i, (address, token));
                proof {
                    lemma_entries_map_update(s, i as int, (address, token));
                    assert(entries@ == s.update(i as int, (address, token)));
                    assert forall|j: int| 0 <= j < entries@.len() implies #[trigger] entries@[j].0
                        == entries@[j].1.address && entries@[j].1.wf() && entries@[j].1.spec
                        == self.spec by {
                        if j != i {
                            assert(entries@[j] == s[j]);
                        }
                    }
                }
                self.entries = entries;
            },
            None => {
                let mut entries: Vec<(Address, B20Token)> = Vec::new();
                std::mem::swap(&mut entries, &mut self.entries);
                entries.push((address, token));
                proof {
                    assert(entries@.drop_last() =~= s);
                    assert(distinct_keys(entries@));
                    assert forall|j: int| 0 <= j < entries@.len() implies #[trigger] entries@[j].0
                        == entries@[j].1.address && entries@[j].1.wf() && entries@[j].1.spec
                        == self.spec by {
                        if j < s.len() {
                            assert(entries@[j] == s[j]);
                        }
                    }
                }
                self.entries = entries;
            },
        }
    }
}


/// Whether a B20 token was deployed at `address`: it carries the B20 prefix and its account
/// was initialized.
pub open spec fn spec_is_b20(tokens: &B20Tokens, address: Seq<u8>) -> bool {
    &&& spec_has_b20_prefix(address)
    &&& tokens@.contains_key(address)
    &&& tokens@[address].initialized
}

/// The factory of B20 tokens.
#[derive(Clone, Copy, Debug)]
pub struct B20Factory;

impl B20Factory {
    /// A handle on the factory.
    pub fn new() -> (r: B20Factory) {
        B20Factory
    }

    /// Whether a B20 token was deployed at `token`.
    pub fn is_b20(&self, tokens: &B20Tokens, token: Address) -> (r: Result<bool>)
        ensures
            r == Ok::<bool, BasePrecompileError>(spec_is_b20(tokens, token@)),
    {
        if !is_b20_prefix(&token) {
            return Ok(false);
        }
        match tokens.get(&token) {
            Some(t) => Ok(t.initialized),
            None => Ok(false),
        }
    }

    /// Deploys a token at a reserved B20 `address` with the given metadata, granting `admin`
    /// the default admin role. Fails with `InvalidToken` when the address lacks the B20
    /// prefix or a token was already deployed there.
    pub fn create_token_reserved_address(
        &mut self,
        tokens: &mut B20Tokens,
        address: Address,
        name: &str,
        symbol: &str,
        currency: &str,
        admin: Address,
    ) -> (r: Result<Address>)
        ensures
            final(tokens).hardfork() == old(tokens).hardfork(),
            !spec_has_b20_prefix(address@) || spec_is_b20(old(tokens), address@) ==> r == Err::<
                Address,
                BasePrecompileError,
            >(b20_err(B20Error::InvalidToken)) && final(tokens)@ == old(tokens)@,
            spec_has_b20_prefix(address@) && !spec_is_b20(old(tokens), address@) ==> {
                &&& r == Ok::<Address, BasePrecompileError>(address)
                &&& final(tokens)@.dom() == old(tokens)@.dom().insert(address@)
                &&& forall|a: Seq<u8>|
                    #![trigger final(tokens)@[a]]
                    a != address@ && old(tokens)@.contains_key(a) ==> final(tokens)@[a]
                        == old(tokens)@[a]
                &&& exists|t: B20Token|
                    #![trigger old(tokens).holds_token(address@, t)]
                    old(tokens).holds_token(address@, t) && t.initialized_into(
                        final(tokens)@[address@],
                        admin,
                        name@,
                        symbol@,
                        currency@,
                        admin,
                    )
                &&& spec_is_b20(final(tokens), address@)
            },
    {
        if self.is_b20(tokens, address)? {
            return Err(BasePrecompileError::B20(B20Error::invalid_token()));
        }
        let mut token = tokens.take(address)?;
        let ghost t0 = token;
        token.initialize(admin, name, symbol, currency, admin)?;
        tokens.put(token);
        proof {
            assert(tokens@.dom() =~= old(tokens)@.dom().insert(address@));
            assert(old(tokens).holds_token(address@, t0));
        }
        Ok(address)
    }
}

} // verus!

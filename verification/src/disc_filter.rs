//! The Base peer-discovery policy: which node records join the discovery table.

use vstd::prelude::*;

use vstd::string::{StrSliceExecFns, StringSliceAdditionalSpecFns};

verus! {

/// An EIP-2124 fork identifier: the checksum of the past forks and the activation of the
/// next one (zero when none is scheduled).
#[derive(Clone, Copy, Debug)]
pub struct ForkId {
    /// The fork checksum.
    pub hash: [u8; 4],
    /// The block number or timestamp of the next fork.
    pub next: u64,
}

impl ForkId {
    /// Whether two fork identifiers are the same.
    pub open spec fn same_as(self, other: ForkId) -> bool {
        self.hash@ == other.hash@ && self.next == other.next
    }

    /// Whether `self` and `other` are the same fork identifier.
    pub fn same(&self, other: &ForkId) -> (r: bool)
        ensures
            r == self.same_as(*other),
    {
        let r = self.hash[0] == other.hash[0] && self.hash[1] == other.hash[1] && self.hash[2]
            == other.hash[2] && self.hash[3] == other.hash[3] && self.next == other.next;
        if r {
            assert(self.hash@ =~= other.hash@);
        } else if self.next == other.next {
            assert(self.hash@[0] != other.hash@[0] || self.hash@[1] != other.hash@[1]
                || self.hash@[2] != other.hash@[2] || self.hash@[3] != other.hash@[3]);
        }
        r
    }
}

/// The entries of a node record that the discovery policy reads.
#[derive(Clone, Copy, Debug)]
pub struct EnrEntries {
    /// Whether the record carries a value under the `base` key.
    pub has_base_key: bool,
    /// The value under the `opel` key: `None` when there is none, `Some(None)` when it does
    /// not decode as a fork-id entry, and `Some(Some(id))` when it holds the fork id `id`.
    pub opel: Option<Option<ForkId>>,
}

/// Whether the Base discovery policy accepts a record with entries `enr`, given the fork id
/// that the Azul hardfork has on the local chain (`None` when Azul is not scheduled).
pub open spec fn spec_matches_enr(enr: EnrEntries, azul_fork_id: Option<ForkId>) -> bool {
    if enr.has_base_key {
        true
    } else {
        match azul_fork_id {
            None => enr.opel is Some,
            Some(expected) => enr.opel matches Some(Some(id)) && id.same_as(expected),
        }
    }
}

/// The big-endian bytes of `n` without leading zeros (none for zero).
pub open spec fn spec_be_min(n: nat) -> Seq<u8>
    decreases n,
{
    if n == 0 {
        seq![]
    } else {
        spec_be_min(n / 256).push((n % 256) as u8)
    }
}

/// The RLP encoding of the byte string `s`: a single byte below `0x80` stands for itself; a
/// string of at most 55 bytes follows the byte `0x80 + length`; a longer one follows
/// `0xb7 + (bytes of the length)` and the big-endian length.
pub open spec fn spec_rlp_string(s: Seq<u8>) -> Seq<u8> {
    if s.len() == 1 && s[0] < 0x80 {
        s
    } else if s.len() <= 55 {
        seq![(0x80 + s.len()) as u8] + s
    } else {
        let l = spec_be_min(s.len());
        seq![(0xb7 + l.len()) as u8] + l + s
    }
}

/// A number below `2^(8k)` has at most `k` significant bytes.
proof fn lemma_be_min_len(n: nat, k: nat)
    requires
        n < vstd::arithmetic::power2::pow2(8 * k),
    ensures
        spec_be_min(n).len() <= k,
    decreases n,
{
    if n > 0 {
        vstd::arithmetic::power2::lemma2_to64();
        if k == 0 {
            assert(8 * k == 0);
        } else {
            vstd::arithmetic::power2::lemma_pow2_adds(8, (8 * (k - 1)) as nat);
            vstd::arithmetic::power2::lemma_pow2_pos((8 * (k - 1)) as nat);
            let p = vstd::arithmetic::power2::pow2((8 * (k - 1)) as nat);
            assert(8 + 8 * (k - 1) == 8 * k);
            assert(n / 256 < p) by (nonlinear_arith)
                requires
                    n < 256 * p,
                    p > 0,
            ;
            lemma_be_min_len(n / 256, (k - 1) as nat);
        }
    }
}

/// The big-endian bytes of `n` without leading zeros.
fn be_min(n: u64) -> (r: Vec<u8>)
    ensures
        r@ == spec_be_min(n as nat),
    decreases n,
{
    if n == 0 {
        Vec::new()
    } else {
        let mut v = be_min(n / 256);
        v.push((n % 256) as u8);
        v
    }
}

/// Discovery helpers shared by the execution node and the bootnode.
#[derive(Debug, Clone, Copy, Default)]
pub struct BaseDiscoveryFilter;

impl BaseDiscoveryFilter {
    /// The record key that marks a peer as part of the Base discovery network: the bytes of
    /// `"base"`.
    pub const ENR_KEY: [u8; 4] = [0x62, 0x61, 0x73, 0x65];

    /// The value of the `base` record entry: the RLP encoding of the version string
    /// `version`.
    pub fn version_enr_value(version: &str) -> (r: Vec<u8>)
        ensures
            r@ == spec_rlp_string(version.spec_bytes()),
    {
        let bytes = version.as_bytes_vec();
        let len = bytes.len();
        if len == 1 && bytes[0] < 0x80 {
            return bytes;
        }
        let mut out: Vec<u8> = Vec::new();
        if len <= 55 {
            out.push((0x80 + len) as u8);
        } else {
            let l = be_min(len as u64);
            proof {
                vstd::arithmetic::power2::lemma2_to64();
                lemma_be_min_len(len as nat, 8);
            }
            out.push((0xb7 + l.len()) as u8);
            let mut k: usize = 0;
            while k < l.len()
                invariant
                    k <= l@.len(),
                    out@ == seq![(0xb7 + l@.len()) as u8] + l@.subrange(0, k as int),
                decreases l@.len() - k,
            {
                out.push(l[k]);
                k = k + 1;
                assert(l@.subrange(0, k as int) =~= l@.subrange(0, k - 1 as int).push(l@[k - 1]));
            }
            assert(l@.subrange(0, l@.len() as int) =~= l@);
        }
        let ghost prefix = out@;
        let mut k: usize = 0;
        while k < len
            invariant
                len == bytes@.len(),
                k <= len,
                out@ == prefix + bytes@.subrange(0, k as int),
            decreases len - k,
        {
            out.push(bytes[k]);
            k = k + 1;
            assert(bytes@.subrange(0, k as int) =~= bytes@.subrange(0, k - 1 as int).push(bytes@[k - 1]));
        }
        assert(bytes@.subrange(0, len as int) =~= bytes@);
        out
    }

    /// Whether a record with entries `enr` belongs in the Base discovery table.
    ///
    /// A record with the `base` key is accepted whatever its value. Otherwise, before Azul is
    /// scheduled any record with an `opel` entry is accepted; once it is, the `opel` entry must
    /// decode to exactly the expected Azul fork id.
    pub fn matches_enr(enr: &EnrEntries, azul_fork_id: Option<ForkId>) -> (r: bool)
        ensures
            r == spec_matches_enr(*enr, azul_fork_id),
    {
        if enr.has_base_key {
            return true;
        }
        match azul_fork_id {
            None => enr.opel.is_some(),
            Some(expected) => match enr.opel {
                Some(Some(id)) => id.same(&expected),
                _ => false,
            },
        }
    }
}

} // verus!

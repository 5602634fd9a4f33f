//! EIP-2612 permits: allowances granted by an EIP-712 signature of the owner.

use vstd::prelude::*;
use vstd::string::StringSliceAdditionalSpecFns;
use vstd::utf8::encode_utf8;

use crate::abi::{append, append_address, append_word, spec_address_word};
use crate::b20::{B20Event, B20Token};
use crate::error::{b20_err, overflow, B20Error, BasePrecompileError, Result};
use crate::primitives::{keccak256, keccak256_digest, Address, B256};
use crate::word::{self, spec_word_bytes, U256};

verus! {

/// The EIP-712 type hash of the permit struct.
pub open spec fn spec_permit_typehash() -> Seq<u8> {
    keccak256_digest(
        "Permit(address owner,address spender,uint256 value,uint256 nonce,uint256 deadline)".spec_bytes(),
    )
}

/// The EIP-712 type hash of the domain.
pub open spec fn spec_domain_typehash() -> Seq<u8> {
    keccak256_digest(
        "EIP712Domain(string name,string version,uint256 chainId,address verifyingContract)".spec_bytes(),
    )
}

/// The EIP-712 domain separator of the token named `name` at `token` on chain `chain_id`,
/// version "1": the hash of the ABI encoding of the domain type hash, the hashes of the name
/// and of the version, the chain id and the token address.
pub open spec fn spec_domain_separator(name: Seq<char>, chain_id: u64, token: Seq<u8>) -> Seq<u8> {
    keccak256_digest(
        spec_domain_typehash() + keccak256_digest(encode_utf8(name)) + keccak256_digest(
            "1".spec_bytes(),
        ) + spec_word_bytes(chain_id as nat) + spec_address_word(token),
    )
}

/// The EIP-712 struct hash of a permit.
pub open spec fn spec_permit_struct_hash(
    owner: Seq<u8>,
    spender: Seq<u8>,
    value: nat,
    nonce: nat,
    deadline: nat,
) -> Seq<u8> {
    keccak256_digest(
        spec_permit_typehash() + spec_address_word(owner) + spec_address_word(spender)
            + spec_word_bytes(value) + spec_word_bytes(nonce) + spec_word_bytes(deadline),
    )
}

/// The EIP-712 digest that the owner signs: `keccak256(0x19 0x01 ‖ domain ‖ struct hash)`.
pub open spec fn spec_permit_digest(domain: Seq<u8>, struct_hash: Seq<u8>) -> Seq<u8> {
    keccak256_digest(seq![0x19u8, 0x01u8] + domain + struct_hash)
}

/// The address that the secp256k1 signature `(r, s)` with y-parity `y_odd` recovers for the
/// prehashed message `prehash`, or `None` when no key can be recovered (as computed by
/// `alloy_primitives::Signature::recover_address_from_prehash`).
pub uninterp spec fn secp256k1_recover(prehash: Seq<u8>, y_odd: bool, r: Seq<u8>, s: Seq<u8>) -> Option<
    Seq<u8>,
>;

/// The signer of `prehash` by signature `(r, s)` with y-parity `y_odd`.
///
/// Builds the signature with `Signature::from_scalars_and_parity` and calls
/// `Signature::recover_address_from_prehash` (k256 backend, which normalizes a high `s`
/// first); a recovery error gives `None`. The result is the value named [`secp256k1_recover`].
#[verifier::external_body]
fn recover_address(prehash: &B256, y_odd: bool, r: &B256, s: &B256) -> (a: Option<Address>)
    ensures
        a matches Some(x) ==> secp256k1_recover(prehash@, y_odd, r@, s@) == Some(x@),
        a is None ==> secp256k1_recover(prehash@, y_odd, r@, s@) is None,
{
    let sig = alloy_primitives::Signature::from_scalars_and_parity(
        alloy_primitives::B256::from(r.bytes),
        alloy_primitives::B256::from(s.bytes),
        y_odd,
    );
    match sig.recover_address_from_prehash(&alloy_primitives::B256::from(prehash.bytes)) {
        Ok(signer) => Some(Address { bytes: signer.into_array() }),
        Err(_) => None,
    }
}

/// The signer that `ecrecover` finds for `digest` and the signature `(v, r, s)`: only
/// `v = 27` and `v = 28` are accepted (a `v` of `0` or `1` is not normalized).
pub open spec fn spec_recover_signer(digest: Seq<u8>, v: u8, r: Seq<u8>, s: Seq<u8>) -> Option<
    Seq<u8>,
> {
    if v == 27 || v == 28 {
        secp256k1_recover(digest, v == 28, r, s)
    } else {
        None
    }
}

/// The signer of `digest` under the signature `(v, r, s)`, with `ecrecover`'s handling of `v`.
pub fn recover_signer(digest: &B256, v: u8, r: &B256, s: &B256) -> (a: Option<Address>)
    ensures
        a matches Some(x) ==> spec_recover_signer(digest@, v, r@, s@) == Some(x@),
        a is None ==> spec_recover_signer(digest@, v, r@, s@) is None,
{
    if v == 27 || v == 28 {
        recover_address(digest, v == 28, r, s)
    } else {
        None
    }
}

impl B20Token {
    /// The EIP-712 domain separator of this token on chain `chain_id`, computed from its
    /// current name.
    pub fn domain_separator(&self, chain_id: u64) -> (r: Result<B256>)
        ensures
            r matches Ok(d) && d@ == spec_domain_separator(self.name@, chain_id, self.address@),
    {
        let type_hash = keccak256(
            "EIP712Domain(string name,string version,uint256 chainId,address verifyingContract)".as_bytes(),
        );
        let name_hash = keccak256(self.name.as_str().as_bytes());
        let version_hash = keccak256("1".as_bytes());
        let mut encoded: Vec<u8> = Vec::new();
        append(&mut encoded, &type_hash.bytes);
        append(&mut encoded, &name_hash.bytes);
        append(&mut encoded, &version_hash.bytes);
        append_word(&mut encoded, U256::from_u64(chain_id));
        append_address(&mut encoded, &self.address);
        proof {
            assert(encoded@ =~= spec_domain_typehash() + keccak256_digest(encode_utf8(self.name@))
                + keccak256_digest("1".spec_bytes()) + spec_word_bytes(chain_id as nat)
                + spec_address_word(self.address@));
        }
        Ok(keccak256(encoded.as_slice()))
    }

    /// The digest that `owner` signs to let `spender` spend `value` with nonce `nonce` until
    /// `deadline`.
    fn permit_digest(
        &self,
        chain_id: u64,
        owner: &Address,
        spender: &Address,
        value: U256,
        nonce: U256,
        deadline: U256,
    ) -> (r: B256)
        ensures
            r@ == spec_permit_digest(
                spec_domain_separator(self.name@, chain_id, self.address@),
                spec_permit_struct_hash(owner@, spender@, value.value(), nonce.value(), deadline.value()),
            ),
    {
        let type_hash = keccak256(
            "Permit(address owner,address spender,uint256 value,uint256 nonce,uint256 deadline)".as_bytes(),
        );
        let mut encoded: Vec<u8> = Vec::new();
        append(&mut encoded, &type_hash.bytes);
        append_address(&mut encoded, owner);
        append_address(&mut encoded, spender);
        append_word(&mut encoded, value);
        append_word(&mut encoded, nonce);
        append_word(&mut encoded, deadline);
        proof {
            assert(encoded@ =~= spec_permit_typehash() + spec_address_word(owner@)
                + spec_address_word(spender@) + spec_word_bytes(value.value()) + spec_word_bytes(
                nonce.value(),
            ) + spec_word_bytes(deadline.value()));
        }
        let struct_hash = keccak256(encoded.as_slice());
        let domain = match self.domain_separator(chain_id) {
            Ok(d) => d,
            Err(_) => B256::zero(),
        };
        let mut message: Vec<u8> = Vec::new();
        message.push(0x19);
        message.push(0x01);
        append(&mut message, &domain.bytes);
        append(&mut message, &struct_hash.bytes);
        proof {
            assert(message@ =~= seq![0x19u8, 0x01u8] + domain@ + struct_hash@);
        }
        keccak256(message.as_slice())
    }

    /// The error of a permit of `owner` with deadline `deadline` and signature `(v, r, s)`
    /// presented at `timestamp` on chain `chain_id`, if it fails: `PermitExpired` past the
    /// deadline, `InvalidSignature` unless the signature recovers `owner`, and an overflow
    /// panic when the nonce is at its maximum.
    pub open spec fn spec_permit_check(
        &self,
        timestamp: U256,
        chain_id: u64,
        owner: Address,
        spender: Address,
        value: U256,
        deadline: U256,
        v: u8,
        r: B256,
        s: B256,
    ) -> Result<()> {
        let nonce = self.permit_nonces.get(owner@);
        let digest = spec_permit_digest(
            spec_domain_separator(self.name@, chain_id, self.address@),
            spec_permit_struct_hash(owner@, spender@, value.value(), nonce.value(), deadline.value()),
        );
        if timestamp.value() > deadline.value() {
            Err(b20_err(B20Error::PermitExpired))
        } else if spec_recover_signer(digest, v, r@, s@) != Some(owner@) {
            Err(b20_err(B20Error::InvalidSignature))
        } else if nonce.value() + 1 >= crate::word::word_modulus() {
            Err(overflow())
        } else {
            Ok(())
        }
    }

    /// How the token `new` and the result `res` of [`B20Token::permit`] relate to the token
    /// `self` it was called on.
    pub open spec fn post_permit(
        &self,
        new: &B20Token,
        timestamp: U256,
        chain_id: u64,
        owner: Address,
        spender: Address,
        value: U256,
        deadline: U256,
        v: u8,
        r: B256,
        s: B256,
        res: Result<()>,
    ) -> bool {
        &&& res == self.spec_permit_check(
            timestamp,
            chain_id,
            owner,
            spender,
            value,
            deadline,
            v,
            r,
            s,
        )
        &&& res is Err ==> *new == *self
        &&& res is Ok ==> {
            &&& new.permit_nonces.get(owner@).value() == self.permit_nonces.get(
                owner@,
            ).value() + 1
            &&& forall|a: Seq<u8>|
                #![trigger new.permit_nonces.get(a)]
                a != owner@ ==> new.permit_nonces.get(a) == self.permit_nonces.get(a)
            &&& new.allowances@ == self.allowances@.insert(
                (owner@, spender@),
                value,
            )
            &&& new.events@ == self.events@.push(
                B20Event::Approval { owner, spender, amount: value },
            )
            &&& *new == (B20Token {
                permit_nonces: new.permit_nonces,
                allowances: new.allowances,
                events: new.events,
                ..*self
            })
        }
    }

    /// Sets the allowance of `spender` over `owner`'s tokens to `value` on the strength of an
    /// EIP-2612 permit signed by `owner`, presented at `timestamp` on chain `chain_id`.
    ///
    /// Checks the deadline, recovers the signer of the EIP-712 digest, which must be `owner`,
    /// increments the owner's nonce and emits `Approval`. Allowed while the token is paused.
    pub fn permit(
        &mut self,
        timestamp: U256,
        chain_id: u64,
        owner: Address,
        spender: Address,
        value: U256,
        deadline: U256,
        v: u8,
        r: B256,
        s: B256,
    ) -> (res: Result<()>)
        requires
            old(self).wf(),
        ensures
            final(self).wf(),
            old(self).post_permit(final(self), timestamp, chain_id, owner, spender, value, deadline, v, r, s, res),
    {
        if word::lt(deadline, timestamp) {
            return Err(BasePrecompileError::B20(B20Error::permit_expired()));
        }
        let nonce = self.permit_nonces.read(&owner);
        let digest = self.permit_digest(chain_id, &owner, &spender, value, nonce, deadline);
        let recovered = match recover_signer(&digest, v, &r, &s) {
            Some(a) => a,
            None => {
                return Err(BasePrecompileError::B20(B20Error::invalid_signature()));
            },
        };
        if !recovered.same(&owner) {
            return Err(BasePrecompileError::B20(B20Error::invalid_signature()));
        }
        let next = match word::checked_add(nonce, U256::one()) {
            Some(n) => n,
            None => {
                return Err(BasePrecompileError::under_overflow());
            },
        };
        self.permit_nonces.write(owner, next);
        self.set_allowance(owner, spender, value);
        self.events.push(B20Event::Approval { owner, spender, amount: value });
        Ok(())
    }
}

} // verus!

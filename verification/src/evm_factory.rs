//! The choice of the Base B precompile set that an EVM is built with.

use vstd::prelude::*;

use crate::address::{spec_has_b20_prefix, BaseBAddressExt};
use crate::primitives::Address;
use crate::spec::BaseBSpec;

verus! {

/// Factory of Base EVMs.
///
/// Building the EVM itself is the execution client's work; what is decided here is which set
/// of Base B precompiles (the B20 tokens, the B20 factory and the B403 registry) its
/// precompile table is extended with.
#[derive(Debug, Default, Clone, Copy)]
pub struct BaseEvmFactory;

impl BaseEvmFactory {
    /// The Base B precompile set for an EVM whose spec does (`azul_enabled`) or does not enable
    /// the Azul hardfork: the Azul set once Azul is enabled, none before it.
    pub fn base_b_precompiles(azul_enabled: bool) -> (r: Option<BaseBSpec>)
        ensures
            r == (if azul_enabled {
                Some(BaseBSpec::Azul)
            } else {
                None::<BaseBSpec>
            }),
    {
        if azul_enabled {
            Some(BaseBSpec::Azul)
        } else {
            None
        }
    }
}

/// The address of the B20 factory precompile, `0x8453000000000000000000000000000000000001`.
pub open spec fn spec_b20_factory_address() -> Seq<u8> {
    seq![0x84u8, 0x53, 0, 0, 0, 0, 0, 0, 0, 0, 0, 0, 0, 0, 0, 0, 0, 0, 0, 0x01]
}

/// The address of the B403 registry precompile, `0x8453000000000000000000000000000000000403`.
pub open spec fn spec_b403_registry_address() -> Seq<u8> {
    seq![0x84u8, 0x53, 0, 0, 0, 0, 0, 0, 0, 0, 0, 0, 0, 0, 0, 0, 0, 0, 0x04, 0x03]
}

/// The address of the B20 factory precompile.
pub fn b20_factory_address() -> (r: Address)
    ensures
        r@ == spec_b20_factory_address(),
{
    let r = Address::from_bytes([0x84, 0x53, 0, 0, 0, 0, 0, 0, 0, 0, 0, 0, 0, 0, 0, 0, 0, 0, 0, 0x01]);
    assert(r@ =~= spec_b20_factory_address());
    r
}

/// The address of the B403 registry precompile.
pub fn b403_registry_address() -> (r: Address)
    ensures
        r@ == spec_b403_registry_address(),
{
    let r = Address::from_bytes(
        [0x84, 0x53, 0, 0, 0, 0, 0, 0, 0, 0, 0, 0, 0, 0, 0, 0, 0, 0, 0x04, 0x03],
    );
    assert(r@ =~= spec_b403_registry_address());
    r
}

/// The kinds of Base B precompile.
#[derive(Clone, Copy, Debug, PartialEq, Eq, Structural)]
pub enum BasePrecompileKind {
    /// The B20 factory.
    B20Factory,
    /// The B403 policy registry.
    B403Registry,
    /// A B20 token at its own address.
    B20Token,
}

/// The Base B precompile that answers at `address` under `spec`: none before Azul; then the
/// factory and the registry at their fixed addresses, and a B20 token at every other address
/// with the B20 prefix.
pub open spec fn spec_base_b_precompile(spec: BaseBSpec, address: Seq<u8>) -> Option<
    BasePrecompileKind,
> {
    if !spec.spec_enabled_in(BaseBSpec::Azul) {
        None
    } else if address == spec_b20_factory_address() {
        Some(BasePrecompileKind::B20Factory)
    } else if address == spec_b403_registry_address() {
        Some(BasePrecompileKind::B403Registry)
    } else if spec_has_b20_prefix(address) {
        Some(BasePrecompileKind::B20Token)
    } else {
        None
    }
}

/// The Base B precompile registered at `address` under `spec`.
pub fn base_b_precompile_at(spec: BaseBSpec, address: &Address) -> (r: Option<BasePrecompileKind>)
    ensures
        r == spec_base_b_precompile(spec, address@),
{
    if !spec.is_enabled_in(BaseBSpec::Azul) {
        None
    } else if address.same(&b20_factory_address()) {
        Some(BasePrecompileKind::B20Factory)
    } else if address.same(&b403_registry_address()) {
        Some(BasePrecompileKind::B403Registry)
    } else if address.is_b20() {
        Some(BasePrecompileKind::B20Token)
    } else {
        None
    }
}

/// The factory and the registry sit at B20-prefixed addresses, yet neither is ever answered
/// by a B20 token.
pub proof fn lemma_system_precompiles_are_not_tokens(spec: BaseBSpec)
    ensures
        spec_has_b20_prefix(spec_b20_factory_address()),
        spec_has_b20_prefix(spec_b403_registry_address()),
        spec_base_b_precompile(spec, spec_b20_factory_address()) != Some(
            BasePrecompileKind::B20Token,
        ),
        spec_base_b_precompile(spec, spec_b403_registry_address()) != Some(
            BasePrecompileKind::B20Token,
        ),
{
    assert(spec_b20_factory_address().subrange(0, 12) =~= crate::address::spec_b20_prefix());
    assert(spec_b403_registry_address().subrange(0, 12) =~= crate::address::spec_b20_prefix());
    assert(spec_b20_factory_address() != spec_b403_registry_address()) by {
        assert(spec_b20_factory_address()[19] != spec_b403_registry_address()[19]);
    }
}

} // verus!

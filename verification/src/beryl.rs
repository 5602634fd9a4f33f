//! Protocol state that the Beryl hardfork brings into existence at its activation block.

use vstd::prelude::*;

use crate::bootstrap::{busd_ensured, B20Bootstrap};
use crate::b20_factory::B20Tokens;
use crate::error::Result;
use crate::primitives::Address;

verus! {

/// The chain id of the Base devnet.
pub const DEVNET_CHAIN_ID: u64 = 84538453;

/// The BUSD admin on the devnet: `0x9965507D1a55bcC2695C58ba16FB37d819B0A4dc`.
pub open spec fn spec_devnet_busd_admin() -> Seq<u8> {
    seq![
        0x99u8, 0x65, 0x50, 0x7D, 0x1a, 0x55, 0xbC, 0xC2, 0x69, 0x5C,
        0x58, 0xba, 0x16, 0xFB, 0x37, 0xd8, 0x19, 0xB0, 0xA4, 0xdc,
    ]
}

/// The proxy admin predeploy, `0x4200000000000000000000000000000000000018`.
pub open spec fn spec_proxy_admin() -> Seq<u8> {
    seq![
        0x42u8, 0, 0, 0, 0, 0, 0, 0, 0, 0,
        0, 0, 0, 0, 0, 0, 0, 0, 0, 0x18,
    ]
}

/// The admin of BUSD on chain `chain_id`: a fixed account on the devnet, the proxy admin
/// predeploy everywhere else.
pub open spec fn spec_busd_admin(chain_id: u64) -> Seq<u8> {
    if chain_id == DEVNET_CHAIN_ID {
        spec_devnet_busd_admin()
    } else {
        spec_proxy_admin()
    }
}

/// The account that becomes the default admin of BUSD on chain `chain_id`.
pub fn busd_admin_for_chain(chain_id: u64) -> (r: Address)
    ensures
        r@ == spec_busd_admin(chain_id),
{
    let r = if chain_id == DEVNET_CHAIN_ID {
        Address::from_bytes(
            [
                0x99, 0x65, 0x50, 0x7D, 0x1a, 0x55, 0xbC, 0xC2, 0x69, 0x5C, 0x58, 0xba, 0x16,
                0xFB, 0x37, 0xd8, 0x19, 0xB0, 0xA4, 0xdc,
            ],
        )
    } else {
        Address::from_bytes([0x42, 0, 0, 0, 0, 0, 0, 0, 0, 0, 0, 0, 0, 0, 0, 0, 0, 0, 0, 0x18])
    };
    assert(r@ =~= spec_busd_admin(chain_id));
    r
}

/// Whether a hardfork that activates at `activation` (never, when `None`) is active in a
/// block with timestamp `timestamp`.
pub open spec fn active_at(activation: Option<u64>, timestamp: u64) -> bool {
    activation matches Some(t) && t <= timestamp
}

/// Whether the block at `timestamp` is the first one with Beryl active: Beryl is active
/// there, and the block is either the genesis block (timestamp zero) or the block two seconds
/// earlier did not have it.
pub open spec fn spec_is_beryl_transition(beryl: Option<u64>, timestamp: u64) -> bool {
    &&& active_at(beryl, timestamp)
    &&& (timestamp == 0 || !active_at(beryl, if timestamp >= 2 { (timestamp - 2) as u64 } else { 0 }))
}

/// Whether Beryl, activating at `beryl`, is active at `timestamp`.
fn is_active_at(beryl: Option<u64>, timestamp: u64) -> (r: bool)
    ensures
        r == active_at(beryl, timestamp),
{
    match beryl {
        Some(t) => t <= timestamp,
        None => false,
    }
}

/// Whether the block at `timestamp` is the Beryl transition block.
pub fn is_beryl_transition(beryl: Option<u64>, timestamp: u64) -> (r: bool)
    ensures
        r == spec_is_beryl_transition(beryl, timestamp),
{
    is_active_at(beryl, timestamp) && (timestamp == 0 || !is_active_at(
        beryl,
        timestamp.saturating_sub(2),
    ))
}

/// Ensures that the native ERC-20 protocol state exists in the Beryl transition block.
///
/// `beryl` is the activation timestamp of Beryl on the chain (`None` when it is not
/// scheduled). In the transition block BUSD is created, unless it exists already, with
/// [`busd_admin_for_chain`] as its admin; in every other block nothing changes.
pub fn ensure_native_erc20s(
    beryl: Option<u64>,
    timestamp: u64,
    chain_id: u64,
    tokens: &mut B20Tokens,
) -> (r: Result<()>)
    ensures
        r is Ok,
        !spec_is_beryl_transition(beryl, timestamp) ==> *final(tokens) == *old(tokens),
        spec_is_beryl_transition(beryl, timestamp) ==> exists|admin: Address|
            admin@ == spec_busd_admin(chain_id) && #[trigger] busd_ensured(
                *old(tokens),
                *final(tokens),
                admin,
            ),
{
    if !is_beryl_transition(beryl, timestamp) {
        return Ok(());
    }
    let admin = busd_admin_for_chain(chain_id);
    B20Bootstrap::ensure_busd(tokens, admin)?;
    Ok(())
}

} // verus!

//! Bootstrap of the protocol-owned B20 tokens.

use vstd::prelude::*;

use crate::address::{path_usd_address, spec_base_usd, spec_has_b20_prefix};
use crate::b20_factory::{spec_is_b20, B20Factory, B20Tokens};
use crate::error::Result;
use crate::primitives::Address;

verus! {

/// The Base USD (BUSD) token address, the first of the reserved `0x8453` B20 range.
pub fn busd_address() -> (r: Address)
    ensures
        r@ == spec_base_usd(),
        spec_has_b20_prefix(r@),
{
    path_usd_address()
}

/// The effect of ensuring BUSD on the token set `before`, giving `after`: BUSD is a B20 token
/// afterwards and the hardfork is unchanged; an existing BUSD leaves everything as it was;
/// otherwise BUSD is added, initialized as "Base USD" / "BUSD" / "USD" with `admin` as its
/// default admin, and every other token is kept.
pub open spec fn busd_ensured(before: B20Tokens, after: B20Tokens, admin: Address) -> bool {
    &&& spec_is_b20(&after, spec_base_usd())
    &&& after.hardfork() == before.hardfork()
    &&& spec_is_b20(&before, spec_base_usd()) ==> after@ == before@
    &&& !spec_is_b20(&before, spec_base_usd()) ==> {
        &&& after@.dom() == before@.dom().insert(spec_base_usd())
        &&& forall|a: Seq<u8>|
            #![trigger after@[a]]
            a != spec_base_usd() && before@.contains_key(a) ==> after@[a] == before@[a]
        &&& exists|t: crate::b20::B20Token|
            #![trigger before.holds_token(spec_base_usd(), t)]
            before.holds_token(spec_base_usd(), t) && t.initialized_into(
                after@[spec_base_usd()],
                admin,
                "Base USD"@,
                "BUSD"@,
                "USD"@,
                admin,
            )
    }
}

/// Bootstrap operations of the protocol-owned B20 tokens.
#[derive(Clone, Copy, Debug, Default)]
pub struct B20Bootstrap;

impl B20Bootstrap {
    /// Ensures that the canonical BUSD token ("Base USD", "BUSD", currency "USD") exists at
    /// [`busd_address`], with `admin` as its default admin when it is created now.
    ///
    /// Idempotent: when the token already exists nothing changes, so genesis and hardfork code
    /// may both call it.
    pub fn ensure_busd(tokens: &mut B20Tokens, admin: Address) -> (r: Result<Address>)
        ensures
            r matches Ok(a) && a@ == spec_base_usd(),
            busd_ensured(*old(tokens), *final(tokens), admin),
    {
        let mut factory = B20Factory::new();
        let busd = busd_address();
        if factory.is_b20(tokens, busd)? {
            return Ok(busd);
        }
        let r = factory.create_token_reserved_address(tokens, busd, "Base USD", "BUSD", "USD", admin);
        proof {
            let t = choose|t: crate::b20::B20Token|
                #![trigger old(tokens).holds_token(busd@, t)]
                old(tokens).holds_token(busd@, t) && t.initialized_into(
                    tokens@[busd@],
                    admin,
                    "Base USD"@,
                    "BUSD"@,
                    "USD"@,
                    admin,
                );
            assert(old(tokens).holds_token(busd@, t));
        }
        r
    }
}

} // verus!

//! ABI dispatch of Base DEX calls: decoding calldata into a [`DexCall`], and routing it.

use vstd::prelude::*;
use vstd::string::StringSliceAdditionalSpecFns;

use crate::abi::{
    arg_address, arg_u256, arg_word, encode_word, has_args, into_precompile_result,
    is_error_outcome, same_selector, selector, spec_address_word, spec_selector,
    spec_with_gas, with_gas, PrecompileOutcome, append_address, append_word,
};
use crate::address::spec_base_usd;
use crate::b20::dispatch::{reverts_with, returns_data, spec_static_call_revert, spec_unknown_selector_revert, CallEnv, DecodeFailure};
use crate::b20_factory::{spec_is_b20, B20Tokens};
use crate::b403_registry::B403Registry;
use crate::base_dex::{
    spec_validate_pool_token, spec_validate_swap_path, BaseDex, FEE_DENOMINATOR, FEE_NUMERATOR,
    MINIMUM_LIQUIDITY,
};
use crate::error::{BasePrecompileError, Result};
use crate::primitives::Address;
use crate::spec::{input_cost, spec_input_cost};
use crate::storage::evm::deduct_gas;
use crate::word::{spec_be_value, spec_word_bytes, word_modulus, U256};

verus! {

/// A decoded call to the Base DEX.
#[derive(Clone, Copy, Debug)]
pub enum DexCall {
    /// `BASE_TOKEN()`.
    BaseToken,
    /// `FEE_NUMERATOR()`.
    FeeNumerator,
    /// `FEE_DENOMINATOR()`.
    FeeDenominator,
    /// `MINIMUM_LIQUIDITY()`.
    MinimumLiquidity,
    /// `initializeBaseToken()`.
    InitializeBaseToken,
    /// `getPool(address)`.
    GetPool { token: Address },
    /// `pools(address)`.
    Pools { token: Address },
    /// `totalSupply(address)`.
    TotalSupply { token: Address },
    /// `liquidityBalances(address,address)`.
    LiquidityBalances { token: Address, user: Address },
    /// `quoteExactInput(address,address,uint256)`.
    QuoteExactInput { token_in: Address, token_out: Address, amount_in: U256 },
    /// `addLiquidity(address,uint256,uint256,address)`.
    AddLiquidity { token: Address, amount_token: U256, amount_base: U256, to: Address },
    /// `removeLiquidity(address,uint256,address)`.
    RemoveLiquidity { token: Address, liquidity: U256, to: Address },
    /// `swapExactTokensForTokens(address,address,uint256,uint256,address)`.
    SwapExactTokensForTokens {
        token_in: Address,
        token_out: Address,
        amount_in: U256,
        min_amount_out: U256,
        to: Address,
    },
}

/// The number of decodable DEX calls.
pub const DEX_CALL_COUNT: usize = 13;

/// The canonical signature of the DEX call with index `i`.
pub open spec fn dex_signature(i: int) -> Seq<u8> {
    if i == 0 {
        "BASE_TOKEN()".spec_bytes()
    } else if i == 1 {
        "FEE_NUMERATOR()".spec_bytes()
    } else if i == 2 {
        "FEE_DENOMINATOR()".spec_bytes()
    } else if i == 3 {
        "MINIMUM_LIQUIDITY()".spec_bytes()
    } else if i == 4 {
        "initializeBaseToken()".spec_bytes()
    } else if i == 5 {
        "getPool(address)".spec_bytes()
    } else if i == 6 {
        "pools(address)".spec_bytes()
    } else if i == 7 {
        "totalSupply(address)".spec_bytes()
    } else if i == 8 {
        "liquidityBalances(address,address)".spec_bytes()
    } else if i == 9 {
        "quoteExactInput(address,address,uint256)".spec_bytes()
    } else if i == 10 {
        "addLiquidity(address,uint256,uint256,address)".spec_bytes()
    } else if i == 11 {
        "removeLiquidity(address,uint256,address)".spec_bytes()
    } else if i == 12 {
        "swapExactTokensForTokens(address,address,uint256,uint256,address)".spec_bytes()
    } else {
        Seq::empty()
    }
}

/// The number of argument words of the DEX call with index `i`.
pub open spec fn dex_arg_words(i: int) -> nat {
    if i == 0 {
        0
    } else if i == 1 {
        0
    } else if i == 2 {
        0
    } else if i == 3 {
        0
    } else if i == 4 {
        0
    } else if i == 5 {
        1
    } else if i == 6 {
        1
    } else if i == 7 {
        1
    } else if i == 8 {
        2
    } else if i == 9 {
        3
    } else if i == 10 {
        4
    } else if i == 11 {
        3
    } else if i == 12 {
        5
    } else {
        0
    }
}

/// The canonical signature of the DEX call with index `i`.
fn dex_signature_str(i: usize) -> (r: &'static str)
    requires
        i < DEX_CALL_COUNT,
    ensures
        r.spec_bytes() == dex_signature(i as int),
{
    match i {
        0 => "BASE_TOKEN()",
        1 => "FEE_NUMERATOR()",
        2 => "FEE_DENOMINATOR()",
        3 => "MINIMUM_LIQUIDITY()",
        4 => "initializeBaseToken()",
        5 => "getPool(address)",
        6 => "pools(address)",
        7 => "totalSupply(address)",
        8 => "liquidityBalances(address,address)",
        9 => "quoteExactInput(address,address,uint256)",
        10 => "addLiquidity(address,uint256,uint256,address)",
        11 => "removeLiquidity(address,uint256,address)",
        12 => "swapExactTokensForTokens(address,address,uint256,uint256,address)",
        _ => "swapExactTokensForTokens(address,address,uint256,uint256,address)",
    }
}

/// The number of argument words of the DEX call with index `i`.
fn dex_arg_words_of(i: usize) -> (r: usize)
    requires
        i < DEX_CALL_COUNT,
    ensures
        r == dex_arg_words(i as int),
        r <= 7,
{
    match i {
        0 => 0,
        1 => 0,
        2 => 0,
        3 => 0,
        4 => 0,
        5 => 1,
        6 => 1,
        7 => 1,
        8 => 2,
        9 => 3,
        10 => 4,
        11 => 3,
        12 => 5,
        _ => 5,
    }
}

/// The index of a decoded DEX call.
pub open spec fn dex_call_index(c: DexCall) -> int {
    match c {
        DexCall::BaseToken => 0,
        DexCall::FeeNumerator => 1,
        DexCall::FeeDenominator => 2,
        DexCall::MinimumLiquidity => 3,
        DexCall::InitializeBaseToken => 4,
        DexCall::GetPool { .. } => 5,
        DexCall::Pools { .. } => 6,
        DexCall::TotalSupply { .. } => 7,
        DexCall::LiquidityBalances { .. } => 8,
        DexCall::QuoteExactInput { .. } => 9,
        DexCall::AddLiquidity { .. } => 10,
        DexCall::RemoveLiquidity { .. } => 11,
        DexCall::SwapExactTokensForTokens { .. } => 12,
    }
}

/// Whether the arguments of `c` are those that calldata `data` holds.
pub open spec fn dex_args_match(data: Seq<u8>, c: DexCall) -> bool {
    match c {
        DexCall::BaseToken => true,
        DexCall::FeeNumerator => true,
        DexCall::FeeDenominator => true,
        DexCall::MinimumLiquidity => true,
        DexCall::InitializeBaseToken => true,
        DexCall::GetPool { token } => token@ == arg_word(data, 0).subrange(12, 32),
        DexCall::Pools { token } => token@ == arg_word(data, 0).subrange(12, 32),
        DexCall::TotalSupply { token } => token@ == arg_word(data, 0).subrange(12, 32),
        DexCall::LiquidityBalances { token, user } => {
            &&& token@ == arg_word(data, 0).subrange(12, 32)
            &&& user@ == arg_word(data, 1).subrange(12, 32)
        },
        DexCall::QuoteExactInput { token_in, token_out, amount_in } => {
            &&& token_in@ == arg_word(data, 0).subrange(12, 32)
            &&& token_out@ == arg_word(data, 1).subrange(12, 32)
            &&& amount_in.value() == spec_be_value(arg_word(data, 2))
        },
        DexCall::AddLiquidity { token, amount_token, amount_base, to } => {
            &&& token@ == arg_word(data, 0).subrange(12, 32)
            &&& amount_token.value() == spec_be_value(arg_word(data, 1))
            &&& amount_base.value() == spec_be_value(arg_word(data, 2))
            &&& to@ == arg_word(data, 3).subrange(12, 32)
        },
        DexCall::RemoveLiquidity { token, liquidity, to } => {
            &&& token@ == arg_word(data, 0).subrange(12, 32)
            &&& liquidity.value() == spec_be_value(arg_word(data, 1))
            &&& to@ == arg_word(data, 2).subrange(12, 32)
        },
        DexCall::SwapExactTokensForTokens { token_in, token_out, amount_in, min_amount_out, to } => {
            &&& token_in@ == arg_word(data, 0).subrange(12, 32)
            &&& token_out@ == arg_word(data, 1).subrange(12, 32)
            &&& amount_in.value() == spec_be_value(arg_word(data, 2))
            &&& min_amount_out.value() == spec_be_value(arg_word(data, 3))
            &&& to@ == arg_word(data, 4).subrange(12, 32)
        },
    }
}

/// The DEX call with index `i` and the arguments that `data` holds.
fn build_dex_call(data: &[u8], i: usize) -> (r: DexCall)
    requires
        i < DEX_CALL_COUNT,
        has_args(data@, dex_arg_words(i as int)),
    ensures
        dex_call_index(r) == i,
        dex_args_match(data@, r),
{
    match i {
        0 => DexCall::BaseToken,
        1 => DexCall::FeeNumerator,
        2 => DexCall::FeeDenominator,
        3 => DexCall::MinimumLiquidity,
        4 => DexCall::InitializeBaseToken,
        5 => DexCall::GetPool { token: arg_address(data, 0) },
        6 => DexCall::Pools { token: arg_address(data, 0) },
        7 => DexCall::TotalSupply { token: arg_address(data, 0) },
        8 => DexCall::LiquidityBalances { token: arg_address(data, 0), user: arg_address(data, 1) },
        9 => DexCall::QuoteExactInput {
            token_in: arg_address(data, 0),
            token_out: arg_address(data, 1),
            amount_in: arg_u256(data, 2),
        },
        10 => DexCall::AddLiquidity {
            token: arg_address(data, 0),
            amount_token: arg_u256(data, 1),
            amount_base: arg_u256(data, 2),
            to: arg_address(data, 3),
        },
        11 => DexCall::RemoveLiquidity {
            token: arg_address(data, 0),
            liquidity: arg_u256(data, 1),
            to: arg_address(data, 2),
        },
        12 => DexCall::SwapExactTokensForTokens {
            token_in: arg_address(data, 0),
            token_out: arg_address(data, 1),
            amount_in: arg_u256(data, 2),
            min_amount_out: arg_u256(data, 3),
            to: arg_address(data, 4),
        },
        _ => DexCall::BaseToken,
    }
}

/// The index of the first DEX call, from index `i` on, whose selector is `sel`
/// ([`DEX_CALL_COUNT`] when there is none).
pub open spec fn dex_first_call_from(sel: Seq<u8>, i: int) -> int
    decreases DEX_CALL_COUNT - i,
{
    if i >= DEX_CALL_COUNT {
        DEX_CALL_COUNT as int
    } else if spec_selector(dex_signature(i)) == sel {
        i
    } else {
        dex_first_call_from(sel, i + 1)
    }
}

/// The index of the DEX call that the selector `sel` names ([`DEX_CALL_COUNT`] when it names
/// none).
pub open spec fn spec_dex_call_index(sel: Seq<u8>) -> int {
    dex_first_call_from(sel, 0)
}

/// The index of the DEX call that `sel` names.
fn find_dex_call(sel: [u8; 4]) -> (r: usize)
    ensures
        r == spec_dex_call_index(sel@),
        r <= DEX_CALL_COUNT,
{
    let mut i: usize = 0;
    while i < DEX_CALL_COUNT
        invariant
            i <= DEX_CALL_COUNT,
            dex_first_call_from(sel@, 0) == dex_first_call_from(sel@, i as int),
        decreases DEX_CALL_COUNT - i,
    {
        let s = selector(dex_signature_str(i));
        if same_selector(s, sel) {
            return i;
        }
        i = i + 1;
    }
    i
}

/// Decodes the calldata of a DEX call (selector, then static argument words).
///
/// An unknown selector and too few argument words are failures; bytes after the last
/// argument are ignored.
pub fn decode_dex_call(data: &[u8]) -> (r: std::result::Result<DexCall, DecodeFailure>)
    requires
        data@.len() >= 4,
    ensures
        ({
            let i = spec_dex_call_index(data@.subrange(0, 4));
            &&& 0 <= i <= DEX_CALL_COUNT
            &&& i == DEX_CALL_COUNT ==> r == Err::<DexCall, DecodeFailure>(
                DecodeFailure::UnknownSelector,
            )
            &&& i < DEX_CALL_COUNT && !has_args(data@, dex_arg_words(i)) ==> r == Err::<
                DexCall,
                DecodeFailure,
            >(DecodeFailure::Malformed)
            &&& i < DEX_CALL_COUNT && has_args(data@, dex_arg_words(i)) ==> (r matches Ok(c)
                && dex_call_index(c) == i && dex_args_match(data@, c))
        }),
{
    let sel: [u8; 4] = [data[0], data[1], data[2], data[3]];
    assert(sel@ =~= data@.subrange(0, 4));
    let i = find_dex_call(sel);
    if i == DEX_CALL_COUNT {
        return Err(DecodeFailure::UnknownSelector);
    }
    let words = dex_arg_words_of(i);
    if data.len() < 4 + 32 * words {
        return Err(DecodeFailure::Malformed);
    }
    Ok(build_dex_call(data, i))
}

/// Whether `r` is the outcome of a call whose method returned `res`, a `uint256`.
pub open spec fn uint_outcome(res: Result<U256>, r: PrecompileOutcome) -> bool {
    match res {
        Ok(v) => returns_data(r, spec_word_bytes(v.value())),
        Err(e) => is_error_outcome(r, e),
    }
}

/// Whether `r` is the outcome of a call whose method returned `res`, an address.
pub open spec fn address_outcome(res: Result<Address>, r: PrecompileOutcome) -> bool {
    match res {
        Ok(a) => returns_data(r, spec_address_word(a@)),
        Err(e) => is_error_outcome(r, e),
    }
}

/// Whether `r` is the outcome of a call whose method returned `res`, two `uint256`s.
pub open spec fn pair_outcome(res: Result<(U256, U256)>, r: PrecompileOutcome) -> bool {
    match res {
        Ok((a, b)) => returns_data(r, spec_word_bytes(a.value()) + spec_word_bytes(b.value())),
        Err(e) => is_error_outcome(r, e),
    }
}

/// Whether a DEX call changes state.
pub open spec fn is_dex_mutating(c: DexCall) -> bool {
    c is InitializeBaseToken || c is AddLiquidity || c is RemoveLiquidity
        || c is SwapExactTokensForTokens
}

impl BaseDex {
    /// Whether the call `c` may be made on the DEX `self` over `tokens`: a first deposit into a
    /// pool whose amounts multiply to `2^256 - 1` is excluded, as the liquidity it would mint
    /// cannot be computed.
    pub open spec fn spec_dex_call_allowed(&self, tokens: &B20Tokens, c: DexCall) -> bool {
        match c {
            DexCall::AddLiquidity { token, amount_token, amount_base, .. } => (spec_validate_pool_token(
                tokens,
                token,
            ) is Ok && spec_is_b20(tokens, spec_base_usd()) && self.total_supply.get(
                token@,
            ).value() == 0) ==> amount_token.value() * amount_base.value() != word_modulus()
                - 1,
            _ => true,
        }
    }

    /// How the call `c` from `sender` on the DEX `self` over `old_tokens` ends with outcome
    /// `r`, DEX `new` and tokens `new_tokens`: a view returns the ABI encoding of its value and
    /// changes nothing; a state-changing call made statically reverts with
    /// `StaticCallNotAllowed`; any other call does what its method does.
    pub open spec fn spec_dex_executed(
        &self,
        new: &BaseDex,
        old_tokens: &B20Tokens,
        new_tokens: &B20Tokens,
        registry: &B403Registry,
        c: DexCall,
        sender: Address,
        env: CallEnv,
        r: PrecompileOutcome,
    ) -> bool {
        if !is_dex_mutating(c) {
            &&& *new == *self
            &&& *new_tokens == *old_tokens
            &&& match c {
                DexCall::BaseToken => returns_data(r, spec_address_word(spec_base_usd())),
                DexCall::FeeNumerator => returns_data(r, spec_word_bytes(FEE_NUMERATOR as nat)),
                DexCall::FeeDenominator => returns_data(r, spec_word_bytes(FEE_DENOMINATOR as nat)),
                DexCall::MinimumLiquidity => returns_data(r, spec_word_bytes(MINIMUM_LIQUIDITY as nat)),
                DexCall::GetPool { token } => returns_data(
                    r,
                    spec_word_bytes(self.pool(token@).reserve_token as nat) + spec_word_bytes(
                        self.pool(token@).reserve_base as nat,
                    ),
                ),
                DexCall::Pools { token } => returns_data(
                    r,
                    spec_word_bytes(self.pool(token@).reserve_token as nat) + spec_word_bytes(
                        self.pool(token@).reserve_base as nat,
                    ),
                ),
                DexCall::TotalSupply { token } => returns_data(
                    r,
                    spec_word_bytes(self.total_supply.get(token@).value()),
                ),
                DexCall::LiquidityBalances { token, user } => returns_data(
                    r,
                    spec_word_bytes(self.liquidity_balances.get((token@, user@)).value()),
                ),
                DexCall::QuoteExactInput { token_in, token_out, amount_in } => uint_outcome(
                    match spec_validate_swap_path(old_tokens, token_in, token_out) {
                        Err(e) => Err(e),
                        Ok(_) => self.spec_quote(token_in, token_out, amount_in.value()),
                    },
                    r,
                ),
                _ => false,
            }
        } else if env.is_static {
            &&& *new == *self
            &&& *new_tokens == *old_tokens
            &&& reverts_with(r, spec_static_call_revert())
        } else {
            match c {
                DexCall::InitializeBaseToken => exists|res: Result<Address>|
                    self.post_initialize_base_token(new, sender, old_tokens, new_tokens, res)
                        && address_outcome(res, r),
                DexCall::AddLiquidity { token, amount_token, amount_base, to } => exists|
                    res: Result<U256>,
                |
                    self.post_add_liquidity(
                        new,
                        old_tokens,
                        new_tokens,
                        registry,
                        sender,
                        token,
                        amount_token,
                        amount_base,
                        to,
                        res,
                    ) && uint_outcome(res, r),
                DexCall::RemoveLiquidity { token, liquidity, to } => exists|
                    res: Result<(U256, U256)>,
                |
                    self.post_remove_liquidity(
                        new,
                        old_tokens,
                        new_tokens,
                        registry,
                        sender,
                        token,
                        liquidity,
                        to,
                        res,
                    ) && pair_outcome(res, r),
                DexCall::SwapExactTokensForTokens {
                    token_in,
                    token_out,
                    amount_in,
                    min_amount_out,
                    to,
                } => exists|res: Result<U256>|
                    self.post_swap_exact_tokens_for_tokens(
                        new,
                        old_tokens,
                        new_tokens,
                        registry,
                        sender,
                        token_in,
                        token_out,
                        amount_in,
                        min_amount_out,
                        to,
                        res,
                    ) && uint_outcome(res, r),
                _ => false,
            }
        }
    }

    /// The outcome of a call that returned `res`, a `uint256`.
    fn uint_call_outcome(res: Result<U256>) -> (r: PrecompileOutcome)
        ensures
            uint_outcome(res, r),
    {
        match res {
            Ok(v) => PrecompileOutcome::Success(0, encode_word(v)),
            Err(e) => into_precompile_result(e, 0, 0),
        }
    }

    /// The ABI encoding of the reserves of `token`'s pool (two words).
    fn encode_pool(&self, token: &Address) -> (r: Vec<u8>)
        ensures
            r@ == spec_word_bytes(self.pool(token@).reserve_token as nat) + spec_word_bytes(
                self.pool(token@).reserve_base as nat,
            ),
    {
        let pool = self.pools.read(token);
        let mut out: Vec<u8> = Vec::new();
        append_word(&mut out, U256::from_u128(pool.reserve_token));
        append_word(&mut out, U256::from_u128(pool.reserve_base));
        assert(out@ =~= spec_word_bytes(pool.reserve_token as nat) + spec_word_bytes(
            pool.reserve_base as nat,
        ));
        out
    }

    /// Runs the decoded call `c` from `sender`.
    pub fn execute(
        &mut self,
        tokens: &mut B20Tokens,
        registry: &B403Registry,
        c: DexCall,
        sender: Address,
        env: &CallEnv,
    ) -> (r: PrecompileOutcome)
        requires
            old(self).spec_dex_call_allowed(old(tokens), c),
        ensures
            old(self).spec_dex_executed(
                final(self),
                old(tokens),
                final(tokens),
                registry,
                c,
                sender,
                *env,
                r,
            ),
    {
        if is_dex_mutating_call(&c) && env.is_static {
            let data = selector("StaticCallNotAllowed()");
            return PrecompileOutcome::Revert(0, vstd::slice::slice_to_vec(&data));
        }
        match c {
            DexCall::BaseToken => {
                let mut out: Vec<u8> = Vec::new();
                append_address(&mut out, &self.base_token());
                assert(out@ =~= spec_address_word(spec_base_usd()));
                PrecompileOutcome::Success(0, out)
            },
            DexCall::FeeNumerator => PrecompileOutcome::Success(0,
                encode_word(U256::from_u64(FEE_NUMERATOR)),
            ),
            DexCall::FeeDenominator => PrecompileOutcome::Success(0,
                encode_word(U256::from_u64(FEE_DENOMINATOR)),
            ),
            DexCall::MinimumLiquidity => PrecompileOutcome::Success(0,
                encode_word(U256::from_u64(MINIMUM_LIQUIDITY)),
            ),
            DexCall::GetPool { token } => PrecompileOutcome::Success(0, self.encode_pool(&token)),
            DexCall::Pools { token } => PrecompileOutcome::Success(0, self.encode_pool(&token)),
            DexCall::TotalSupply { token } => PrecompileOutcome::Success(0,
                encode_word(self.total_supply.read(&token)),
            ),
            DexCall::LiquidityBalances { token, user } => PrecompileOutcome::Success(0,
                encode_word(self.liquidity_balances.read(&(token, user))),
            ),
            DexCall::QuoteExactInput { token_in, token_out, amount_in } => {
                let res = self.quote_exact_input(tokens, token_in, token_out, amount_in);
                BaseDex::uint_call_outcome(res)
            },
            DexCall::InitializeBaseToken => {
                let res = self.initialize_base_token(sender, tokens);
                let ghost res_g = res;
                let r = match res {
                    Ok(a) => {
                        let mut out: Vec<u8> = Vec::new();
                        append_address(&mut out, &a);
                        assert(out@ =~= spec_address_word(a@));
                        PrecompileOutcome::Success(0, out)
                    },
                    Err(e) => into_precompile_result(e, 0, 0),
                };
                proof {
                    assert(old(self).post_initialize_base_token(
                        &*self,
                        sender,
                        old(tokens),
                        &*tokens,
                        res_g,
                    ) && address_outcome(res_g, r));
                }
                r
            },
            DexCall::AddLiquidity { token, amount_token, amount_base, to } => {
                let res = self.add_liquidity(
                    tokens,
                    registry,
                    sender,
                    token,
                    amount_token,
                    amount_base,
                    to,
                );
                proof {
                    assert(old(self).post_add_liquidity(
                        &*self,
                        old(tokens),
                        &*tokens,
                        registry,
                        sender,
                        token,
                        amount_token,
                        amount_base,
                        to,
                        res,
                    ));
                }
                BaseDex::uint_call_outcome(res)
            },
            DexCall::RemoveLiquidity { token, liquidity, to } => {
                let res = self.remove_liquidity(tokens, registry, sender, token, liquidity, to);
                let ghost res_g = res;
                let r = match res {
                    Ok((a, b)) => {
                        let mut out: Vec<u8> = Vec::new();
                        append_word(&mut out, a);
                        append_word(&mut out, b);
                        assert(out@ =~= spec_word_bytes(a.value()) + spec_word_bytes(b.value()));
                        PrecompileOutcome::Success(0, out)
                    },
                    Err(e) => into_precompile_result(e, 0, 0),
                };
                proof {
                    assert(old(self).post_remove_liquidity(
                        &*self,
                        old(tokens),
                        &*tokens,
                        registry,
                        sender,
                        token,
                        liquidity,
                        to,
                        res_g,
                    ) && pair_outcome(res_g, r));
                }
                r
            },
            DexCall::SwapExactTokensForTokens { token_in, token_out, amount_in, min_amount_out, to } => {
                let res = self.swap_exact_tokens_for_tokens(
                    tokens,
                    registry,
                    sender,
                    token_in,
                    token_out,
                    amount_in,
                    min_amount_out,
                    to,
                );
                BaseDex::uint_call_outcome(res)
            },
        }
    }

    /// How a call with `calldata` from `sender` on the DEX `self` over `old_tokens` ends, with
    /// outcome `r`, DEX `new` and tokens `new_tokens`.
    ///
    /// The calldata gas is charged first (out of gas when it exceeds the limit); calldata
    /// shorter than a selector reverts with empty data; an unknown selector fails with
    /// `UnknownFunctionSelector`; cut-short arguments revert with empty data; otherwise the
    /// decoded call runs.
    pub open spec fn spec_dex_call(
        &self,
        new: &BaseDex,
        old_tokens: &B20Tokens,
        new_tokens: &B20Tokens,
        registry: &B403Registry,
        calldata: Seq<u8>,
        sender: Address,
        env: CallEnv,
        r: PrecompileOutcome,
    ) -> bool {
        let sel = calldata.subrange(0, 4);
        let i = spec_dex_call_index(sel);
        if spec_input_cost(calldata.len()) > env.gas_limit {
            *new == *self && *new_tokens == *old_tokens && r == PrecompileOutcome::OutOfGas
        } else if calldata.len() < 4 {
            *new == *self && *new_tokens == *old_tokens && reverts_with(r, Seq::empty())
        } else if i == DEX_CALL_COUNT {
            *new == *self && *new_tokens == *old_tokens && reverts_with(
                r,
                spec_unknown_selector_revert(sel),
            )
        } else if !has_args(calldata, dex_arg_words(i)) {
            *new == *self && *new_tokens == *old_tokens && reverts_with(r, Seq::empty())
        } else {
            exists|c: DexCall|
                dex_call_index(c) == i && dex_args_match(calldata, c) && #[trigger] self.spec_dex_executed(
                    new,
                    old_tokens,
                    new_tokens,
                    registry,
                    c,
                    sender,
                    env,
                    r,
                )
        }
    }

    /// Handles a call to the DEX with `calldata` from `msg_sender`. An outcome that returns
    /// or reverts reports the gas charged here: the calldata cost.
    pub fn call(
        &mut self,
        tokens: &mut B20Tokens,
        registry: &B403Registry,
        calldata: &[u8],
        msg_sender: Address,
        env: &CallEnv,
    ) -> (r: PrecompileOutcome)
        requires
            forall|c: DexCall|
                #![trigger dex_args_match(calldata@, c)]
                calldata@.len() >= 4 && dex_call_index(c) == spec_dex_call_index(
                    calldata@.subrange(0, 4),
                ) && dex_args_match(calldata@, c) ==> old(self).spec_dex_call_allowed(
                    old(tokens),
                    c,
                ),
        ensures
            exists|o: PrecompileOutcome|
                old(self).spec_dex_call(
                    final(self),
                    old(tokens),
                    final(tokens),
                    registry,
                    calldata@,
                    msg_sender,
                    *env,
                    o,
                ) && r == #[trigger] spec_with_gas(o, spec_input_cost(calldata@.len()) as u64),
    {
        let cost = input_cost(calldata.len());
        let o = self.run_call(tokens, registry, calldata, msg_sender, env);
        let r = with_gas(o, cost);
        proof {
            assert(old(self).spec_dex_call(&*self, old(tokens), &*tokens, registry, calldata@, msg_sender, *env, o));
            assert(cost == spec_input_cost(calldata@.len()) as u64);
            assert(r == spec_with_gas(o, spec_input_cost(calldata@.len()) as u64));
        }
        r
    }

    /// Handles a call as [`Self::call`] does, reporting no gas used.
    fn run_call(
        &mut self,
        tokens: &mut B20Tokens,
        registry: &B403Registry,
        calldata: &[u8],
        msg_sender: Address,
        env: &CallEnv,
    ) -> (r: PrecompileOutcome)
        requires
            forall|c: DexCall|
                #![trigger dex_args_match(calldata@, c)]
                calldata@.len() >= 4 && dex_call_index(c) == spec_dex_call_index(
                    calldata@.subrange(0, 4),
                ) && dex_args_match(calldata@, c) ==> old(self).spec_dex_call_allowed(
                    old(tokens),
                    c,
                ),
        ensures
            old(self).spec_dex_call(
                final(self),
                old(tokens),
                final(tokens),
                registry,
                calldata@,
                msg_sender,
                *env,
                r,
            ),
    {
        let mut gas = env.gas_limit;
        if deduct_gas(&mut gas, input_cost(calldata.len())).is_err() {
            return PrecompileOutcome::OutOfGas;
        }
        if calldata.len() < 4 {
            return PrecompileOutcome::Revert(0, Vec::new());
        }
        let sel: [u8; 4] = [calldata[0], calldata[1], calldata[2], calldata[3]];
        assert(sel@ =~= calldata@.subrange(0, 4));
        match decode_dex_call(calldata) {
            Err(DecodeFailure::UnknownSelector) => into_precompile_result(BasePrecompileError::UnknownFunctionSelector(sel), 0, 0),
            Err(DecodeFailure::Malformed) => PrecompileOutcome::Revert(0, Vec::new()),
            Ok(c) => {
                let r = self.execute(tokens, registry, c, msg_sender, env);
                proof {
                    assert(old(self).spec_dex_executed(
                        &*self,
                        old(tokens),
                        &*tokens,
                        registry,
                        c,
                        msg_sender,
                        *env,
                        r,
                    ));
                }
                r
            },
        }
    }
}

/// Whether a DEX call changes state.
fn is_dex_mutating_call(c: &DexCall) -> (r: bool)
    ensures
        r == is_dex_mutating(*c),
{
    match c {
        DexCall::InitializeBaseToken | DexCall::AddLiquidity { .. } | DexCall::RemoveLiquidity {
            ..
        } | DexCall::SwapExactTokensForTokens { .. } => true,
        _ => false,
    }
}

} // verus!

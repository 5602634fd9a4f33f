//! The Base DEX: constant-product pools of B20 tokens against Base USD.
//!
//! Each non-base token has one pool holding reserves of the token and of Base USD. Swaps pay
//! a 0.30% fee (Uniswap V2 pricing); swaps between two non-base tokens route through Base USD.

pub mod dispatch;

use vstd::prelude::*;

use crate::address::{path_usd_address, spec_base_usd, spec_has_b20_prefix};
use crate::b20::B20Token;
use crate::b20_factory::{spec_is_b20, B20Factory, B20Tokens};
use crate::b403_registry::B403Registry;
use crate::error::{b20_err, dex_err, fails_with, overflow, B20Error, BaseDexError, BasePrecompileError, Result};
use crate::primitives::Address;
use crate::storage::mapping::{Mapping, StorageValue};
use crate::word::{self, pow_128, word_modulus, U256};

verus! {

/// Swap fee numerator (0.30% fee, as in Uniswap V2).
pub const FEE_NUMERATOR: u64 = 997;

/// Swap fee denominator.
pub const FEE_DENOMINATOR: u64 = 1000;

/// Liquidity locked forever when a pool is first funded.
pub const MINIMUM_LIQUIDITY: u64 = 1000;

/// Reserves of a token/Base USD pool.
#[derive(Clone, Copy, Debug, PartialEq, Eq, Structural)]
pub struct Pool {
    /// Reserve of the non-base B20 token.
    pub reserve_token: u128,
    /// Reserve of Base USD.
    pub reserve_base: u128,
}

impl StorageValue for Pool {
    open spec fn spec_zero() -> Pool {
        Pool { reserve_token: 0, reserve_base: 0 }
    }

    fn zero_value() -> (r: Pool) {
        Pool { reserve_token: 0, reserve_base: 0 }
    }

    open spec fn weight(self) -> nat {
        0
    }

    proof fn lemma_zero_weight() {
    }
}

/// The output of an exact-input swap of `amount_in` against reserves `reserve_in` and
/// `reserve_out`: `amount_in * 997 * reserve_out / (reserve_in * 1000 + amount_in * 997)`,
/// rounded down.
pub open spec fn swap_output(amount_in: nat, reserve_in: nat, reserve_out: nat) -> nat {
    (amount_in * 997 * reserve_out) / (reserve_in * 1000 + amount_in * 997)
}

/// The result of [`amount_out`]: `InvalidAmount` for a zero input, `InsufficientLiquidity`
/// for an empty reserve, an overflow panic when an intermediate product leaves the word, and
/// `InsufficientOutputAmount` when the output rounds down to zero.
pub open spec fn spec_amount_out(amount_in: nat, reserve_in: nat, reserve_out: nat) -> Result<U256> {
    if amount_in == 0 {
        Err(dex_err(BaseDexError::InvalidAmount))
    } else if reserve_in == 0 || reserve_out == 0 {
        Err(dex_err(BaseDexError::InsufficientLiquidity))
    } else if amount_in * 997 >= word_modulus() || amount_in * 997 * reserve_out >= word_modulus()
        || reserve_in * 1000 >= word_modulus() || reserve_in * 1000 + amount_in * 997
        >= word_modulus() {
        Err(overflow())
    } else if swap_output(amount_in, reserve_in, reserve_out) == 0 {
        Err(dex_err(BaseDexError::InsufficientOutputAmount))
    } else {
        Ok(U256::from_value(swap_output(amount_in, reserve_in, reserve_out)))
    }
}

/// Fails with `InvalidAmount` when `amount` is zero.
pub fn validate_amount(amount: U256) -> (r: Result<()>)
    ensures
        r is Err <==> amount.value() == 0,
        r matches Err(e) ==> e == dex_err(BaseDexError::InvalidAmount),
{
    if amount.is_zero() {
        return Err(BasePrecompileError::BaseDex(BaseDexError::invalid_amount()));
    }
    Ok(())
}

/// The output of a Uniswap V2 style exact-input swap (see [`spec_amount_out`]).
pub fn amount_out(amount_in: U256, reserve_in: U256, reserve_out: U256) -> (r: Result<U256>)
    ensures
        r == spec_amount_out(amount_in.value(), reserve_in.value(), reserve_out.value()),
{
    validate_amount(amount_in)?;
    if reserve_in.is_zero() || reserve_out.is_zero() {
        return Err(BasePrecompileError::BaseDex(BaseDexError::insufficient_liquidity()));
    }
    let amount_in_with_fee = match word::checked_mul(amount_in, U256::from_u64(FEE_NUMERATOR)) {
        Some(v) => v,
        None => {
            return Err(BasePrecompileError::under_overflow());
        },
    };
    let numerator = match word::checked_mul(amount_in_with_fee, reserve_out) {
        Some(v) => v,
        None => {
            return Err(BasePrecompileError::under_overflow());
        },
    };
    let denominator = match word::checked_mul(reserve_in, U256::from_u64(FEE_DENOMINATOR)) {
        Some(v) => match word::checked_add(v, amount_in_with_fee) {
            Some(d) => d,
            None => {
                return Err(BasePrecompileError::under_overflow());
            },
        },
        None => {
            return Err(BasePrecompileError::under_overflow());
        },
    };
    let out = match word::checked_div(numerator, denominator) {
        Some(v) => v,
        None => {
            return Err(BasePrecompileError::under_overflow());
        },
    };
    if out.is_zero() {
        return Err(BasePrecompileError::BaseDex(BaseDexError::insufficient_output_amount()));
    }
    proof {
        word::lemma_word_of_value(out);
    }
    Ok(out)
}

/// `r` is the integer square root of `v`: `r * r <= v < (r + 1) * (r + 1)`.
pub open spec fn is_isqrt(r: nat, v: nat) -> bool {
    r * r <= v < (r + 1) * (r + 1)
}

/// One Babylonian step from `y` lands at or above the integer square root of `v`.
proof fn lemma_babylonian_step_above(v: nat, y: nat, z: nat)
    requires
        y > 0,
        z == (v / y + y) / 2,
    ensures
        v < (z + 1) * (z + 1),
{
    let a = v / y;
    let rem = v % y;
    vstd::arithmetic::div_mod::lemma_fundamental_div_mod(v as int, y as int);
    vstd::arithmetic::div_mod::lemma_mod_bound(v as int, y as int);
    assert(v < (z + 1) * (z + 1)) by (nonlinear_arith)
        requires
            v == y * a + rem,
            rem < y,
            y > 0,
            a >= 0,
            a + y <= 2 * z + 1,
    {
        assert(v < (a + 1) * y);
        assert((a + 1) * y <= (2 * z + 2 - y) * y);
        assert((2 * z + 2 - y) * y == (z + 1) * (z + 1) - (z + 1 - y) * (z + 1 - y));
    }
}

/// A Babylonian step from a `y` above the square root strictly decreases.
proof fn lemma_babylonian_step_decreases(v: nat, y: nat, z: nat)
    requires
        y > 0,
        z == (v / y + y) / 2,
        y * y > v,
    ensures
        z < y,
{
    let a = v / y;
    vstd::arithmetic::div_mod::lemma_fundamental_div_mod(v as int, y as int);
    vstd::arithmetic::div_mod::lemma_mod_bound(v as int, y as int);
    assert(a < y) by (nonlinear_arith)
        requires
            v == y * a + v % y,
            v % y >= 0,
            y * y > v,
            y > 0,
            a >= 0,
    ;
}

/// `v / z + z` stays within `v + 1` for `1 <= z <= v`.
proof fn lemma_babylonian_sum_bound(v: nat, z: nat)
    requires
        1 <= z <= v,
    ensures
        v / z + z <= v + 1,
{
    let a = v / z;
    vstd::arithmetic::div_mod::lemma_fundamental_div_mod(v as int, z as int);
    vstd::arithmetic::div_mod::lemma_mod_bound(v as int, z as int);
    assert(a <= v + 1 - z) by (nonlinear_arith)
        requires
            v == z * a + v % z,
            v % z >= 0,
            1 <= z <= v,
            a >= 0,
    {
        assert((v + 1 - z) * z - v == (z - 1) * (v - z));
        assert((z - 1) * (v - z) >= 0);
        assert(z * a <= v);
        assert(z * a <= (v + 1 - z) * z);
    }
}

/// The integer square root of `value`, by the Babylonian method. `2^256 - 1` is excluded:
/// there the first step wraps around to zero and divides by it.
pub fn sqrt(value: U256) -> (r: U256)
    requires
        value.value() < word_modulus() - 1,
    ensures
        is_isqrt(r.value(), value.value()),
{
    if value.is_zero() {
        assert(is_isqrt(0, 0)) by (nonlinear_arith);
        return value;
    }
    let ghost v = value.value();
    let two = U256::from_u64(2);
    let one = U256::one();
    let mut z = word::div(word::wrapping_add(value, one), two);
    proof {
        vstd::arithmetic::div_mod::lemma_small_mod((v + 1) as nat, word_modulus());
        assert(v / v == 1) by {
            vstd::arithmetic::div_mod::lemma_div_by_self(v as int);
        }
    }
    let mut y = value;
    assert(v < (v + 1) * (v + 1)) by (nonlinear_arith)
        requires
            v >= 1,
    ;
    while word::lt(z, y)
        invariant
            v == value.value(),
            two.value() == 2,
            1 <= v < word_modulus() - 1,
            1 <= y.value() <= v,
            z.value() == (v / y.value() + y.value()) / 2,
            v < (y.value() + 1) * (y.value() + 1),
        decreases y.value(),
    {
        proof {
            lemma_babylonian_step_above(v, y.value(), z.value());
            if z.value() == 0 {
                assert(v < 1) by (nonlinear_arith)
                    requires
                        v < (z.value() + 1) * (z.value() + 1),
                        z.value() == 0,
                ;
            }
            lemma_babylonian_sum_bound(v, z.value());
        }
        y = z;
        let q = word::div(value, z);
        let s = word::wrapping_add(q, z);
        proof {
            vstd::arithmetic::div_mod::lemma_small_mod((q.value() + z.value()) as nat, word_modulus());
        }
        z = word::div(s, two);
    }
    proof {
        if y.value() * y.value() > v {
            lemma_babylonian_step_decreases(v, y.value(), z.value());
        }
    }
    y
}

/// Adds `amount` to a `u128` reserve; fails with an overflow panic when the amount or the
/// sum does not fit in `u128`.
pub fn add_reserve(reserve: u128, amount: U256) -> (r: Result<u128>)
    ensures
        reserve + amount.value() < pow_128() ==> r == Ok::<u128, BasePrecompileError>(
            (reserve + amount.value()) as u128,
        ),
        reserve + amount.value() >= pow_128() ==> r == Err::<u128, BasePrecompileError>(overflow()),
{
    let amount = match amount.to_u128() {
        Some(v) => v,
        None => {
            return Err(BasePrecompileError::under_overflow());
        },
    };
    match reserve.checked_add(amount) {
        Some(v) => Ok(v),
        None => Err(BasePrecompileError::under_overflow()),
    }
}

/// Subtracts `amount` from a `u128` reserve; fails with an overflow panic when the amount does
/// not fit in `u128`, and with `InsufficientLiquidity` when it exceeds the reserve.
pub fn sub_reserve(reserve: u128, amount: U256) -> (r: Result<u128>)
    ensures
        amount.value() >= pow_128() ==> r == Err::<u128, BasePrecompileError>(overflow()),
        amount.value() < pow_128() && amount.value() > reserve ==> r == Err::<
            u128,
            BasePrecompileError,
        >(dex_err(BaseDexError::InsufficientLiquidity)),
        amount.value() <= reserve ==> r == Ok::<u128, BasePrecompileError>(
            (reserve - amount.value()) as u128,
        ),
{
    let amount = match amount.to_u128() {
        Some(v) => v,
        None => {
            return Err(BasePrecompileError::under_overflow());
        },
    };
    match reserve.checked_sub(amount) {
        Some(v) => Ok(v),
        None => Err(BasePrecompileError::BaseDex(BaseDexError::insufficient_liquidity())),
    }
}


/// A swap never lowers a pool's constant product and never drains the output reserve: when
/// [`amount_out`] quotes `out` for `amount_in` against `reserve_in` and `reserve_out`, then
/// `out < reserve_out` and `(reserve_in + amount_in) * (reserve_out - out) >= reserve_in *
/// reserve_out`.
pub proof fn lemma_swap_keeps_constant_product(amount_in: nat, reserve_in: nat, reserve_out: nat)
    requires
        spec_amount_out(amount_in, reserve_in, reserve_out) is Ok,
    ensures
        ({
            let out = spec_amount_out(amount_in, reserve_in, reserve_out)->Ok_0.value();
            &&& out < reserve_out
            &&& (reserve_in + amount_in) * (reserve_out - out) >= reserve_in * reserve_out
        }),
{
    let n = amount_in * 997 * reserve_out;
    let d = reserve_in * 1000 + amount_in * 997;
    let out = swap_output(amount_in, reserve_in, reserve_out);
    assert(d > 0) by (nonlinear_arith)
        requires
            reserve_in > 0,
            d == reserve_in * 1000 + amount_in * 997,
    ;
    vstd::arithmetic::div_mod::lemma_fundamental_div_mod(n as int, d as int);
    vstd::arithmetic::div_mod::lemma_mod_bound(n as int, d as int);
    assert(out <= n) by {
        vstd::arithmetic::div_mod::lemma_div_is_ordered_by_denominator(n as int, 1, d as int);
    }
    word::lemma_from_value(out);
    assert((reserve_in + amount_in) * out <= amount_in * reserve_out) by (nonlinear_arith)
        requires
            d * out + n % d == n,
            n % d >= 0,
            n == amount_in * 997 * reserve_out,
            d == reserve_in * 1000 + amount_in * 997,
            out >= 0,
    {
        assert(997 * (reserve_in + amount_in) * out <= d * out);
        assert(d * out <= n);
    }
    assert(out < reserve_out && (reserve_in + amount_in) * (reserve_out - out) >= reserve_in
        * reserve_out) by (nonlinear_arith)
        requires
            (reserve_in + amount_in) * out <= amount_in * reserve_out,
            reserve_in > 0,
            reserve_out > 0,
            out >= 0,
    {
        assert(reserve_in * reserve_out > 0);
        assert((reserve_in + amount_in) * out < (reserve_in + amount_in) * reserve_out);
        assert((reserve_in + amount_in) * (reserve_out - out) == (reserve_in + amount_in)
            * reserve_out - (reserve_in + amount_in) * out);
    }
}


/// The integer square root of `n`.
pub open spec fn isqrt(n: nat) -> nat {
    choose|r: nat| is_isqrt(r, n)
}

/// The integer square root is unique.
proof fn lemma_isqrt_unique(a: nat, b: nat, v: nat)
    requires
        is_isqrt(a, v),
        is_isqrt(b, v),
    ensures
        a == b,
{
    if a < b {
        assert((a + 1) * (a + 1) <= b * b) by (nonlinear_arith)
            requires
                a + 1 <= b,
        ;
    }
    if b < a {
        assert((b + 1) * (b + 1) <= a * a) by (nonlinear_arith)
            requires
                b + 1 <= a,
        ;
    }
}

/// The address of the Base DEX precompile, `0x...0dE7`.
pub fn base_dex_address() -> (r: Address)
    ensures
        r@ == Seq::new(18, |i: int| 0u8).push(0x0du8).push(0xe7u8),
{
    let r = Address::from_bytes([0, 0, 0, 0, 0, 0, 0, 0, 0, 0, 0, 0, 0, 0, 0, 0, 0, 0, 0x0d, 0xe7]);
    assert(r@ =~= Seq::new(18, |i: int| 0u8).push(0x0du8).push(0xe7u8));
    r
}

/// The Base USD token address, the quote token of every pool.
pub fn base_usd_address() -> (r: Address)
    ensures
        r@ == spec_base_usd(),
        spec_has_b20_prefix(r@),
{
    path_usd_address()
}

/// Events of the Base DEX.
#[derive(Clone, Copy, Debug)]
pub enum BaseDexEvent {
    /// Liquidity was added.
    Mint {
        sender: Address,
        token: Address,
        amount_token: U256,
        amount_base: U256,
        liquidity: U256,
        to: Address,
    },
    /// Liquidity was removed.
    Burn {
        sender: Address,
        token: Address,
        amount_token: U256,
        amount_base: U256,
        liquidity: U256,
        to: Address,
    },
    /// Tokens were swapped.
    Swap {
        sender: Address,
        token_in: Address,
        token_out: Address,
        amount_in: U256,
        amount_out: U256,
        to: Address,
    },
}

/// The storage of the Base DEX singleton.
pub struct BaseDex {
    /// The DEX account's address.
    pub address: Address,
    /// Whether the DEX account was materialized.
    pub initialized: bool,
    /// Pool reserves by non-base token.
    pub pools: Mapping<Address, Pool>,
    /// LP token supply by non-base token.
    pub total_supply: Mapping<Address, U256>,
    /// LP balances by (token, holder).
    pub liquidity_balances: Mapping<(Address, Address), U256>,
    /// Emitted events, oldest first.
    pub events: Vec<BaseDexEvent>,
}

/// `Ok(())` when a check on `tokens` passed, its error otherwise.
pub open spec fn check(ok: bool, e: BaseDexError) -> Result<()> {
    if ok {
        Ok(())
    } else {
        Err(dex_err(e))
    }
}

/// The token checks of a pool token: not Base USD (`IdenticalTokens`), deployed
/// (`InvalidToken`).
pub open spec fn spec_validate_pool_token(tokens: &B20Tokens, token: Address) -> Result<()> {
    if token@ == spec_base_usd() {
        Err(dex_err(BaseDexError::IdenticalTokens))
    } else {
        check(spec_is_b20(tokens, token@), BaseDexError::InvalidToken)
    }
}

/// The checks of a swap path: distinct tokens, not Base USD on both sides, each side a
/// deployed pool token or Base USD.
pub open spec fn spec_validate_swap_path(tokens: &B20Tokens, token_in: Address, token_out: Address) -> Result<()> {
    let busd = spec_base_usd();
    if token_in@ == token_out@ {
        Err(dex_err(BaseDexError::IdenticalTokens))
    } else if token_in@ == busd && token_out@ == busd {
        Err(dex_err(BaseDexError::InvalidSwapPath))
    } else {
        let side_in = if token_in@ != busd {
            spec_validate_pool_token(tokens, token_in)
        } else {
            check(spec_is_b20(tokens, token_in@), BaseDexError::InvalidToken)
        };
        match side_in {
            Err(e) => Err(e),
            Ok(_) => if token_out@ != busd {
                spec_validate_pool_token(tokens, token_out)
            } else {
                check(spec_is_b20(tokens, token_out@), BaseDexError::InvalidToken)
            },
        }
    }
}

impl BaseDex {
    /// The reserves of the pool of `token`.
    pub open spec fn pool(&self, token: Seq<u8>) -> Pool {
        self.pools.get(token)
    }

    /// The quote of an exact-input swap (see [`BaseDex::quote_exact_input`]), once the path
    /// passed its checks.
    pub open spec fn spec_quote(&self, token_in: Address, token_out: Address, amount_in: nat) -> Result<U256> {
        let busd = spec_base_usd();
        if token_in@ == busd {
            let p = self.pool(token_out@);
            spec_amount_out(amount_in, p.reserve_base as nat, p.reserve_token as nat)
        } else if token_out@ == busd {
            let p = self.pool(token_in@);
            spec_amount_out(amount_in, p.reserve_token as nat, p.reserve_base as nat)
        } else {
            let p1 = self.pool(token_in@);
            match spec_amount_out(amount_in, p1.reserve_token as nat, p1.reserve_base as nat) {
                Err(e) => Err(e),
                Ok(base_out) => {
                    let p2 = self.pool(token_out@);
                    spec_amount_out(base_out.value(), p2.reserve_base as nat, p2.reserve_token as nat)
                },
            }
        }
    }

    /// The DEX storage before anything was written.
    pub fn new() -> (r: BaseDex)
        ensures
            r.address@ == Seq::new(18, |i: int| 0u8).push(0x0du8).push(0xe7u8),
            !r.initialized,
            r.pools@ == Map::<Seq<u8>, Pool>::empty(),
            r.total_supply@ == Map::<Seq<u8>, U256>::empty(),
            r.liquidity_balances@ == Map::<(Seq<u8>, Seq<u8>), U256>::empty(),
            r.events@ == Seq::<BaseDexEvent>::empty(),
    {
        BaseDex {
            address: base_dex_address(),
            initialized: false,
            pools: Mapping::new(),
            total_supply: Mapping::new(),
            liquidity_balances: Mapping::new(),
            events: Vec::new(),
        }
    }

    /// The Base USD token address.
    pub fn base_token(&self) -> (r: Address)
        ensures
            r@ == spec_base_usd(),
    {
        base_usd_address()
    }

    /// Materializes the DEX account when it was not yet.
    pub fn ensure_initialized(&mut self) -> (r: Result<()>)
        ensures
            r is Ok,
            *final(self) == (BaseDex { initialized: true, ..*old(self) }),
    {
        if !self.initialized {
            self.initialized = true;
        }
        Ok(())
    }

    /// How the DEX `new`, the tokens and the result `r` of [`BaseDex::initialize_base_token`] relate to
    /// the DEX `self` it was called on.
    pub open spec fn post_initialize_base_token(
        &self,
        new: &BaseDex,
        msg_sender: Address,
        old_tokens: &B20Tokens,
        new_tokens: &B20Tokens,
        r: Result<Address>,
    ) -> bool {
        &&& *new == (BaseDex { initialized: true, ..*self })
        &&& r matches Ok(a) && a@ == spec_base_usd()
        &&& spec_is_b20(new_tokens, spec_base_usd())
        &&& new_tokens.hardfork() == old_tokens.hardfork()
        &&& spec_is_b20(old_tokens, spec_base_usd()) ==> new_tokens@ == old_tokens@
        &&& !spec_is_b20(old_tokens, spec_base_usd()) ==> {
            &&& new_tokens@.dom() == old_tokens@.dom().insert(spec_base_usd())
            &&& forall|a: Seq<u8>|
                #![trigger new_tokens@[a]]
                a != spec_base_usd() && old_tokens@.contains_key(a) ==> new_tokens@[a]
                    == old_tokens@[a]
            &&& exists|t: B20Token|
                #![trigger old_tokens.holds_token(spec_base_usd(), t)]
                old_tokens.holds_token(spec_base_usd(), t) && t.initialized_into(
                    new_tokens@[spec_base_usd()],
                    msg_sender,
                    "Base USD"@,
                    "BUSD"@,
                    "USD"@,
                    msg_sender,
                )
        }
    }

    /// Deploys Base USD for local and devnet bootstrapping, with the caller as its admin; a
    /// no-op returning its address when it already exists.
    pub fn initialize_base_token(&mut self, msg_sender: Address, tokens: &mut B20Tokens) -> (r: Result<
        Address,
    >)
        ensures
            old(self).post_initialize_base_token(final(self), msg_sender, old(tokens), final(tokens), r),
    {
        self.ensure_initialized()?;
        let mut factory = B20Factory::new();
        let busd = base_usd_address();
        if factory.is_b20(tokens, busd)? {
            return Ok(busd);
        }
        let r = factory.create_token_reserved_address(
            tokens,
            busd,
            "Base USD",
            "BUSD",
            "USD",
            msg_sender,
        );
        proof {
            let t = choose|t: B20Token|
                #![trigger old(tokens).holds_token(busd@, t)]
                old(tokens).holds_token(busd@, t) && t.initialized_into(
                    tokens@[busd@],
                    msg_sender,
                    "Base USD"@,
                    "BUSD"@,
                    "USD"@,
                    msg_sender,
                );
            assert(old(tokens).holds_token(busd@, t));
        }
        r
    }

    /// Returns the pool of `token`.
    pub fn get_pool(&self, token: Address) -> (r: Result<Pool>)
        ensures
            r == Ok::<Pool, BasePrecompileError>(self.pool(token@)),
    {
        Ok(self.pools.read(&token))
    }

    /// Returns the LP supply of the pool of `token`.
    pub fn get_total_supply(&self, token: Address) -> (r: Result<U256>)
        ensures
            r == Ok::<U256, BasePrecompileError>(self.total_supply.get(token@)),
    {
        Ok(self.total_supply.read(&token))
    }

    /// Returns the LP balance of `user` in the pool of `token`.
    pub fn get_liquidity_balance(&self, token: Address, user: Address) -> (r: Result<U256>)
        ensures
            r == Ok::<U256, BasePrecompileError>(self.liquidity_balances.get((token@, user@))),
    {
        Ok(self.liquidity_balances.read(&(token, user)))
    }

    /// Fails with `InvalidToken` unless a B20 token is deployed at `token`.
    pub fn validate_b20(&self, tokens: &B20Tokens, token: Address) -> (r: Result<()>)
        ensures
            r == check(spec_is_b20(tokens, token@), BaseDexError::InvalidToken),
    {
        if !B20Factory::new().is_b20(tokens, token)? {
            return Err(BasePrecompileError::BaseDex(BaseDexError::invalid_token()));
        }
        Ok(())
    }

    /// Validates that `token` is a deployed token other than Base USD.
    pub fn validate_pool_token(&self, tokens: &B20Tokens, token: Address) -> (r: Result<()>)
        ensures
            r == spec_validate_pool_token(tokens, token),
    {
        let busd = base_usd_address();
        if token.same(&busd) {
            return Err(BasePrecompileError::BaseDex(BaseDexError::identical_tokens()));
        }
        self.validate_b20(tokens, token)
    }

    /// Validates that Base USD is deployed.
    pub fn validate_base_token(&self, tokens: &B20Tokens) -> (r: Result<()>)
        ensures
            r == check(
                spec_is_b20(tokens, spec_base_usd()),
                BaseDexError::InvalidToken,
            ),
    {
        self.validate_b20(tokens, base_usd_address())
    }
}


impl BaseDex {
    /// Validates a supported swap path (see [`spec_validate_swap_path`]).
    pub fn validate_swap_path(&self, tokens: &B20Tokens, token_in: Address, token_out: Address) -> (r:
        Result<()>)
        ensures
            r == spec_validate_swap_path(tokens, token_in, token_out),
    {
        let busd = base_usd_address();
        if token_in.same(&token_out) {
            return Err(BasePrecompileError::BaseDex(BaseDexError::identical_tokens()));
        }
        if token_in.same(&busd) && token_out.same(&busd) {
            return Err(BasePrecompileError::BaseDex(BaseDexError::invalid_swap_path()));
        }
        if !token_in.same(&busd) {
            self.validate_pool_token(tokens, token_in)?;
        } else {
            self.validate_base_token(tokens)?;
        }
        if !token_out.same(&busd) {
            self.validate_pool_token(tokens, token_out)?;
        } else {
            self.validate_base_token(tokens)?;
        }
        Ok(())
    }

    /// Quotes an exact-input swap across one or two Base USD legs: token to Base USD, Base USD
    /// to token, or token to token through Base USD.
    pub fn quote_exact_input(
        &self,
        tokens: &B20Tokens,
        token_in: Address,
        token_out: Address,
        amount_in: U256,
    ) -> (r: Result<U256>)
        ensures
            r == match spec_validate_swap_path(tokens, token_in, token_out) {
                Err(e) => Err(e),
                Ok(_) => self.spec_quote(token_in, token_out, amount_in.value()),
            },
    {
        self.validate_swap_path(tokens, token_in, token_out)?;
        let busd = base_usd_address();
        if token_in.same(&busd) {
            let pool = self.pools.read(&token_out);
            return amount_out(
                amount_in,
                U256::from_u128(pool.reserve_base),
                U256::from_u128(pool.reserve_token),
            );
        }
        if token_out.same(&busd) {
            let pool = self.pools.read(&token_in);
            return amount_out(
                amount_in,
                U256::from_u128(pool.reserve_token),
                U256::from_u128(pool.reserve_base),
            );
        }
        let first_pool = self.pools.read(&token_in);
        let base_out = amount_out(
            amount_in,
            U256::from_u128(first_pool.reserve_token),
            U256::from_u128(first_pool.reserve_base),
        )?;
        let second_pool = self.pools.read(&token_out);
        amount_out(
            base_out,
            U256::from_u128(second_pool.reserve_base),
            U256::from_u128(second_pool.reserve_token),
        )
    }

    /// Pulls `amount` of `token` from `from` into the DEX (a system transfer, which needs no
    /// allowance but passes the token's transfer checks).
    pub fn transfer_in(
        &mut self,
        tokens: &mut B20Tokens,
        registry: &B403Registry,
        token: Address,
        from: Address,
        amount: U256,
    ) -> (r: Result<()>)
        ensures
            *final(self) == *old(self),
            final(tokens).hardfork() == old(tokens).hardfork(),
            !spec_has_b20_prefix(token@) ==> r == Err::<(), BasePrecompileError>(
                b20_err(B20Error::InvalidToken),
            ) && final(tokens)@ == old(tokens)@,
            spec_has_b20_prefix(token@) ==> exists|t0: B20Token|
                #![trigger old(tokens).holds_token(token@, t0)]
                {
                    &&& old(tokens).holds_token(token@, t0)
                    &&& r == t0.spec_transfer_result(registry, from, old(self).address, amount)
                    &&& t0.transfer_outcome(
                        final(tokens)@[token@],
                        registry,
                        from,
                        old(self).address,
                        amount,
                    )
                    &&& final(tokens)@ == old(tokens)@.insert(token@, final(tokens)@[token@])
                },
    {
        let mut t = tokens.take(token)?;
        let ghost t0 = t;
        let res = t.system_transfer_from(from, self.address, amount, registry);
        tokens.put(t);
        proof {
            assert(old(tokens).holds_token(token@, t0));
        }
        match res {
            Ok(_) => Ok(()),
            Err(e) => Err(e),
        }
    }

    /// Sends `amount` of `token` from the DEX to `to` (a transfer by the DEX).
    pub fn transfer_out(
        &mut self,
        tokens: &mut B20Tokens,
        registry: &B403Registry,
        token: Address,
        to: Address,
        amount: U256,
    ) -> (r: Result<()>)
        ensures
            *final(self) == *old(self),
            final(tokens).hardfork() == old(tokens).hardfork(),
            !spec_has_b20_prefix(token@) ==> r == Err::<(), BasePrecompileError>(
                b20_err(B20Error::InvalidToken),
            ) && final(tokens)@ == old(tokens)@,
            spec_has_b20_prefix(token@) ==> exists|t0: B20Token|
                #![trigger old(tokens).holds_token(token@, t0)]
                {
                    &&& old(tokens).holds_token(token@, t0)
                    &&& r == t0.spec_transfer_result(registry, old(self).address, to, amount)
                    &&& t0.transfer_outcome(
                        final(tokens)@[token@],
                        registry,
                        old(self).address,
                        to,
                        amount,
                    )
                    &&& final(tokens)@ == old(tokens)@.insert(token@, final(tokens)@[token@])
                },
    {
        let mut t = tokens.take(token)?;
        let ghost t0 = t;
        let res = t.transfer(self.address, to, amount, registry);
        tokens.put(t);
        proof {
            assert(old(tokens).holds_token(token@, t0));
        }
        match res {
            Ok(_) => Ok(()),
            Err(e) => Err(e),
        }
    }

    /// Applies a token to Base USD swap to the reserves of `token`'s pool and returns the Base
    /// USD output: `expected_amount_out` when nonzero, otherwise the quote for `amount_in`.
    pub fn apply_token_to_base_swap(&mut self, token: Address, amount_in: U256, expected_amount_out: U256) -> (r:
        Result<U256>)
        ensures
            ({
                let p = old(self).pool(token@);
                let out = if expected_amount_out.value() == 0 {
                    spec_amount_out(amount_in.value(), p.reserve_token as nat, p.reserve_base as nat)
                } else {
                    Ok(expected_amount_out)
                };
                match out {
                    Err(e) => r == Err::<U256, BasePrecompileError>(e) && *final(self) == *old(self),
                    Ok(o) => if p.reserve_token + amount_in.value() >= pow_128() {
                        r == Err::<U256, BasePrecompileError>(overflow()) && *final(self) == *old(self)
                    } else if o.value() >= pow_128() {
                        r == Err::<U256, BasePrecompileError>(overflow()) && *final(self) == *old(self)
                    } else if o.value() > p.reserve_base {
                        r == Err::<U256, BasePrecompileError>(dex_err(BaseDexError::InsufficientLiquidity))
                            && *final(self) == *old(self)
                    } else {
                        &&& r == Ok::<U256, BasePrecompileError>(o)
                        &&& final(self).pools@ == old(self).pools@.insert(
                            token@,
                            Pool {
                                reserve_token: (p.reserve_token + amount_in.value()) as u128,
                                reserve_base: (p.reserve_base - o.value()) as u128,
                            },
                        )
                        &&& *final(self) == (BaseDex { pools: final(self).pools, ..*old(self) })
                    },
                }
            }),
    {
        let mut pool = self.pools.read(&token);
        let amount_out = if expected_amount_out.is_zero() {
            amount_out(
                amount_in,
                U256::from_u128(pool.reserve_token),
                U256::from_u128(pool.reserve_base),
            )?
        } else {
            expected_amount_out
        };
        pool.reserve_token = add_reserve(pool.reserve_token, amount_in)?;
        pool.reserve_base = sub_reserve(pool.reserve_base, amount_out)?;
        self.pools.write(token, pool);
        Ok(amount_out)
    }

    /// Applies a Base USD to token swap to the reserves of `token`'s pool.
    pub fn apply_base_to_token_swap(&mut self, token: Address, amount_in: U256, amount_out: U256) -> (r:
        Result<()>)
        ensures
            ({
                let p = old(self).pool(token@);
                if p.reserve_base + amount_in.value() >= pow_128() {
                    r == Err::<(), BasePrecompileError>(overflow()) && *final(self) == *old(self)
                } else if amount_out.value() >= pow_128() {
                    r == Err::<(), BasePrecompileError>(overflow()) && *final(self) == *old(self)
                } else if amount_out.value() > p.reserve_token {
                    r == Err::<(), BasePrecompileError>(dex_err(BaseDexError::InsufficientLiquidity))
                        && *final(self) == *old(self)
                } else {
                    &&& r is Ok
                    &&& final(self).pools@ == old(self).pools@.insert(
                        token@,
                        Pool {
                            reserve_token: (p.reserve_token - amount_out.value()) as u128,
                            reserve_base: (p.reserve_base + amount_in.value()) as u128,
                        },
                    )
                    &&& *final(self) == (BaseDex { pools: final(self).pools, ..*old(self) })
                }
            }),
    {
        let mut pool = self.pools.read(&token);
        pool.reserve_base = add_reserve(pool.reserve_base, amount_in)?;
        pool.reserve_token = sub_reserve(pool.reserve_token, amount_out)?;
        self.pools.write(token, pool);
        Ok(())
    }
}


/// The smaller of two numbers.
pub open spec fn min_nat(a: nat, b: nat) -> nat {
    if a <= b {
        a
    } else {
        b
    }
}

impl BaseDex {
    /// The pools, LP supplies, LP balances and events of `self` and `o` agree.
    pub open spec fn same_ledger(&self, o: &BaseDex) -> bool {
        &&& self.address == o.address
        &&& self.pools@ == o.pools@
        &&& self.total_supply@ == o.total_supply@
        &&& self.liquidity_balances@ == o.liquidity_balances@
        &&& self.events@ == o.events@
    }

    /// The liquidity minted for adding `at` of the token and `ab` of Base USD to the pool of
    /// `token`, with the LP supply it is added to. A pool without LP supply mints
    /// `isqrt(at * ab) - 1000` on a locked supply of `1000`; another mints the smaller of
    /// `at * supply / reserve_token` and `ab * supply / reserve_base`.
    pub open spec fn spec_mint_liquidity(&self, token: Seq<u8>, at: nat, ab: nat) -> Result<(nat, nat)> {
        let pool = self.pool(token);
        let ts = self.total_supply.get(token).value();
        let computed: Result<(nat, nat)> = if ts == 0 {
            if at * ab >= word_modulus() {
                Err(overflow())
            } else if isqrt(at * ab) <= MINIMUM_LIQUIDITY {
                Err(dex_err(BaseDexError::InsufficientLiquidity))
            } else {
                Ok(((isqrt(at * ab) - MINIMUM_LIQUIDITY) as nat, MINIMUM_LIQUIDITY as nat))
            }
        } else if at * ts >= word_modulus() || pool.reserve_token == 0 {
            Err(overflow())
        } else if ab * ts >= word_modulus() || pool.reserve_base == 0 {
            Err(overflow())
        } else {
            Ok(
                (
                    min_nat(at * ts / (pool.reserve_token as nat), ab * ts / (pool.reserve_base as nat)),
                    ts,
                ),
            )
        };
        match computed {
            Err(e) => Err(e),
            Ok((l, supply)) => if l == 0 {
                Err(dex_err(BaseDexError::InsufficientLiquidity))
            } else {
                Ok((l, supply))
            },
        }
    }

    /// The checks of adding liquidity before any transfer: a deployed pool token, deployed
    /// Base USD, nonzero amounts, and a positive liquidity.
    pub open spec fn spec_add_checks(&self, tokens: &B20Tokens, token: Address, at: U256, ab: U256) -> Result<
        (nat, nat),
    > {
        match spec_validate_pool_token(tokens, token) {
            Err(e) => Err(e),
            Ok(_) => if !spec_is_b20(tokens, spec_base_usd()) {
                Err(dex_err(BaseDexError::InvalidToken))
            } else if at.value() == 0 || ab.value() == 0 {
                Err(dex_err(BaseDexError::InvalidAmount))
            } else {
                self.spec_mint_liquidity(token@, at.value(), ab.value())
            },
        }
    }

    /// The ledger after crediting liquidity `l` minted on supply `supply` to `to`: the reserves
    /// grow by the amounts, the LP supply becomes `supply + l`, `to`'s LP balance grows by
    /// `l`, and `Mint` is emitted. Overflow fails, leaving what was already written.
    pub open spec fn spec_credit_liquidity(
        &self,
        sender: Address,
        token: Address,
        at: U256,
        ab: U256,
        l: nat,
        supply: nat,
        to: Address,
    ) -> (
        Result<U256>,
        Map<Seq<u8>, Pool>,
        Map<Seq<u8>, U256>,
        Map<(Seq<u8>, Seq<u8>), U256>,
        Seq<BaseDexEvent>,
    ) {
        let p = self.pool(token@);
        let pools = self.pools@;
        let supplies = self.total_supply@;
        let lps = self.liquidity_balances@;
        let ev = self.events@;
        if p.reserve_token + at.value() >= pow_128() || p.reserve_base + ab.value() >= pow_128() {
            (Err(overflow()), pools, supplies, lps, ev)
        } else {
            let pools2 = pools.insert(
                token@,
                Pool {
                    reserve_token: (p.reserve_token + at.value()) as u128,
                    reserve_base: (p.reserve_base + ab.value()) as u128,
                },
            );
            if supply + l >= word_modulus() {
                (Err(overflow()), pools2, supplies, lps, ev)
            } else {
                let supplies2 = supplies.insert(token@, U256::from_value(supply + l));
                let bal = self.liquidity_balances.get((token@, to@)).value();
                if bal + l >= word_modulus() {
                    (Err(overflow()), pools2, supplies2, lps, ev)
                } else {
                    (
                        Ok(U256::from_value(l)),
                        pools2,
                        supplies2,
                        lps.insert((token@, to@), U256::from_value(bal + l)),
                        ev.push(
                            BaseDexEvent::Mint {
                                sender,
                                token,
                                amount_token: at,
                                amount_base: ab,
                                liquidity: U256::from_value(l),
                                to,
                            },
                        ),
                    )
                }
            }
        }
    }

    /// How the DEX `new`, the tokens and the result `r` of [`BaseDex::add_liquidity`] relate to
    /// the DEX `self` it was called on.
    pub open spec fn post_add_liquidity(
        &self,
        new: &BaseDex,
        old_tokens: &B20Tokens,
        new_tokens: &B20Tokens,
        registry: &B403Registry,
        msg_sender: Address,
        token: Address,
        amount_token: U256,
        amount_base: U256,
        to: Address,
        r: Result<U256>,
    ) -> bool {
        &&& new.initialized
        &&& new_tokens.hardfork() == old_tokens.hardfork()
        &&& self.spec_add_checks(old_tokens, token, amount_token, amount_base) matches Err(e)
            ==> r == Err::<U256, BasePrecompileError>(e) && new_tokens@ == old_tokens@
            && new.same_ledger(self)
        &&& self.spec_add_checks(old_tokens, token, amount_token, amount_base) is Ok ==> {
            let (l, supply) = self.spec_add_checks(
                old_tokens,
                token,
                amount_token,
                amount_base,
            )->Ok_0;
            let dex = self.address;
            let ta = old_tokens@[token@];
            let tb = old_tokens@[spec_base_usd()];
            let ra = ta.spec_transfer_result(registry, msg_sender, dex, amount_token);
            let rb = tb.spec_transfer_result(registry, msg_sender, dex, amount_base);
            let (res, pools, supplies, lps, ev) = self.spec_credit_liquidity(
                msg_sender,
                token,
                amount_token,
                amount_base,
                l,
                supply,
                to,
            );
            &&& ta.transfer_outcome(new_tokens@[token@], registry, msg_sender, dex, amount_token)
            &&& ra is Ok ==> tb.transfer_outcome(
                new_tokens@[spec_base_usd()],
                registry,
                msg_sender,
                dex,
                amount_base,
            )
            &&& ra is Err ==> new_tokens@[spec_base_usd()] == tb
            &&& new_tokens@ == old_tokens@.insert(token@, new_tokens@[token@]).insert(
                spec_base_usd(),
                new_tokens@[spec_base_usd()],
            )
            &&& ra is Err ==> fails_with(r, ra) && new.same_ledger(self)
            &&& ra is Ok && rb is Err ==> fails_with(r, rb) && new.same_ledger(self)
            &&& ra is Ok && rb is Ok ==> {
                &&& r == res
                &&& new.address == self.address
                &&& new.pools@ == pools
                &&& new.total_supply@ == supplies
                &&& new.liquidity_balances@ == lps
                &&& new.events@ == ev
            }
        }
    }

    /// Adds `amount_token` of `token` and `amount_base` of Base USD to the pool of `token`,
    /// pulled from the caller, and credits the minted liquidity to `to`.
    ///
    /// The first deposit locks `1000` of liquidity forever. A product of the amounts of
    /// `2^256 - 1` into an empty pool is excluded: its square root cannot be taken.
    pub fn add_liquidity(
        &mut self,
        tokens: &mut B20Tokens,
        registry: &B403Registry,
        msg_sender: Address,
        token: Address,
        amount_token: U256,
        amount_base: U256,
        to: Address,
    ) -> (r: Result<U256>)
        requires
            spec_validate_pool_token(old(tokens), token) is Ok && spec_is_b20(
                old(tokens),
                spec_base_usd(),
            ) && old(self).total_supply.get(token@).value() == 0 ==> amount_token.value()
                * amount_base.value() != word_modulus() - 1,
        ensures
            final(self).initialized,
            final(tokens).hardfork() == old(tokens).hardfork(),
            old(self).spec_add_checks(old(tokens), token, amount_token, amount_base) matches Err(e)
                ==> r == Err::<U256, BasePrecompileError>(e) && final(tokens)@ == old(tokens)@
                && final(self).same_ledger(old(self)),
            old(self).spec_add_checks(old(tokens), token, amount_token, amount_base) is Ok ==> {
                let (l, supply) = old(self).spec_add_checks(
                    old(tokens),
                    token,
                    amount_token,
                    amount_base,
                )->Ok_0;
                let dex = old(self).address;
                let ta = old(tokens)@[token@];
                let tb = old(tokens)@[spec_base_usd()];
                let ra = ta.spec_transfer_result(registry, msg_sender, dex, amount_token);
                let rb = tb.spec_transfer_result(registry, msg_sender, dex, amount_base);
                let (res, pools, supplies, lps, ev) = old(self).spec_credit_liquidity(
                    msg_sender,
                    token,
                    amount_token,
                    amount_base,
                    l,
                    supply,
                    to,
                );
                &&& ta.transfer_outcome(final(tokens)@[token@], registry, msg_sender, dex, amount_token)
                &&& ra is Ok ==> tb.transfer_outcome(
                    final(tokens)@[spec_base_usd()],
                    registry,
                    msg_sender,
                    dex,
                    amount_base,
                )
                &&& ra is Err ==> final(tokens)@[spec_base_usd()] == tb
                &&& final(tokens)@ == old(tokens)@.insert(token@, final(tokens)@[token@]).insert(
                    spec_base_usd(),
                    final(tokens)@[spec_base_usd()],
                )
                &&& ra is Err ==> fails_with(r, ra) && final(self).same_ledger(old(self))
                &&& ra is Ok && rb is Err ==> fails_with(r, rb) && final(self).same_ledger(old(self))
                &&& ra is Ok && rb is Ok ==> {
                    &&& r == res
                    &&& final(self).address == old(self).address
                    &&& final(self).pools@ == pools
                    &&& final(self).total_supply@ == supplies
                    &&& final(self).liquidity_balances@ == lps
                    &&& final(self).events@ == ev
                }
            },
            r is Ok && old(self).total_supply.get(token@).value() > 0 ==> {
                let ts = old(self).total_supply.get(token@).value();
                let st = amount_token.value() * ts / (old(self).pool(token@).reserve_token as nat);
                let sb = amount_base.value() * ts / (old(self).pool(token@).reserve_base as nat);
                &&& r->Ok_0.value() <= st
                &&& r->Ok_0.value() <= sb
                &&& (r->Ok_0.value() == st || r->Ok_0.value() == sb)
            },
    {
        self.ensure_initialized()?;
        self.validate_pool_token(tokens, token)?;
        self.validate_base_token(tokens)?;
        validate_amount(amount_token)?;
        validate_amount(amount_base)?;
        let mut pool = self.pools.read(&token);
        let mut total_supply = self.total_supply.read(&token);
        let liquidity = if total_supply.is_zero() {
            let product = match word::checked_mul(amount_token, amount_base) {
                Some(v) => v,
                None => {
                    return Err(BasePrecompileError::under_overflow());
                },
            };
            let root = sqrt(product);
            proof {
                lemma_isqrt_unique(root.value(), isqrt(product.value()), product.value());
            }
            if !word::lt(U256::from_u64(MINIMUM_LIQUIDITY), root) {
                return Err(BasePrecompileError::BaseDex(BaseDexError::insufficient_liquidity()));
            }
            total_supply = U256::from_u64(MINIMUM_LIQUIDITY);
            match word::checked_sub(root, U256::from_u64(MINIMUM_LIQUIDITY)) {
                Some(v) => v,
                None => {
                    return Err(BasePrecompileError::under_overflow());
                },
            }
        } else {
            let token_liquidity = match word::checked_mul(amount_token, total_supply) {
                Some(v) => match word::checked_div(v, U256::from_u128(pool.reserve_token)) {
                    Some(q) => q,
                    None => {
                        return Err(BasePrecompileError::under_overflow());
                    },
                },
                None => {
                    return Err(BasePrecompileError::under_overflow());
                },
            };
            let base_liquidity = match word::checked_mul(amount_base, total_supply) {
                Some(v) => match word::checked_div(v, U256::from_u128(pool.reserve_base)) {
                    Some(q) => q,
                    None => {
                        return Err(BasePrecompileError::under_overflow());
                    },
                },
                None => {
                    return Err(BasePrecompileError::under_overflow());
                },
            };
            if word::lt(base_liquidity, token_liquidity) {
                base_liquidity
            } else {
                token_liquidity
            }
        };
        if liquidity.is_zero() {
            return Err(BasePrecompileError::BaseDex(BaseDexError::insufficient_liquidity()));
        }
        proof {
            word::lemma_word_of_value(liquidity);
            word::lemma_word_of_value(total_supply);
        }
        let busd = base_usd_address();
        self.transfer_in(tokens, registry, token, msg_sender, amount_token)?;
        self.transfer_in(tokens, registry, busd, msg_sender, amount_base)?;
        pool.reserve_token = add_reserve(pool.reserve_token, amount_token)?;
        pool.reserve_base = add_reserve(pool.reserve_base, amount_base)?;
        self.pools.write(token, pool);
        let new_total_supply = match word::checked_add(total_supply, liquidity) {
            Some(v) => v,
            None => {
                return Err(BasePrecompileError::under_overflow());
            },
        };
        proof {
            word::lemma_word_of_value(new_total_supply);
        }
        self.total_supply.write(token, new_total_supply);
        let balance = self.liquidity_balances.read(&(token, to));
        let new_balance = match word::checked_add(balance, liquidity) {
            Some(v) => v,
            None => {
                return Err(BasePrecompileError::under_overflow());
            },
        };
        proof {
            word::lemma_word_of_value(new_balance);
        }
        self.liquidity_balances.write((token, to), new_balance);
        self.events.push(
            BaseDexEvent::Mint {
                sender: msg_sender,
                token,
                amount_token,
                amount_base,
                liquidity,
                to,
            },
        );
        proof {
            if old(self).total_supply.get(token@).value() > 0 {
                lemma_add_mints_smaller_share(
                    *old(self),
                    *old(tokens),
                    token,
                    amount_token,
                    amount_base,
                );
                let l = old(self).spec_add_checks(old(tokens), token, amount_token, amount_base)->Ok_0.0;
                word::lemma_value_bound(new_balance);
                word::lemma_from_value(l);
            }
        }
        Ok(liquidity)
    }
}


impl BaseDex {
    /// The checks and pro-rata amounts of removing `liquidity` of `sender` from the pool of
    /// `token`: `liquidity * reserve / supply` of each side, rounded down.
    pub open spec fn spec_burn_amounts(&self, tokens: &B20Tokens, token: Address, sender: Address, liquidity: U256) -> Result<
        (nat, nat),
    > {
        let l = liquidity.value();
        let pool = self.pool(token@);
        let rt = pool.reserve_token as nat;
        let rb = pool.reserve_base as nat;
        let ts = self.total_supply.get(token@).value();
        match spec_validate_pool_token(tokens, token) {
            Err(e) => Err(e),
            Ok(_) => if l == 0 {
                Err(dex_err(BaseDexError::InvalidAmount))
            } else if self.liquidity_balances.get((token@, sender@)).value() < l {
                Err(dex_err(BaseDexError::InsufficientLiquidity))
            } else if ts == 0 {
                Err(dex_err(BaseDexError::InsufficientLiquidity))
            } else if l * rt >= word_modulus() || l * rb >= word_modulus() {
                Err(overflow())
            } else if l * rt / ts == 0 || l * rb / ts == 0 {
                Err(dex_err(BaseDexError::InvalidAmount))
            } else {
                Ok((l * rt / ts, l * rb / ts))
            },
        }
    }

    /// The ledger after `sender` burns `liquidity` for `at` and `ab`: the reserves shrink by the
    /// amounts, and the LP supply and `sender`'s LP balance by `liquidity`. Failures leave
    /// what was already written.
    pub open spec fn spec_debit_liquidity(&self, token: Address, sender: Address, liquidity: nat, at: nat, ab: nat) -> (
        Result<()>,
        Map<Seq<u8>, Pool>,
        Map<Seq<u8>, U256>,
        Map<(Seq<u8>, Seq<u8>), U256>,
    ) {
        let p = self.pool(token@);
        let pools = self.pools@;
        let supplies = self.total_supply@;
        let lps = self.liquidity_balances@;
        let ts = self.total_supply.get(token@).value();
        let bal = self.liquidity_balances.get((token@, sender@)).value();
        if at >= pow_128() {
            (Err(overflow()), pools, supplies, lps)
        } else if at > p.reserve_token {
            (Err(dex_err(BaseDexError::InsufficientLiquidity)), pools, supplies, lps)
        } else if ab >= pow_128() {
            (Err(overflow()), pools, supplies, lps)
        } else if ab > p.reserve_base {
            (Err(dex_err(BaseDexError::InsufficientLiquidity)), pools, supplies, lps)
        } else {
            let pools2 = pools.insert(
                token@,
                Pool {
                    reserve_token: (p.reserve_token - at) as u128,
                    reserve_base: (p.reserve_base - ab) as u128,
                },
            );
            if ts < liquidity {
                (Err(overflow()), pools2, supplies, lps)
            } else {
                (
                    Ok(()),
                    pools2,
                    supplies.insert(token@, U256::from_value((ts - liquidity) as nat)),
                    lps.insert((token@, sender@), U256::from_value((bal - liquidity) as nat)),
                )
            }
        }
    }

    /// How the DEX `new`, the tokens and the result `r` of [`BaseDex::remove_liquidity`] relate to
    /// the DEX `self` it was called on.
    pub open spec fn post_remove_liquidity(
        &self,
        new: &BaseDex,
        old_tokens: &B20Tokens,
        new_tokens: &B20Tokens,
        registry: &B403Registry,
        msg_sender: Address,
        token: Address,
        liquidity: U256,
        to: Address,
        r: Result<(U256, U256)>,
    ) -> bool {
        &&& new.initialized
        &&& new.address == self.address
        &&& new_tokens.hardfork() == old_tokens.hardfork()
        &&& self.spec_burn_amounts(old_tokens, token, msg_sender, liquidity) matches Err(e)
            ==> r == Err::<(U256, U256), BasePrecompileError>(e) && new_tokens@ == old_tokens@ && new.same_ledger(self)
        &&& self.spec_burn_amounts(old_tokens, token, msg_sender, liquidity) is Ok ==> {
            let (at, ab) = self.spec_burn_amounts(
                old_tokens,
                token,
                msg_sender,
                liquidity,
            )->Ok_0;
            let (rd, pools, supplies, lps) = self.spec_debit_liquidity(
                token,
                msg_sender,
                liquidity.value(),
                at,
                ab,
            );
            let dex = self.address;
            let ta = old_tokens@[token@];
            let ra = ta.spec_transfer_result(registry, dex, to, U256::from_value(at));
            &&& new.pools@ == pools
            &&& new.total_supply@ == supplies
            &&& new.liquidity_balances@ == lps
            &&& rd matches Err(e) ==> r == Err::<(U256, U256), BasePrecompileError>(e)
                && new_tokens@ == old_tokens@ && new.events@ == self.events@
            &&& rd is Ok ==> {
                &&& ta.transfer_outcome(
                    new_tokens@[token@],
                    registry,
                    dex,
                    to,
                    U256::from_value(at),
                )
                &&& ra is Err ==> fails_with(r, ra) && new.events@ == self.events@
                    && new_tokens@ == old_tokens@.insert(token@, new_tokens@[token@])
                &&& ra is Ok ==> exists|tb: B20Token|
                    #![trigger old_tokens.holds_token(spec_base_usd(), tb)]
                    {
                        let rb = tb.spec_transfer_result(registry, dex, to, U256::from_value(ab));
                        &&& old_tokens.holds_token(spec_base_usd(), tb)
                        &&& tb.transfer_outcome(
                            new_tokens@[spec_base_usd()],
                            registry,
                            dex,
                            to,
                            U256::from_value(ab),
                        )
                        &&& new_tokens@ == old_tokens@.insert(
                            token@,
                            new_tokens@[token@],
                        ).insert(spec_base_usd(), new_tokens@[spec_base_usd()])
                        &&& rb is Err ==> fails_with(r, rb) && new.events@ == self.events@
                        &&& rb is Ok ==> {
                            &&& r == Ok::<(U256, U256), BasePrecompileError>(
                                (U256::from_value(at), U256::from_value(ab)),
                            )
                            &&& new.events@ == self.events@.push(
                                BaseDexEvent::Burn {
                                    sender: msg_sender,
                                    token,
                                    amount_token: U256::from_value(at),
                                    amount_base: U256::from_value(ab),
                                    liquidity,
                                    to,
                                },
                            )
                        }
                    }
            }
        }
    }

    /// Burns `liquidity` of the caller's LP balance in the pool of `token` and sends the
    /// pro-rata reserves to `to`; returns the token and Base USD amounts.
    pub fn remove_liquidity(
        &mut self,
        tokens: &mut B20Tokens,
        registry: &B403Registry,
        msg_sender: Address,
        token: Address,
        liquidity: U256,
        to: Address,
    ) -> (r: Result<(U256, U256)>)
        ensures
            old(self).post_remove_liquidity(final(self), old(tokens), final(tokens), registry, msg_sender, token, liquidity, to, r),
    {
        self.ensure_initialized()?;
        self.validate_pool_token(tokens, token)?;
        validate_amount(liquidity)?;
        let balance = self.liquidity_balances.read(&(token, msg_sender));
        if word::lt(balance, liquidity) {
            return Err(BasePrecompileError::BaseDex(BaseDexError::insufficient_liquidity()));
        }
        let total_supply = self.total_supply.read(&token);
        if total_supply.is_zero() {
            return Err(BasePrecompileError::BaseDex(BaseDexError::insufficient_liquidity()));
        }
        let mut pool = self.pools.read(&token);
        let amount_token = match word::checked_mul(liquidity, U256::from_u128(pool.reserve_token)) {
            Some(v) => word::div(v, total_supply),
            None => {
                return Err(BasePrecompileError::under_overflow());
            },
        };
        let amount_base = match word::checked_mul(liquidity, U256::from_u128(pool.reserve_base)) {
            Some(v) => word::div(v, total_supply),
            None => {
                return Err(BasePrecompileError::under_overflow());
            },
        };
        validate_amount(amount_token)?;
        validate_amount(amount_base)?;
        proof {
            word::lemma_word_of_value(amount_token);
            word::lemma_word_of_value(amount_base);
        }
        pool.reserve_token = sub_reserve(pool.reserve_token, amount_token)?;
        pool.reserve_base = sub_reserve(pool.reserve_base, amount_base)?;
        self.pools.write(token, pool);
        let new_total_supply = match word::checked_sub(total_supply, liquidity) {
            Some(v) => v,
            None => {
                return Err(BasePrecompileError::under_overflow());
            },
        };
        proof {
            word::lemma_word_of_value(new_total_supply);
        }
        self.total_supply.write(token, new_total_supply);
        let new_balance = match word::checked_sub(balance, liquidity) {
            Some(v) => v,
            None => {
                return Err(BasePrecompileError::under_overflow());
            },
        };
        proof {
            word::lemma_word_of_value(new_balance);
        }
        self.liquidity_balances.write((token, msg_sender), new_balance);
        let busd = base_usd_address();
        self.transfer_out(tokens, registry, token, to, amount_token)?;
        let ghost mid = *tokens;
        let res = self.transfer_out(tokens, registry, busd, to, amount_base);
        proof {
            let tb = choose|t: B20Token|
                #![trigger mid.holds_token(busd@, t)]
                {
                    &&& mid.holds_token(busd@, t)
                    &&& res == t.spec_transfer_result(registry, self.address, to, amount_base)
                    &&& t.transfer_outcome(tokens@[busd@], registry, self.address, to, amount_base)
                    &&& tokens@ == mid@.insert(busd@, tokens@[busd@])
                };
            assert(old(tokens).holds_token(busd@, tb));
        }
        res?;
        self.events.push(
            BaseDexEvent::Burn {
                sender: msg_sender,
                token,
                amount_token,
                amount_base,
                liquidity,
                to,
            },
        );
        Ok((amount_token, amount_base))
    }
}


/// The reserves of `token` in the pools `m` (empty when never written).
pub open spec fn pool_in(m: Map<Seq<u8>, Pool>, token: Seq<u8>) -> Pool {
    if m.contains_key(token) {
        m[token]
    } else {
        Pool::spec_zero()
    }
}

/// The pools after a token to Base USD leg of `ain` in for `out` on the pool of `token`.
pub open spec fn leg_token_to_base(m: Map<Seq<u8>, Pool>, token: Seq<u8>, ain: nat, out: nat) -> (
    Result<()>,
    Map<Seq<u8>, Pool>,
) {
    let p = pool_in(m, token);
    if p.reserve_token + ain >= pow_128() || out >= pow_128() {
        (Err(overflow()), m)
    } else if out > p.reserve_base {
        (Err(dex_err(BaseDexError::InsufficientLiquidity)), m)
    } else {
        (
            Ok(()),
            m.insert(
                token,
                Pool {
                    reserve_token: (p.reserve_token + ain) as u128,
                    reserve_base: (p.reserve_base - out) as u128,
                },
            ),
        )
    }
}

/// The pools after a Base USD to token leg of `ain` in for `out` on the pool of `token`.
pub open spec fn leg_base_to_token(m: Map<Seq<u8>, Pool>, token: Seq<u8>, ain: nat, out: nat) -> (
    Result<()>,
    Map<Seq<u8>, Pool>,
) {
    let p = pool_in(m, token);
    if p.reserve_base + ain >= pow_128() || out >= pow_128() {
        (Err(overflow()), m)
    } else if out > p.reserve_token {
        (Err(dex_err(BaseDexError::InsufficientLiquidity)), m)
    } else {
        (
            Ok(()),
            m.insert(
                token,
                Pool {
                    reserve_token: (p.reserve_token - out) as u128,
                    reserve_base: (p.reserve_base + ain) as u128,
                },
            ),
        )
    }
}

impl BaseDex {
    /// The pools after a swap of `ain` of `tin` for `out` of `tout`: one leg against Base
    /// USD, or two through it, the first leg paying the quoted Base USD amount.
    pub open spec fn spec_apply_swap(&self, tin: Address, tout: Address, ain: nat, out: nat) -> (
        Result<()>,
        Map<Seq<u8>, Pool>,
    ) {
        let busd = spec_base_usd();
        let m = self.pools@;
        if tin@ == busd {
            leg_base_to_token(m, tout@, ain, out)
        } else if tout@ == busd {
            leg_token_to_base(m, tin@, ain, out)
        } else {
            let p1 = pool_in(m, tin@);
            match spec_amount_out(ain, p1.reserve_token as nat, p1.reserve_base as nat) {
                Err(e) => (Err(e), m),
                Ok(b) => {
                    let (r1, m1) = leg_token_to_base(m, tin@, ain, b.value());
                    match r1 {
                        Err(e) => (Err(e), m1),
                        Ok(_) => leg_base_to_token(m1, tout@, b.value(), out),
                    }
                },
            }
        }
    }

    /// The checks of a swap before any transfer, and the quoted output.
    pub open spec fn spec_swap_checks(
        &self,
        tokens: &B20Tokens,
        tin: Address,
        tout: Address,
        ain: U256,
        min_out: U256,
    ) -> Result<U256> {
        match spec_validate_swap_path(tokens, tin, tout) {
            Err(e) => Err(e),
            Ok(_) => if ain.value() == 0 {
                Err(dex_err(BaseDexError::InvalidAmount))
            } else {
                match self.spec_quote(tin, tout, ain.value()) {
                    Err(e) => Err(e),
                    Ok(o) => if o.value() < min_out.value() {
                        Err(dex_err(BaseDexError::InsufficientOutputAmount))
                    } else {
                        Ok(o)
                    },
                }
            },
        }
    }

    /// How the DEX `new`, the tokens and the result `r` of [`BaseDex::swap_exact_tokens_for_tokens`] relate to
    /// the DEX `self` it was called on.
    pub open spec fn post_swap_exact_tokens_for_tokens(
        &self,
        new: &BaseDex,
        old_tokens: &B20Tokens,
        new_tokens: &B20Tokens,
        registry: &B403Registry,
        msg_sender: Address,
        token_in: Address,
        token_out: Address,
        amount_in: U256,
        min_amount_out: U256,
        to: Address,
        r: Result<U256>,
    ) -> bool {
        &&& new.initialized
        &&& new.address == self.address
        &&& new_tokens.hardfork() == old_tokens.hardfork()
        &&& self.spec_swap_checks(old_tokens, token_in, token_out, amount_in, min_amount_out)
            matches Err(e) ==> r == Err::<U256, BasePrecompileError>(e) && new_tokens@
            == old_tokens@ && new.same_ledger(self)
        &&& self.spec_swap_checks(old_tokens, token_in, token_out, amount_in, min_amount_out)
            is Ok ==> {
            let out = self.spec_swap_checks(
                old_tokens,
                token_in,
                token_out,
                amount_in,
                min_amount_out,
            )->Ok_0;
            let dex = self.address;
            let ti = old_tokens@[token_in@];
            let ra = ti.spec_transfer_result(registry, msg_sender, dex, amount_in);
            let (rp, pools) = self.spec_apply_swap(
                token_in,
                token_out,
                amount_in.value(),
                out.value(),
            );
            let tt = old_tokens@[token_out@];
            let rc = tt.spec_transfer_result(registry, dex, to, out);
            &&& ti.transfer_outcome(new_tokens@[token_in@], registry, msg_sender, dex, amount_in)
            &&& new.total_supply@ == self.total_supply@
            &&& new.liquidity_balances@ == self.liquidity_balances@
            &&& ra is Err ==> fails_with(r, ra) && new.same_ledger(self)
                && new_tokens@ == old_tokens@.insert(token_in@, new_tokens@[token_in@])
            &&& ra is Ok ==> new.pools@ == pools
            &&& ra is Ok && rp is Err ==> fails_with(r, rp) && new.events@ == self.events@ && new_tokens@ == old_tokens@.insert(
                token_in@,
                new_tokens@[token_in@],
            )
            &&& ra is Ok && rp is Ok ==> {
                &&& tt.transfer_outcome(new_tokens@[token_out@], registry, dex, to, out)
                &&& new_tokens@ == old_tokens@.insert(
                    token_in@,
                    new_tokens@[token_in@],
                ).insert(token_out@, new_tokens@[token_out@])
                &&& rc is Err ==> fails_with(r, rc) && new.events@ == self.events@
                &&& rc is Ok ==> r == Ok::<U256, BasePrecompileError>(out)
                    && new.events@ == self.events@.push(
                    BaseDexEvent::Swap {
                        sender: msg_sender,
                        token_in,
                        token_out,
                        amount_in,
                        amount_out: out,
                        to,
                    },
                )
            }
        }
    }

    /// Swaps exactly `amount_in` of `token_in`, pulled from the caller, for at least
    /// `min_amount_out` of `token_out`, sent to `to`; returns the amount sent.
    pub fn swap_exact_tokens_for_tokens(
        &mut self,
        tokens: &mut B20Tokens,
        registry: &B403Registry,
        msg_sender: Address,
        token_in: Address,
        token_out: Address,
        amount_in: U256,
        min_amount_out: U256,
        to: Address,
    ) -> (r: Result<U256>)
        ensures
            old(self).post_swap_exact_tokens_for_tokens(final(self), old(tokens), final(tokens), registry, msg_sender, token_in, token_out, amount_in, min_amount_out, to, r),
    {
        self.ensure_initialized()?;
        self.validate_swap_path(tokens, token_in, token_out)?;
        validate_amount(amount_in)?;
        let amount_out = self.quote_exact_input(tokens, token_in, token_out, amount_in)?;
        if word::lt(amount_out, min_amount_out) {
            return Err(BasePrecompileError::BaseDex(BaseDexError::insufficient_output_amount()));
        }
        self.transfer_in(tokens, registry, token_in, msg_sender, amount_in)?;
        let busd = base_usd_address();
        if token_in.same(&busd) {
            self.apply_base_to_token_swap(token_out, amount_in, amount_out)?;
        } else if token_out.same(&busd) {
            self.apply_token_to_base_swap(token_in, amount_in, amount_out)?;
        } else {
            let base_out = self.apply_token_to_base_swap(token_in, amount_in, U256::zero())?;
            self.apply_base_to_token_swap(token_out, base_out, amount_out)?;
        }
        self.transfer_out(tokens, registry, token_out, to, amount_out)?;
        self.events.push(
            BaseDexEvent::Swap {
                sender: msg_sender,
                token_in,
                token_out,
                amount_in,
                amount_out,
                to,
            },
        );
        Ok(amount_out)
    }
}


/// The product of a pool's reserves.
pub open spec fn reserve_product(p: Pool) -> nat {
    (p.reserve_token as nat) * (p.reserve_base as nat)
}

/// A quoted swap never lowers the reserve product of a pool it trades against: after
/// [`BaseDex::spec_apply_swap`] applies the quote of [`BaseDex::spec_quote`], every pool that
/// changed has a reserve product at least as large as before.
pub proof fn lemma_swap_keeps_pool_products(dex: &BaseDex, tin: Address, tout: Address, ain: nat)
    requires
        tin@ != tout@,
        dex.spec_quote(tin, tout, ain) is Ok,
        dex.spec_apply_swap(tin, tout, ain, dex.spec_quote(tin, tout, ain)->Ok_0.value()).0 is Ok,
    ensures
        ({
            let after = dex.spec_apply_swap(
                tin,
                tout,
                ain,
                dex.spec_quote(tin, tout, ain)->Ok_0.value(),
            ).1;
            forall|k: Seq<u8>|
                #![trigger after[k]]
                after.contains_key(k) ==> reserve_product(after[k]) >= reserve_product(
                    pool_in(dex.pools@, k),
                )
        }),
{
    let busd = spec_base_usd();
    let m = dex.pools@;
    let out = dex.spec_quote(tin, tout, ain)->Ok_0.value();
    let after = dex.spec_apply_swap(tin, tout, ain, out).1;
    if tin@ == busd {
        let p = pool_in(m, tout@);
        lemma_swap_keeps_constant_product(ain, p.reserve_base as nat, p.reserve_token as nat);
        lemma_product_commutes(
            (p.reserve_token - out) as nat,
            (p.reserve_base + ain) as nat,
        );
        lemma_product_commutes(p.reserve_token as nat, p.reserve_base as nat);
    } else if tout@ == busd {
        let p = pool_in(m, tin@);
        lemma_swap_keeps_constant_product(ain, p.reserve_token as nat, p.reserve_base as nat);
    } else {
        let p1 = pool_in(m, tin@);
        let b = spec_amount_out(ain, p1.reserve_token as nat, p1.reserve_base as nat)->Ok_0;
        lemma_swap_keeps_constant_product(ain, p1.reserve_token as nat, p1.reserve_base as nat);
        let m1 = leg_token_to_base(m, tin@, ain, b.value()).1;
        let p2 = pool_in(m1, tout@);
        assert(p2 == pool_in(m, tout@));
        lemma_swap_keeps_constant_product(b.value(), p2.reserve_base as nat, p2.reserve_token as nat);
        lemma_product_commutes(
            (p2.reserve_token - out) as nat,
            (p2.reserve_base + b.value()) as nat,
        );
        lemma_product_commutes(p2.reserve_token as nat, p2.reserve_base as nat);
    }
}

/// Multiplication of naturals commutes.
proof fn lemma_product_commutes(a: nat, b: nat)
    ensures
        a * b == b * a,
{
    vstd::arithmetic::mul::lemma_mul_is_commutative(a as int, b as int);
}

/// Burning at most the LP supply never takes more than a pool's reserves: the pro-rata
/// amounts of [`BaseDex::spec_burn_amounts`] are within the reserves.
pub proof fn lemma_burn_within_reserves(
    dex: &BaseDex,
    tokens: &B20Tokens,
    token: Address,
    sender: Address,
    liquidity: U256,
)
    requires
        dex.spec_burn_amounts(tokens, token, sender, liquidity) is Ok,
        liquidity.value() <= dex.total_supply.get(token@).value(),
    ensures
        ({
            let (at, ab) = dex.spec_burn_amounts(tokens, token, sender, liquidity)->Ok_0;
            &&& at <= dex.pool(token@).reserve_token
            &&& ab <= dex.pool(token@).reserve_base
        }),
{
    let l = liquidity.value() as int;
    let ts = dex.total_supply.get(token@).value() as int;
    let rt = dex.pool(token@).reserve_token as int;
    let rb = dex.pool(token@).reserve_base as int;
    vstd::arithmetic::mul::lemma_mul_inequality(l, ts, rt);
    vstd::arithmetic::mul::lemma_mul_inequality(l, ts, rb);
    vstd::arithmetic::div_mod::lemma_div_is_ordered(l * rt, ts * rt, ts);
    vstd::arithmetic::div_mod::lemma_div_is_ordered(l * rb, ts * rb, ts);
    vstd::arithmetic::div_mod::lemma_div_multiples_vanish(rt, ts);
    vstd::arithmetic::div_mod::lemma_div_multiples_vanish(rb, ts);
    lemma_product_commutes(ts as nat, rt as nat);
    lemma_product_commutes(ts as nat, rb as nat);
}


/// Adding liquidity to a pool that already has LP supply: when the checks pass, the minted
/// liquidity is at most `amount_token * supply / reserve_token`, at most
/// `amount_base * supply / reserve_base`, and equal to one of the two (so the smaller one);
/// it is added to the current LP supply.
pub proof fn lemma_add_mints_smaller_share(
    dex: BaseDex,
    tokens: B20Tokens,
    token: Address,
    amount_token: U256,
    amount_base: U256,
)
    requires
        dex.total_supply.get(token@).value() > 0,
        dex.spec_add_checks(&tokens, token, amount_token, amount_base) is Ok,
    ensures
        ({
            let (l, supply) = dex.spec_add_checks(&tokens, token, amount_token, amount_base)->Ok_0;
            let ts = dex.total_supply.get(token@).value();
            let rt = dex.pool(token@).reserve_token as nat;
            let rb = dex.pool(token@).reserve_base as nat;
            &&& rt > 0 && rb > 0
            &&& supply == ts
            &&& l <= amount_token.value() * ts / rt
            &&& l <= amount_base.value() * ts / rb
            &&& (l == amount_token.value() * ts / rt || l == amount_base.value() * ts / rb)
        }),
{
}

/// Removing liquidity: when the removal succeeds, the caller's LP balance in the pool and the
/// pool's LP supply both drop by exactly `liquidity`, and every other LP balance is unchanged.
pub proof fn lemma_remove_burns_sender_shares(
    dex: BaseDex,
    new: BaseDex,
    old_tokens: B20Tokens,
    new_tokens: B20Tokens,
    registry: B403Registry,
    sender: Address,
    token: Address,
    liquidity: U256,
    to: Address,
    r: Result<(U256, U256)>,
)
    requires
        dex.post_remove_liquidity(&new, &old_tokens, &new_tokens, &registry, sender, token, liquidity, to, r),
        r is Ok,
    ensures
        new.liquidity_balances.get((token@, sender@)).value() + liquidity.value()
            == dex.liquidity_balances.get((token@, sender@)).value(),
        new.total_supply.get(token@).value() + liquidity.value() == dex.total_supply.get(token@).value(),
        forall|k: (Seq<u8>, Seq<u8>)|
            k != (token@, sender@) ==> #[trigger] new.liquidity_balances.get(k)
                == dex.liquidity_balances.get(k),
{
    let (at, ab) = dex.spec_burn_amounts(&old_tokens, token, sender, liquidity)->Ok_0;
    let bal = dex.liquidity_balances.get((token@, sender@)).value();
    let ts = dex.total_supply.get(token@).value();
    assert(bal >= liquidity.value());
    assert(ts >= liquidity.value());
    word::lemma_value_bound(dex.liquidity_balances.get((token@, sender@)));
    word::lemma_value_bound(dex.total_supply.get(token@));
    word::lemma_from_value((bal - liquidity.value()) as nat);
    word::lemma_from_value((ts - liquidity.value()) as nat);
}

} // verus!

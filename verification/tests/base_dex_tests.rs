use base_core::b20::B20Token;
use base_core::b20_factory::{B20Factory, B20Tokens};
use base_core::b403_registry::B403Registry;
use base_core::base_dex::{
    amount_out, base_usd_address, sqrt, BaseDex, FEE_DENOMINATOR, FEE_NUMERATOR,
    MINIMUM_LIQUIDITY,
};
use base_core::error::{BaseDexError, BasePrecompileError};
use base_core::primitives::Address;
use base_core::spec::BaseBSpec;
use base_core::word::U256;
use base_core::abi::PrecompileOutcome;
use base_core::b20::dispatch::CallEnv;

fn token_a() -> Address {
    let mut b = [0u8; 20];
    b[0] = 0x84;
    b[1] = 0x53;
    b[19] = 0xa1;
    Address::from_bytes(b)
}

fn token_b() -> Address {
    let mut b = [0u8; 20];
    b[0] = 0x84;
    b[1] = 0x53;
    b[19] = 0xa2;
    Address::from_bytes(b)
}

fn u(v: u128) -> U256 {
    U256::from_u128(v)
}

fn setup_token(tokens: &mut B20Tokens, address: Address, name: &str, symbol: &str, admin: Address) {
    B20Factory::new()
        .create_token_reserved_address(tokens, address, name, symbol, "USD", admin)
        .unwrap();
    let mut token = tokens.take(address).unwrap();
    token.grant_role(admin, B20Token::issuer_role(), admin).unwrap();
    tokens.put(token);
}

fn mint(tokens: &mut B20Tokens, registry: &B403Registry, token: Address, admin: Address, to: Address, amount: U256) {
    let mut t = tokens.take(token).unwrap();
    t.mint(admin, to, amount, registry).unwrap();
    tokens.put(t);
}

fn balance(tokens: &B20Tokens, token: Address, account: Address) -> U256 {
    tokens.get(&token).unwrap().balance_of(account).unwrap()
}

fn world() -> (B20Tokens, B403Registry) {
    (B20Tokens::new(BaseBSpec::Beryl), B403Registry::new(BaseBSpec::Beryl))
}

#[test]
fn add_liquidity_locks_minimum_liquidity() {
    let (mut tokens, registry) = world();
    let admin = Address::with_last_byte(1);
    setup_token(&mut tokens, base_usd_address(), "Base USD", "BUSD", admin);
    setup_token(&mut tokens, token_a(), "Token A", "TOKA", admin);
    let amount = u(100000);
    mint(&mut tokens, &registry, base_usd_address(), admin, admin, amount);
    mint(&mut tokens, &registry, token_a(), admin, admin, amount);

    let mut dex = BaseDex::new();
    let liquidity = dex
        .add_liquidity(&mut tokens, &registry, admin, token_a(), amount, amount, admin)
        .unwrap();

    assert_eq!(liquidity, u(100000 - MINIMUM_LIQUIDITY as u128));
    assert_eq!(dex.get_total_supply(token_a()).unwrap(), amount);
    assert_eq!(dex.get_liquidity_balance(token_a(), admin).unwrap(), liquidity);
    assert_eq!(balance(&tokens, token_a(), dex.address), amount);
    assert_eq!(balance(&tokens, base_usd_address(), dex.address), amount);
}

fn expected_out(amount_in: u128, reserve_in: u128, reserve_out: u128) -> u128 {
    let with_fee = amount_in * FEE_NUMERATOR as u128;
    with_fee * reserve_out / (reserve_in * FEE_DENOMINATOR as u128 + with_fee)
}

#[test]
fn swaps_token_for_base_with_constant_product_fee() {
    let (mut tokens, registry) = world();
    let admin = Address::with_last_byte(1);
    let trader = Address::with_last_byte(2);
    setup_token(&mut tokens, base_usd_address(), "Base USD", "BUSD", admin);
    setup_token(&mut tokens, token_a(), "Token A", "TOKA", admin);
    let liquidity_amount = 100000u128;
    let swap_amount = 1000u128;
    mint(&mut tokens, &registry, base_usd_address(), admin, admin, u(liquidity_amount));
    mint(&mut tokens, &registry, token_a(), admin, admin, u(liquidity_amount));
    mint(&mut tokens, &registry, token_a(), admin, trader, u(swap_amount));

    let mut dex = BaseDex::new();
    dex.add_liquidity(&mut tokens, &registry, admin, token_a(), u(liquidity_amount), u(liquidity_amount), admin)
        .unwrap();

    let expected = expected_out(swap_amount, liquidity_amount, liquidity_amount);

    let actual = dex
        .swap_exact_tokens_for_tokens(
            &mut tokens,
            &registry,
            trader,
            token_a(),
            base_usd_address(),
            u(swap_amount),
            U256::zero(),
            trader,
        )
        .unwrap();

    assert_eq!(actual, u(expected));
    assert_eq!(balance(&tokens, token_a(), trader), U256::zero());
    assert_eq!(balance(&tokens, base_usd_address(), trader), u(expected));
    let pool = dex.get_pool(token_a()).unwrap();
    assert_eq!(pool.reserve_token, 101000);
    assert_eq!(pool.reserve_base, liquidity_amount - expected);
}

#[test]
fn swaps_between_non_base_tokens_via_base_usd() {
    let (mut tokens, registry) = world();
    let admin = Address::with_last_byte(1);
    let trader = Address::with_last_byte(2);
    setup_token(&mut tokens, base_usd_address(), "Base USD", "BUSD", admin);
    setup_token(&mut tokens, token_a(), "Token A", "TOKA", admin);
    setup_token(&mut tokens, token_b(), "Token B", "TOKB", admin);
    let liquidity_amount = 100000u128;
    let swap_amount = 1000u128;
    mint(&mut tokens, &registry, base_usd_address(), admin, admin, u(liquidity_amount * 2));
    mint(&mut tokens, &registry, token_a(), admin, admin, u(liquidity_amount));
    mint(&mut tokens, &registry, token_b(), admin, admin, u(liquidity_amount));
    mint(&mut tokens, &registry, token_a(), admin, trader, u(swap_amount));

    let mut dex = BaseDex::new();
    dex.add_liquidity(&mut tokens, &registry, admin, token_a(), u(liquidity_amount), u(liquidity_amount), admin)
        .unwrap();
    dex.add_liquidity(&mut tokens, &registry, admin, token_b(), u(liquidity_amount), u(liquidity_amount), admin)
        .unwrap();

    let expected_base = amount_out(u(swap_amount), u(liquidity_amount), u(liquidity_amount)).unwrap();
    let expected_token_b = amount_out(expected_base, u(liquidity_amount), u(liquidity_amount)).unwrap();
    let quoted = dex.quote_exact_input(&tokens, token_a(), token_b(), u(swap_amount)).unwrap();
    assert_eq!(quoted, expected_token_b);

    let actual = dex
        .swap_exact_tokens_for_tokens(
            &mut tokens,
            &registry,
            trader,
            token_a(),
            token_b(),
            u(swap_amount),
            U256::zero(),
            trader,
        )
        .unwrap();

    assert_eq!(actual, expected_token_b);
    assert_eq!(balance(&tokens, token_a(), trader), U256::zero());
    assert_eq!(balance(&tokens, token_b(), trader), expected_token_b);
    assert_eq!(balance(&tokens, base_usd_address(), trader), U256::zero());

    let base = expected_base.to_u128().unwrap();
    let out_b = expected_token_b.to_u128().unwrap();
    let pool_a = dex.get_pool(token_a()).unwrap();
    let pool_b = dex.get_pool(token_b()).unwrap();
    assert_eq!(pool_a.reserve_base, liquidity_amount - base);
    assert_eq!(pool_b.reserve_base, liquidity_amount + base);
    assert_eq!(pool_b.reserve_token, liquidity_amount - out_b);
}

#[test]
fn remove_liquidity_returns_pro_rata_reserves() {
    let (mut tokens, registry) = world();
    let admin = Address::with_last_byte(1);
    setup_token(&mut tokens, base_usd_address(), "Base USD", "BUSD", admin);
    setup_token(&mut tokens, token_a(), "Token A", "TOKA", admin);
    let amount = u(100000);
    mint(&mut tokens, &registry, base_usd_address(), admin, admin, amount);
    mint(&mut tokens, &registry, token_a(), admin, admin, amount);

    let mut dex = BaseDex::new();
    let liquidity = dex
        .add_liquidity(&mut tokens, &registry, admin, token_a(), amount, amount, admin)
        .unwrap();
    let half = u(liquidity.to_u128().unwrap() / 2);
    let (amount_token, amount_base) =
        dex.remove_liquidity(&mut tokens, &registry, admin, token_a(), half, admin).unwrap();

    assert_eq!(amount_token, u(49500));
    assert_eq!(amount_base, u(49500));
    assert_eq!(balance(&tokens, token_a(), admin), amount_token);
    assert_eq!(balance(&tokens, base_usd_address(), admin), amount_base);
}

#[test]
fn amount_out_matches_the_constant_product_formula() {
    assert_eq!(amount_out(u(1000), u(100000), u(100000)).unwrap(), u(987));
    assert_eq!(
        amount_out(U256::zero(), u(1), u(1)),
        Err(BasePrecompileError::BaseDex(BaseDexError::InvalidAmount))
    );
    assert_eq!(
        amount_out(u(1), U256::zero(), u(1)),
        Err(BasePrecompileError::BaseDex(BaseDexError::InsufficientLiquidity))
    );
    assert_eq!(
        amount_out(u(1), u(1000), u(1)),
        Err(BasePrecompileError::BaseDex(BaseDexError::InsufficientOutputAmount))
    );
}

#[test]
fn sqrt_is_the_integer_square_root() {
    assert_eq!(sqrt(U256::zero()), U256::zero());
    assert_eq!(sqrt(u(1)), u(1));
    assert_eq!(sqrt(u(2)), u(1));
    assert_eq!(sqrt(u(10_000_000_000)), u(100000));
    assert_eq!(sqrt(u(99)), u(9));
    assert_eq!(sqrt(u(u128::MAX)), u(u64::MAX as u128));
}

#[test]
fn swap_rejects_identical_tokens_and_low_output() {
    let (mut tokens, registry) = world();
    let admin = Address::with_last_byte(1);
    setup_token(&mut tokens, base_usd_address(), "Base USD", "BUSD", admin);
    setup_token(&mut tokens, token_a(), "Token A", "TOKA", admin);
    mint(&mut tokens, &registry, base_usd_address(), admin, admin, u(100000));
    mint(&mut tokens, &registry, token_a(), admin, admin, u(100000));
    let mut dex = BaseDex::new();
    dex.add_liquidity(&mut tokens, &registry, admin, token_a(), u(100000), u(100000), admin).unwrap();
    assert_eq!(
        dex.swap_exact_tokens_for_tokens(&mut tokens, &registry, admin, token_a(), token_a(), u(10), U256::zero(), admin),
        Err(BasePrecompileError::BaseDex(BaseDexError::IdenticalTokens))
    );
    assert_eq!(
        dex.swap_exact_tokens_for_tokens(&mut tokens, &registry, admin, base_usd_address(), token_a(), u(1000), u(988), admin),
        Err(BasePrecompileError::BaseDex(BaseDexError::InsufficientOutputAmount))
    );
    let pool = dex.get_pool(token_a()).unwrap();
    assert_eq!((pool.reserve_token, pool.reserve_base), (100000, 100000));
}

fn selector(signature: &str) -> [u8; 4] {
    let digest = alloy_primitives::keccak256(signature.as_bytes());
    [digest[0], digest[1], digest[2], digest[3]]
}

fn address_word(a: Address) -> [u8; 32] {
    let mut w = [0u8; 32];
    w[12..].copy_from_slice(&a.to_bytes());
    w
}

fn uint_word(v: u128) -> [u8; 32] {
    let mut w = [0u8; 32];
    w[16..].copy_from_slice(&v.to_be_bytes());
    w
}

fn encode(signature: &str, words: &[[u8; 32]]) -> Vec<u8> {
    let mut out = selector(signature).to_vec();
    for w in words {
        out.extend_from_slice(w);
    }
    out
}

fn call_env() -> CallEnv {
    CallEnv { gas_limit: 1_000_000, is_static: false, timestamp: U256::from_u64(1), chain_id: 8453 }
}

#[test]
fn dex_dispatch_adds_liquidity_and_quotes() {
    let (mut tokens, registry) = world();
    let admin = Address::with_last_byte(1);
    setup_token(&mut tokens, base_usd_address(), "Base USD", "BUSD", admin);
    setup_token(&mut tokens, token_a(), "Token A", "TOKA", admin);
    let amount = u(100000);
    mint(&mut tokens, &registry, base_usd_address(), admin, admin, amount);
    mint(&mut tokens, &registry, token_a(), admin, admin, amount);

    let mut dex = BaseDex::new();
    let add = encode(
        "addLiquidity(address,uint256,uint256,address)",
        &[address_word(token_a()), uint_word(100000), uint_word(100000), address_word(admin)],
    );
    let r = dex.call(&mut tokens, &registry, &add, admin, &call_env());
    assert_eq!(r, PrecompileOutcome::Success(30, uint_word(99000).to_vec()));

    let mut pool = uint_word(100000).to_vec();
    pool.extend_from_slice(&uint_word(100000));
    let r = dex.call(&mut tokens, &registry, &encode("getPool(address)", &[address_word(token_a())]), admin, &call_env());
    assert_eq!(r, PrecompileOutcome::Success(12, pool));

    let quote = encode(
        "quoteExactInput(address,address,uint256)",
        &[address_word(token_a()), address_word(base_usd_address()), uint_word(1000)],
    );
    let r = dex.call(&mut tokens, &registry, &quote, admin, &call_env());
    assert_eq!(r, PrecompileOutcome::Success(24, uint_word(expected_out(1000, 100000, 100000)).to_vec()));

    let r = dex.call(&mut tokens, &registry, &encode("FEE_NUMERATOR()", &[]), admin, &call_env());
    assert_eq!(r, PrecompileOutcome::Success(6, uint_word(997).to_vec()));
    let r = dex.call(&mut tokens, &registry, &encode("BASE_TOKEN()", &[]), admin, &call_env());
    assert_eq!(r, PrecompileOutcome::Success(6, address_word(base_usd_address()).to_vec()));
}

#[test]
fn dex_dispatch_reports_errors() {
    let (mut tokens, registry) = world();
    let admin = Address::with_last_byte(1);
    let mut dex = BaseDex::new();
    let swap = encode(
        "swapExactTokensForTokens(address,address,uint256,uint256,address)",
        &[address_word(token_a()), address_word(token_a()), uint_word(5), uint_word(0), address_word(admin)],
    );
    let r = dex.call(&mut tokens, &registry, &swap, admin, &call_env());
    assert!(matches!(r, PrecompileOutcome::Revert(36, _)));

    let static_env = CallEnv { is_static: true, ..call_env() };
    let r = dex.call(&mut tokens, &registry, &encode("initializeBaseToken()", &[]), admin, &static_env);
    assert_eq!(r, PrecompileOutcome::Revert(6, selector("StaticCallNotAllowed()").to_vec()));

    let r = dex.call(&mut tokens, &registry, &encode("initializeBaseToken()", &[]), admin, &call_env());
    assert_eq!(r, PrecompileOutcome::Success(6, address_word(base_usd_address()).to_vec()));
    assert!(tokens.get(&base_usd_address()).is_some());

    let r = dex.call(&mut tokens, &registry, &encode("getPool(address)", &[]), admin, &call_env());
    assert_eq!(r, PrecompileOutcome::Revert(6, Vec::new()));
    let r = dex.call(&mut tokens, &registry, &[0u8; 3], admin, &call_env());
    assert_eq!(r, PrecompileOutcome::Revert(6, Vec::new()));
}

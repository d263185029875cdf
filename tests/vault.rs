use alm_core::liquidity_math::get_amounts_for_liquidity;
use alm_core::tick_math::get_sqrt_ratio_at_tick;
use alm_core::types::{Pool, Position, Token, VaultDetails, VaultTVL, VaultTokenBalances};
use alm_core::uint::U256;
use alm_core::vault::{update_vault_live, vault_position, vault_tvl, LiveVaultData};
use alm_core::MathError;

fn token(symbol: &str) -> Token {
    Token {
        address: format!("0x{symbol}"),
        name: symbol.to_string(),
        symbol: symbol.to_string(),
        decimals: 18,
        is_native_wrapper: false,
    }
}

fn vault() -> VaultDetails {
    VaultDetails {
        address: "0xvault".to_string(),
        pool: Pool {
            address: "0xpool".to_string(),
            token0: token("A"),
            token1: token("B"),
            fee: 500,
            tick_spacing: 10,
            current_tick: 0,
            sqrt_price_x96: get_sqrt_ratio_at_tick(0).unwrap(),
        },
        name: "Vault".to_string(),
        symbol: "VLT".to_string(),
        decimals: 18,
        total_supply: U256::from_u128(1000),
        lower_tick: 0,
        upper_tick: 0,
        is_active: false,
        is_vault_tokens_associated: true,
        position: Position::default(),
        tvl: VaultTVL { tvl0: U256::zero(), tvl1: U256::zero() },
    }
}

fn live(is_active: bool, lower_tick: i32) -> LiveVaultData {
    LiveVaultData {
        current_tick: 5,
        sqrt_price_x96: get_sqrt_ratio_at_tick(5).unwrap(),
        lower_tick,
        upper_tick: 600,
        is_active,
        liquidity: 1_000_000_000_000,
        tokens_owed0: 7,
        tokens_owed1: 9,
        balances: VaultTokenBalances {
            token0_balance: U256::from_u128(100),
            token1_balance: U256::from_u128(200),
        },
    }
}

#[test]
fn position_of_an_active_vault() {
    let l = live(true, -600);
    let p = vault_position(&l).unwrap();
    let (a0, a1) = get_amounts_for_liquidity(
        &l.sqrt_price_x96,
        &get_sqrt_ratio_at_tick(-600).unwrap(),
        &get_sqrt_ratio_at_tick(600).unwrap(),
        l.liquidity,
    )
    .unwrap();
    assert_eq!(p.tick_lower, -600);
    assert_eq!(p.tick_upper, 600);
    assert_eq!((p.amount0, p.amount1), (a0, a1));
    assert_ne!(p.amount0, U256::zero());
    assert_eq!((p.fees0, p.fees1), (7, 9));
}

#[test]
fn position_of_an_inactive_vault_is_empty() {
    assert_eq!(vault_position(&live(false, -600)).unwrap(), Position::default());
}

#[test]
fn tvl_adds_amounts_fees_and_idle_balances() {
    let p = Position { amount0: U256::from_u128(10), amount1: U256::from_u128(20), fees0: 1, fees1: 2, ..Position::default() };
    let b = VaultTokenBalances { token0_balance: U256::from_u128(100), token1_balance: U256::from_u128(200) };
    let t = vault_tvl(&p, &b).unwrap();
    assert_eq!((t.tvl0, t.tvl1), (U256::from_u128(111), U256::from_u128(222)));
    let max = U256::from_limbs([u64::MAX; 4]);
    let full = VaultTokenBalances { token0_balance: max, token1_balance: U256::zero() };
    assert_eq!(vault_tvl(&p, &full), Err(MathError::Arithmetic));
}

#[test]
fn update_vault_live_refreshes_state() {
    let mut v = vault();
    update_vault_live(&mut v, &live(true, -600)).unwrap();
    assert_eq!(v.pool.current_tick, 5);
    assert_eq!((v.lower_tick, v.upper_tick, v.is_active), (-600, 600, true));
    let p = v.position;
    let tvl0 = alloy::primitives::U256::from_limbs(p.amount0.to_limbs()) + alloy::primitives::U256::from(107u32);
    assert_eq!(v.tvl.tvl0, U256::from_limbs(tvl0.into_limbs()));
    assert_eq!(v.total_supply, U256::from_u128(1000));
}

#[test]
fn update_vault_live_keeps_the_vault_on_error() {
    let mut v = vault();
    assert_eq!(update_vault_live(&mut v, &live(true, -900_000)), Err(MathError::TickOutOfRange));
    assert_eq!(v.lower_tick, 0);
    assert!(!v.is_active);
}

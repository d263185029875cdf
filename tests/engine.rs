use alm_core::engine::{
    balance0_dominates, evaluate_vault, is_balance_dust, is_fee_low, is_out_of_range, plan_rebalance,
    prepare_swap, Decision, Evaluation, RangeRecommendation, RebalancePlan, SkipReason,
};
use alm_core::tick_math::get_sqrt_ratio_at_tick;
use alm_core::types::{
    Pool, Position, PrepareSwapArgs, TickRange, Token, VaultDetails, VaultTVL, VaultTokenBalances,
};
use alm_core::uint::U256;
use alm_core::MathError;

fn u256(s: &str) -> U256 {
    let v = alloy::primitives::U256::from_str_radix(s, 10).unwrap();
    U256::from_limbs(v.into_limbs())
}

fn token(symbol: &str, decimals: u8) -> Token {
    Token {
        address: format!("0x{symbol}"),
        name: symbol.to_string(),
        symbol: symbol.to_string(),
        decimals,
        is_native_wrapper: false,
    }
}

fn vault(current_tick: i32, lower_tick: i32, upper_tick: i32, is_active: bool) -> VaultDetails {
    VaultDetails {
        address: "0xvault".to_string(),
        pool: Pool {
            address: "0xpool".to_string(),
            token0: token("A", 18),
            token1: token("B", 18),
            fee: 3000,
            tick_spacing: 60,
            current_tick,
            sqrt_price_x96: get_sqrt_ratio_at_tick(current_tick).unwrap(),
        },
        name: "Vault".to_string(),
        symbol: "VLT".to_string(),
        decimals: 18,
        total_supply: U256::zero(),
        lower_tick,
        upper_tick,
        is_active,
        is_vault_tokens_associated: true,
        position: Position::default(),
        tvl: VaultTVL { tvl0: U256::zero(), tvl1: U256::zero() },
    }
}

fn balances(b0: u128, b1: u128) -> VaultTokenBalances {
    VaultTokenBalances { token0_balance: U256::from_u128(b0), token1_balance: U256::from_u128(b1) }
}

fn recommend(lower_tick: i32, upper_tick: i32) -> RangeRecommendation {
    RangeRecommendation { rebalance_required: true, lower_tick, upper_tick }
}

const E18: u128 = 1_000_000_000_000_000_000;

#[test]
fn boundary_tick_is_in_range() {
    assert!(!is_out_of_range(100, -100, 100));
    assert!(!is_out_of_range(-100, -100, 100));
    assert!(is_out_of_range(101, -100, 100));
    assert!(is_out_of_range(-101, -100, 100));
}

#[test]
fn one_fee_above_threshold_consults_the_strategy() {
    let mut v = vault(100, -100, 100, true);
    v.position.fees0 = 5 * E18 / 1000; // 0.005
    v.position.fees1 = 2 * E18 / 100; // 0.02
    assert_eq!(evaluate_vault(&v, &balances(0, 0)), Evaluation::ConsultStrategy);
}

#[test]
fn both_fees_below_threshold_skip_in_range() {
    let mut v = vault(100, -100, 100, true);
    v.position.fees0 = 5 * E18 / 1000;
    v.position.fees1 = 9 * E18 / 1000;
    assert_eq!(evaluate_vault(&v, &balances(0, 0)), Evaluation::Skip(SkipReason::InRangeLowFees));
}

#[test]
fn out_of_range_consults_the_strategy_even_with_low_fees() {
    let v = vault(101, -100, 100, true);
    assert_eq!(evaluate_vault(&v, &balances(0, 0)), Evaluation::ConsultStrategy);
}

#[test]
fn vault_without_position_or_balance_skips() {
    let v = vault(0, 0, 0, false);
    assert_eq!(evaluate_vault(&v, &balances(0, 0)), Evaluation::Skip(SkipReason::NothingToDeploy));
    assert_eq!(evaluate_vault(&v, &balances(222, 1)), Evaluation::Skip(SkipReason::NothingToDeploy));
    assert_eq!(evaluate_vault(&v, &balances(0, 223)), Evaluation::ConsultStrategy);
}

#[test]
fn fee_threshold_is_one_hundredth_of_a_token() {
    assert!(is_fee_low(E18 / 100 - 1, 18));
    assert!(!is_fee_low(E18 / 100, 18));
    assert!(is_fee_low(99, 4));
    assert!(!is_fee_low(100, 4));
    assert!(is_fee_low(0, 0));
    assert!(!is_fee_low(1, 0));
    assert!(is_fee_low(u128::MAX, 200));
}

#[test]
fn dust_is_at_most_machine_epsilon() {
    assert!(is_balance_dust(&U256::from_u128(222), 18));
    assert!(!is_balance_dust(&U256::from_u128(223), 18));
    assert!(!is_balance_dust(&U256::from_u128(1), 6));
    assert!(is_balance_dust(&U256::zero(), 0));
    assert!(is_balance_dust(&u256("1000000000000000000000000000000"), 255));
}

#[test]
fn dominance_compares_value_at_the_price() {
    let one = get_sqrt_ratio_at_tick(0).unwrap();
    assert!(!balance0_dominates(&U256::from_u128(1), &U256::from_u128(1), &one));
    assert!(balance0_dominates(&U256::from_u128(2), &U256::from_u128(1), &one));
    assert!(!balance0_dominates(&U256::zero(), &U256::from_u128(1), &one));
}

#[test]
fn swap_for_excess_token0() {
    let s = prepare_swap(
        &U256::from_u128(120),
        &U256::from_u128(100),
        &U256::from_u128(40),
        &U256::from_u128(60),
    );
    assert_eq!(
        s,
        PrepareSwapArgs {
            is_swap_0_to_1: true,
            exact_amount_out: U256::from_u128(20),
            max_amount_in: U256::from_u128(20),
        }
    );
}

#[test]
fn swap_for_shortfall_of_token0_and_no_swap() {
    let s = prepare_swap(&U256::from_u128(80), &U256::from_u128(100), &U256::from_u128(70), &U256::from_u128(60));
    assert_eq!(
        s,
        PrepareSwapArgs {
            is_swap_0_to_1: false,
            exact_amount_out: U256::from_u128(20),
            max_amount_in: U256::from_u128(10),
        }
    );
    let none = prepare_swap(&U256::from_u128(100), &U256::from_u128(100), &U256::from_u128(60), &U256::from_u128(60));
    assert_eq!(none.exact_amount_out, U256::zero());
    assert_eq!(none.max_amount_in, U256::zero());
}

#[test]
fn plan_skips_when_not_recommended() {
    let v = vault(0, -600, 600, true);
    let rec = RangeRecommendation { rebalance_required: false, lower_tick: -1200, upper_tick: 1200 };
    assert_eq!(plan_rebalance(&v, &balances(1, 1), &rec), Ok(Decision::Skip(SkipReason::NotRecommended)));
}

#[test]
fn plan_skips_on_same_range_regardless_of_fees() {
    let mut v = vault(0, -600, 600, true);
    v.position.fees0 = 50 * E18;
    v.position.fees1 = 70 * E18;
    // -630 and 650 align (toward zero) to -600 and 600.
    assert_eq!(plan_rebalance(&v, &balances(E18, E18), &recommend(-630, 650)), Ok(Decision::Skip(SkipReason::SameRange)));
}

#[test]
fn plan_for_vault_without_position_funded_by_token1() {
    let v = vault(0, -600, 600, false);
    let d = plan_rebalance(&v, &balances(E18, 2 * E18), &recommend(-600, 600)).unwrap();
    assert_eq!(
        d,
        Decision::Planned(RebalancePlan {
            range: TickRange { curent_tick: 0, lower_tick: -600, upper_tick: 600 },
            liquidity: 33330000747078400407,
            swap: PrepareSwapArgs { is_swap_0_to_1: true, exact_amount_out: U256::zero(), max_amount_in: U256::zero() },
        })
    );
}

#[test]
fn plan_for_vault_without_position_funded_by_token0() {
    let v = vault(0, 0, 0, false);
    let d = plan_rebalance(&v, &balances(3 * E18, E18), &recommend(-600, 600)).unwrap();
    assert_eq!(
        d,
        Decision::Planned(RebalancePlan {
            range: TickRange { curent_tick: 0, lower_tick: -600, upper_tick: 600 },
            liquidity: 49995001120617600611,
            swap: PrepareSwapArgs {
                is_swap_0_to_1: true,
                exact_amount_out: u256("477502812020086940"),
                max_amount_in: u256("1522497187979913060"),
            },
        })
    );
}

#[test]
fn plan_for_active_vault_uses_its_tvl() {
    let mut v = vault(-23028, -24000, -22020, true);
    v.tvl = VaultTVL { tvl0: U256::from_u128(5 * E18), tvl1: U256::from_u128(E18 / 10) };
    let d = plan_rebalance(&v, &balances(0, 0), &recommend(-23105, -22980)).unwrap();
    assert_eq!(
        d,
        Decision::Planned(RebalancePlan {
            range: TickRange { curent_tick: -23028, lower_tick: -23100, upper_tick: -22980 },
            liquidity: 263364713903599719606,
            swap: PrepareSwapArgs {
                is_swap_0_to_1: true,
                exact_amount_out: u256("199250752801765021"),
                max_amount_in: u256("3003599097493126448"),
            },
        })
    );
}

#[test]
fn plan_is_the_same_for_the_same_inputs() {
    let v = vault(0, 0, 0, false);
    let first = plan_rebalance(&v, &balances(3 * E18, E18), &recommend(-600, 600));
    let second = plan_rebalance(&v, &balances(3 * E18, E18), &recommend(-600, 600));
    assert_eq!(first, second);
    assert_eq!(evaluate_vault(&v, &balances(5, 5)), evaluate_vault(&v, &balances(5, 5)));
}

#[test]
fn plan_errors() {
    let v = vault(0, 0, 0, false);
    assert_eq!(plan_rebalance(&v, &balances(E18, E18), &recommend(-900_000, 600)), Err(MathError::TickOutOfRange));
    assert_eq!(plan_rebalance(&v, &balances(E18, E18), &recommend(600, -600)), Err(MathError::Arithmetic));
    let mut flat = vault(0, 0, 0, false);
    flat.pool.tick_spacing = 0;
    assert_eq!(plan_rebalance(&flat, &balances(E18, E18), &recommend(-600, 600)), Err(MathError::Arithmetic));
}

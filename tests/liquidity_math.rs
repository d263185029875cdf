use alm_core::liquidity_math::{
    estimate_amount1_given_amount0, get_amount0_for_liquidity, get_amount1_for_liquidity,
    get_amounts_for_liquidity, get_liquidity_for_amount0, get_liquidity_for_amount1,
};
use alm_core::tick_math::{get_sqrt_ratio_at_tick, MAX_TICK};
use alm_core::uint::U256;
use alm_core::MathError;

fn u256(s: &str) -> U256 {
    let v = alloy::primitives::U256::from_str_radix(s, 10).unwrap();
    U256::from_limbs(v.into_limbs())
}

fn q96() -> U256 {
    u256("79228162514264337593543950336")
}

fn sqrt(t: i32) -> U256 {
    get_sqrt_ratio_at_tick(t).unwrap()
}

#[test]
fn liquidity_for_amounts_exact_values() {
    let a = q96();
    let b = u256("158456325028528675187087900672");
    // token1: amount * 2^96 / (b - a)
    assert_eq!(get_liquidity_for_amount1(&a, &b, &U256::from_u128(1_000_000)), Ok(1_000_000));
    // token0: amount * (a * b / 2^96) / (b - a) = amount * 2
    assert_eq!(get_liquidity_for_amount0(&a, &b, &U256::from_u128(1_000_000)), Ok(2_000_000));
}

#[test]
fn liquidity_for_amounts_rejects_unordered_ranges() {
    let a = q96();
    assert_eq!(get_liquidity_for_amount0(&a, &a, &U256::from_u128(5)), Err(MathError::Arithmetic));
    assert_eq!(get_liquidity_for_amount1(&sqrt(10), &sqrt(-10), &U256::from_u128(5)), Err(MathError::Arithmetic));
}

#[test]
fn liquidity_for_amount_rejects_overflow() {
    let big = u256("100000000000000000000000000000000000000000000000000000000000");
    assert_eq!(get_liquidity_for_amount1(&sqrt(0), &sqrt(1), &big), Err(MathError::Arithmetic));
    assert_eq!(
        get_liquidity_for_amount0(&sqrt(MAX_TICK - 1), &sqrt(MAX_TICK), &big),
        Err(MathError::Arithmetic)
    );
}

#[test]
fn amounts_for_liquidity_exact_values() {
    let a = q96();
    let b = u256("158456325028528675187087900672");
    assert_eq!(get_amount0_for_liquidity(&a, &b, 2_000_000), Ok(U256::from_u128(1_000_000)));
    assert_eq!(get_amount0_for_liquidity(&b, &a, 2_000_000), Ok(U256::from_u128(1_000_000)));
    assert_eq!(get_amount1_for_liquidity(&b, &a, 1_000_000), Ok(U256::from_u128(1_000_000)));
    assert_eq!(get_amount0_for_liquidity(&U256::zero(), &a, 1), Err(MathError::Arithmetic));
}

#[test]
fn amounts_for_liquidity_in_range() {
    let r = get_amounts_for_liquidity(&sqrt(0), &sqrt(-600), &sqrt(600), 100_000_000_000_000_000_000).unwrap();
    assert_eq!(r, (u256("2955301087913716968"), u256("2955301087913716968")));
}

#[test]
fn amounts_for_liquidity_below_range_is_all_token0() {
    let r = get_amounts_for_liquidity(&sqrt(-700), &sqrt(-600), &sqrt(600), 100_000_000_000_000_000_000).unwrap();
    assert_eq!(r, (u256("6000599925504992684"), U256::zero()));
    let at = get_amounts_for_liquidity(&sqrt(-600), &sqrt(-600), &sqrt(600), 1_000_000).unwrap();
    assert_eq!(at.1, U256::zero());
}

#[test]
fn amounts_for_liquidity_above_range_is_all_token1() {
    let r = get_amounts_for_liquidity(&sqrt(700), &sqrt(-600), &sqrt(600), 100_000_000_000_000_000_000).unwrap();
    assert_eq!(r, (U256::zero(), u256("6000599925504992684")));
    let at = get_amounts_for_liquidity(&sqrt(600), &sqrt(-600), &sqrt(600), 1_000_000).unwrap();
    assert_eq!(at.0, U256::zero());
}

#[test]
fn liquidity_round_trip_loses_at_most_rounding() {
    // The price is more than 2^96 above the lower bound, so token1 loses at most one unit.
    let (p, a, b) = (sqrt(20_000), sqrt(10_000), sqrt(30_000));
    for l in [1u128, 999, 123_456_789, 10u128.pow(20), 987_654_321_987_654_321] {
        let (amount0, amount1) = get_amounts_for_liquidity(&p, &a, &b, l).unwrap();
        let back1 = get_liquidity_for_amount1(&a, &p, &amount1).unwrap();
        assert!(back1 <= l && back1 + 1 >= l, "token1 {l} -> {back1}");
        // token0 rounds twice on the way out and twice back: never a gain.
        let back0 = get_liquidity_for_amount0(&p, &b, &amount0).unwrap();
        assert!(back0 <= l && back0 + 5 >= l, "token0 {l} -> {back0}");
    }
}

#[test]
fn estimate_amount1_for_a_symmetric_range() {
    let amount1 = estimate_amount1_given_amount0(&sqrt(0), -600, 600, &U256::from_u128(10u128.pow(18)));
    assert_eq!(amount1, Ok(U256::from_u128(999_999_999_999_999_999)));
    assert_eq!(
        estimate_amount1_given_amount0(&sqrt(0), -600, MAX_TICK + 1, &U256::from_u128(1)),
        Err(MathError::TickOutOfRange)
    );
}

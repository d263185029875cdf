use alm_core::tick_math::{get_sqrt_ratio_at_tick, get_tick_at_sqrt_ratio, MAX_TICK, MIN_TICK};
use alm_core::uint::U256;
use alm_core::MathError;

fn u256(s: &str) -> U256 {
    let v = alloy::primitives::U256::from_str_radix(s, 10).unwrap();
    U256::from_limbs(v.into_limbs())
}

#[test]
fn sqrt_ratio_at_bounds_and_zero() {
    assert_eq!(get_sqrt_ratio_at_tick(MIN_TICK).unwrap(), u256("4295128739"));
    assert_eq!(
        get_sqrt_ratio_at_tick(MAX_TICK).unwrap(),
        u256("1461446703485210103287273052203988822378723970342")
    );
    assert_eq!(get_sqrt_ratio_at_tick(0).unwrap(), u256("79228162514264337593543950336"));
}

#[test]
fn sqrt_ratio_rejects_ticks_out_of_range() {
    assert_eq!(get_sqrt_ratio_at_tick(MIN_TICK - 1), Err(MathError::TickOutOfRange));
    assert_eq!(get_sqrt_ratio_at_tick(MAX_TICK + 1), Err(MathError::TickOutOfRange));
}

#[test]
fn tick_round_trip() {
    for t in [MIN_TICK, -500_000, -100, -1, 0, 1, 100, 12_345, 500_000, MAX_TICK] {
        let s = get_sqrt_ratio_at_tick(t).unwrap();
        assert_eq!(get_tick_at_sqrt_ratio(&s), Ok(t));
    }
}

#[test]
fn sqrt_ratio_known_values() {
    assert_eq!(get_sqrt_ratio_at_tick(1).unwrap(), u256("79232123823359799118286999568"));
    assert_eq!(get_sqrt_ratio_at_tick(-1).unwrap(), u256("79224201403219477170569942574"));
    assert_eq!(get_sqrt_ratio_at_tick(100).unwrap(), u256("79625275426524748796330556128"));
    assert_eq!(get_sqrt_ratio_at_tick(-100).unwrap(), u256("78833030112140176575862854579"));
}

#[test]
fn sqrt_ratio_tracks_the_real_price_for_every_bit() {
    for bit in 0..20 {
        let t: i32 = 1 << bit;
        if t > MAX_TICK {
            break;
        }
        for tick in [t, -t] {
            let s = get_sqrt_ratio_at_tick(tick).unwrap();
            let got = alloy::primitives::U256::from_limbs(s.to_limbs());
            let got: f64 = got.to_string().parse().unwrap();
            let expected = 1.0001f64.powf(tick as f64 / 2.0) * 2f64.powi(96);
            assert!(((got - expected) / expected).abs() < 1e-9, "tick {tick}");
        }
    }
}

#[test]
fn tick_round_trip_across_the_range() {
    let mut t = MIN_TICK;
    while t <= MAX_TICK {
        let s = get_sqrt_ratio_at_tick(t).unwrap();
        assert_eq!(get_tick_at_sqrt_ratio(&s), Ok(t));
        t += 7919;
    }
}

#[test]
fn tick_at_sqrt_ratio_brackets_prices_between_ticks() {
    let s = get_sqrt_ratio_at_tick(500).unwrap();
    let next = alloy::primitives::U256::from_limbs(s.to_limbs()) + alloy::primitives::U256::from(1u8);
    assert_eq!(get_tick_at_sqrt_ratio(&U256::from_limbs(next.into_limbs())), Ok(500));
    let below = alloy::primitives::U256::from_limbs(s.to_limbs()) - alloy::primitives::U256::from(1u8);
    assert_eq!(get_tick_at_sqrt_ratio(&U256::from_limbs(below.into_limbs())), Ok(499));
}

#[test]
fn tick_at_sqrt_ratio_rejects_prices_below_the_smallest_tick() {
    assert_eq!(get_tick_at_sqrt_ratio(&u256("4295128738")), Err(MathError::Arithmetic));
    assert_eq!(get_tick_at_sqrt_ratio(&U256::zero()), Err(MathError::Arithmetic));
    assert_eq!(get_tick_at_sqrt_ratio(&u256("4295128739")), Ok(MIN_TICK));
}

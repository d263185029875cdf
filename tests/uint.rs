use alm_core::uint::{checked_add, difference, div_rem, mul_div, U256};

fn u256(s: &str) -> U256 {
    let v = alloy::primitives::U256::from_str_radix(s, 10).unwrap();
    U256::from_limbs(v.into_limbs())
}

#[test]
fn mul_div_uses_the_full_product() {
    let a = u256("340282366920938463463374607431768211456"); // 2^128
    let r = mul_div(&a, &a, &U256::from_u128(4)).unwrap();
    assert_eq!(r, u256("28948022309329048855892746252171976963317496166410141009864396001978282409984"));
    assert_eq!(mul_div(&a, &a, &U256::from_u128(1)), None);
    assert_eq!(mul_div(&U256::from_u128(7), &U256::from_u128(3), &U256::from_u128(2)), Some(U256::from_u128(10)));
}

#[test]
fn add_sub_div_and_compare() {
    assert_eq!(checked_add(&U256::from_u128(u128::MAX), &U256::from_u128(1)), Some(u256("340282366920938463463374607431768211456")));
    assert_eq!(checked_add(&U256::from_limbs([u64::MAX; 4]), &U256::from_u128(1)), None);
    assert_eq!(difference(&U256::from_u128(10), &U256::from_u128(3)), U256::from_u128(7));
    assert_eq!(div_rem(&U256::from_u128(17), &U256::from_u128(5)), (U256::from_u128(3), U256::from_u128(2)));
    assert!(U256::from_u128(3).lt(&U256::from_u128(4)));
    assert!(!U256::from_u128(4).lt(&U256::from_u128(4)));
    assert!(U256::from_u128(4).le(&U256::from_u128(4)));
    assert_eq!(u256("340282366920938463463374607431768211456").to_u128(), None);
    assert_eq!(U256::from_u128(42).to_u128(), Some(42));
}

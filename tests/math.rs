use alm_core::math::align_to_pool_tick_spacing;

#[test]
fn align_positive_ticks_down() {
    assert_eq!(align_to_pool_tick_spacing(105, 10), 100);
    assert_eq!(align_to_pool_tick_spacing(100, 10), 100);
    assert_eq!(align_to_pool_tick_spacing(0, 60), 0);
    assert_eq!(align_to_pool_tick_spacing(887272, 60), 887220);
}

#[test]
fn align_negative_ticks_toward_zero() {
    assert_eq!(align_to_pool_tick_spacing(-105, 10), -100);
    assert_eq!(align_to_pool_tick_spacing(-100, 10), -100);
    assert_eq!(align_to_pool_tick_spacing(-887272, 60), -887220);
    assert_eq!(align_to_pool_tick_spacing(-105, -10), -100);
    assert_eq!(align_to_pool_tick_spacing(i32::MIN, -1), i32::MIN);
}

use alm_core::position_key::position_key;

fn expected(vault: [u8; 20], lower: i32, upper: i32) -> [u8; 32] {
    let mut packed = vault.to_vec();
    packed.extend_from_slice(&lower.to_be_bytes()[1..]);
    packed.extend_from_slice(&upper.to_be_bytes()[1..]);
    alloy::primitives::keccak256(&packed).0
}

#[test]
fn position_key_hashes_the_packed_range() {
    let vault = [0x11u8; 20];
    let key = position_key(vault, -887220, 887220).unwrap();
    assert_eq!(key, expected(vault, -887220, 887220));
    assert_ne!(key, position_key(vault, -887220, 887160).unwrap());
    assert_ne!(key.to_vec(), vault.to_vec());
}

#[test]
fn position_key_needs_int24_ticks() {
    assert_eq!(position_key([0u8; 20], -8_388_609, 0), None);
    assert_eq!(position_key([0u8; 20], 0, 8_388_608), None);
    assert!(position_key([0u8; 20], -8_388_608, 8_388_607).is_some());
}

//! The key under which a pool stores a vault's position over a tick range:
//! `keccak256(abi.encodePacked(vault, lowerTick, upperTick))`.
use vstd::prelude::*;
use alloy_sol_types::SolType;
use alloy_sol_types::sol_data::{Address, Int};

verus! {

/// The Keccak-256 digest of a byte string.
pub uninterp spec fn keccak256_of(data: Seq<u8>) -> Seq<u8>;

/// The packed encoding of an `int24`: the low three bytes of the two's
/// complement, most significant first.
pub open spec fn int24_be(t: int) -> Seq<u8> {
    let u = t % 0x100_0000;
    seq![(u / 0x1_0000) as u8, ((u / 0x100) % 0x100) as u8, (u % 0x100) as u8]
}

/// Whether `t` fits in a signed 24-bit integer, the type of an on-chain tick.
pub open spec fn is_int24(t: int) -> bool {
    -0x80_0000 <= t < 0x80_0000
}

/// The packed encoding of `(address, int24, int24)`.
pub open spec fn packed_position(vault: Seq<u8>, lower_tick: int, upper_tick: int) -> Seq<u8> {
    vault + int24_be(lower_tick) + int24_be(upper_tick)
}

/// Relies on alloy's `keccak256`: the 32-byte digest, a function of the bytes alone.
#[verifier::external_body]
fn keccak256(data: &Vec<u8>) -> (r: [u8; 32])
    ensures
        r@ == keccak256_of(data@),
{
    alloy::primitives::keccak256(data).0
}

/// Relies on alloy-sol-types' packed ABI encoding of `(address, int24, int24)`:
/// the twenty address bytes, then the low three bytes of each tick, big-endian.
#[verifier::external_body]
fn encode_packed_position(vault: [u8; 20], lower_tick: i32, upper_tick: i32) -> (r: Vec<u8>)
    requires
        is_int24(lower_tick as int),
        is_int24(upper_tick as int),
    ensures
        r@ == packed_position(vault@, lower_tick as int, upper_tick as int),
{
    <(Address, Int<24>, Int<24>) as SolType>::abi_encode_packed(
        &(
            alloy::primitives::Address::from(vault),
            alloy::primitives::aliases::I24::try_from(lower_tick).unwrap(),
            alloy::primitives::aliases::I24::try_from(upper_tick).unwrap(),
        ),
    )
}

/// The key of the position that `vault` holds over `[lower_tick, upper_tick]`;
/// none when a tick does not fit in the on-chain `int24`.
pub fn position_key(vault: [u8; 20], lower_tick: i32, upper_tick: i32) -> (r: Option<[u8; 32]>)
    ensures
        r is Some <==> is_int24(lower_tick as int) && is_int24(upper_tick as int),
        r matches Some(k) ==> k@ == keccak256_of(packed_position(vault@, lower_tick as int, upper_tick as int)),
{
    if lower_tick < -0x80_0000 || lower_tick >= 0x80_0000 || upper_tick < -0x80_0000 || upper_tick >= 0x80_0000 {
        return None;
    }
    let packed = encode_packed_position(vault, lower_tick, upper_tick);
    Some(keccak256(&packed))
}

} // verus!

//! Concentrated-liquidity math and the rebalance policy of a liquidity vault.
//!
//! - `uint`: 256- and 512-bit unsigned integers.
//! - `tick_math`: tick to square-root price (Q64.96) and back.
//! - `liquidity_math`: liquidity to token amounts over a price range and back.
//! - `math`: alignment of ticks to a pool's tick spacing.
//! - `engine`: when a cycle skips, and the range, liquidity and swap it plans.
//! - `monitor`: one vault's monitoring cycle as a state machine.
//! - `vault`: a vault's position and TVL rebuilt from chain readings.
//! - `position_key`: the key of a vault's position in its pool.
//! - `markdown`: the JSON object inside a strategist's markdown answer.
//! - `types`: tokens, pools, positions, vaults and settings.
pub mod uint;
pub mod tick_math;
pub mod liquidity_math;
pub mod math;
pub mod types;
pub mod engine;
pub mod markdown;
pub mod position_key;
pub mod vault;
pub mod monitor;

use vstd::prelude::*;

verus! {

/// Why a computation of this library failed.
#[derive(Clone, Copy, Debug, PartialEq, Eq, Structural)]
pub enum MathError {
    /// A tick lies outside `[MIN_TICK, MAX_TICK]`.
    TickOutOfRange,
    /// An overflow, a division by zero or a range whose bounds are not ordered.
    Arithmetic,
}

} // verus!

//! A vault's position and TVL, rebuilt from what is read on chain.
use vstd::prelude::*;
use crate::uint::{U256, two_256, checked_add};
use crate::tick_math::{get_sqrt_ratio_at_tick, sqrt_ratio_at_tick, tick_in_range};
use crate::liquidity_math::{get_amounts_for_liquidity, amounts_ok, amounts_spec, min_nat, max_nat};
use crate::types::{Position, VaultDetails, VaultTVL, VaultTokenBalances};
use crate::MathError;

verus! {

/// The live state of a vault as read on chain, in raw units.
#[derive(Clone, Copy, Debug, PartialEq, Eq, Structural)]
pub struct LiveVaultData {
    pub current_tick: i32,
    pub sqrt_price_x96: U256,
    pub lower_tick: i32,
    pub upper_tick: i32,
    pub is_active: bool,
    /// The liquidity of the position stored under the vault's range.
    pub liquidity: u128,
    pub tokens_owed0: u128,
    pub tokens_owed1: u128,
    /// Idle balances held by the vault.
    pub balances: VaultTokenBalances,
}

/// The token amounts of the vault's position at the pool's price.
pub open spec fn live_amounts(live: LiveVaultData) -> (nat, nat) {
    let sl = sqrt_ratio_at_tick(live.lower_tick as int);
    let su = sqrt_ratio_at_tick(live.upper_tick as int);
    amounts_spec(live.sqrt_price_x96.val(), min_nat(sl, su), max_nat(sl, su), live.liquidity as nat)
}

/// When the position of an active vault can be valued.
pub open spec fn live_position_ok(live: LiveVaultData) -> bool {
    let sl = sqrt_ratio_at_tick(live.lower_tick as int);
    let su = sqrt_ratio_at_tick(live.upper_tick as int);
    !live.is_active || (tick_in_range(live.lower_tick as int) && tick_in_range(live.upper_tick as int)
        && amounts_ok(live.sqrt_price_x96.val(), min_nat(sl, su), max_nat(sl, su), live.liquidity as nat))
}

/// The error of a position that cannot be valued.
pub open spec fn live_position_error(live: LiveVaultData) -> MathError {
    if !tick_in_range(live.lower_tick as int) || !tick_in_range(live.upper_tick as int) {
        MathError::TickOutOfRange
    } else {
        MathError::Arithmetic
    }
}

/// What `p` says of the vault read as `live`: its range, liquidity, amounts
/// and uncollected fees when the vault is active, and nothing otherwise.
pub open spec fn position_matches(p: Position, live: LiveVaultData) -> bool {
    if live.is_active {
        &&& p.tick_lower == live.lower_tick
        &&& p.tick_upper == live.upper_tick
        &&& p.liquidity == live.liquidity
        &&& (p.amount0.val(), p.amount1.val()) == live_amounts(live)
        &&& p.fees0 == live.tokens_owed0
        &&& p.fees1 == live.tokens_owed1
    } else {
        p.is_empty()
    }
}

/// TVL per token: position amount, uncollected fees and idle balance.
pub open spec fn tvl_of(p: Position, balances: VaultTokenBalances) -> (nat, nat) {
    (
        p.amount0.val() + p.fees0 as nat + balances.token0_balance.val(),
        p.amount1.val() + p.fees1 as nat + balances.token1_balance.val(),
    )
}

pub open spec fn tvl_fits(p: Position, balances: VaultTokenBalances) -> bool {
    tvl_of(p, balances).0 < two_256() && tvl_of(p, balances).1 < two_256()
}

/// The vault's position as read on chain.
pub fn vault_position(live: &LiveVaultData) -> (r: Result<Position, MathError>)
    ensures
        r is Ok <==> live_position_ok(*live),
        r matches Ok(p) ==> position_matches(p, *live),
        r matches Err(e) ==> e == live_position_error(*live),
{
    if !live.is_active {
        return Ok(Position::default());
    }
    let sqrt_lower = get_sqrt_ratio_at_tick(live.lower_tick)?;
    let sqrt_upper = get_sqrt_ratio_at_tick(live.upper_tick)?;
    let (amount0, amount1) = get_amounts_for_liquidity(&live.sqrt_price_x96, &sqrt_lower, &sqrt_upper, live.liquidity)?;
    Ok(
        Position {
            tick_lower: live.lower_tick,
            tick_upper: live.upper_tick,
            liquidity: live.liquidity,
            amount0,
            amount1,
            fees0: live.tokens_owed0,
            fees1: live.tokens_owed1,
        },
    )
}

fn add3(a: &U256, b: u128, c: &U256) -> (r: Result<U256, MathError>)
    ensures
        r is Ok <==> a.val() + b + c.val() < two_256(),
        r matches Ok(v) ==> v.val() == a.val() + b + c.val(),
        r matches Err(e) ==> e == MathError::Arithmetic,
{
    let ab = match checked_add(a, &U256::from_u128(b)) {
        Some(v) => v,
        None => return Err(MathError::Arithmetic),
    };
    match checked_add(&ab, c) {
        Some(v) => Ok(v),
        None => Err(MathError::Arithmetic),
    }
}

/// The vault's TVL: for each token, the position's amount and uncollected
/// fees plus the idle balance.
pub fn vault_tvl(position: &Position, balances: &VaultTokenBalances) -> (r: Result<VaultTVL, MathError>)
    ensures
        r is Ok <==> tvl_fits(*position, *balances),
        r matches Ok(t) ==> (t.tvl0.val(), t.tvl1.val()) == tvl_of(*position, *balances),
        r matches Err(e) ==> e == MathError::Arithmetic,
{
    let tvl0 = add3(&position.amount0, position.fees0, &balances.token0_balance)?;
    let tvl1 = add3(&position.amount1, position.fees1, &balances.token1_balance)?;
    Ok(VaultTVL { tvl0, tvl1 })
}

/// Refreshes a vault with what was read on chain: the pool's tick and price,
/// the vault's range and activity, its position and its TVL. On an error the
/// vault is left as it was.
pub fn update_vault_live(vault: &mut VaultDetails, live: &LiveVaultData) -> (r: Result<(), MathError>)
    ensures
        r is Ok <==> live_position_ok(*live) && (forall|p: Position|
            position_matches(p, *live) ==> tvl_fits(p, live.balances)),
        r is Err ==> *final(vault) == *old(vault),
        r matches Err(e) ==> e == (if !live_position_ok(*live) {
            live_position_error(*live)
        } else {
            MathError::Arithmetic
        }),
        r is Ok ==> {
            &&& final(vault).pool.current_tick == live.current_tick
            &&& final(vault).pool.sqrt_price_x96 == live.sqrt_price_x96
            &&& final(vault).lower_tick == live.lower_tick
            &&& final(vault).upper_tick == live.upper_tick
            &&& final(vault).is_active == live.is_active
            &&& position_matches(final(vault).position, *live)
            &&& (final(vault).tvl.tvl0.val(), final(vault).tvl.tvl1.val()) == tvl_of(
                final(vault).position,
                live.balances,
            )
            &&& final(vault).address == old(vault).address
            &&& final(vault).pool.address == old(vault).pool.address
            &&& final(vault).pool.token0 == old(vault).pool.token0
            &&& final(vault).pool.token1 == old(vault).pool.token1
            &&& final(vault).pool.fee == old(vault).pool.fee
            &&& final(vault).pool.tick_spacing == old(vault).pool.tick_spacing
            &&& final(vault).name == old(vault).name
            &&& final(vault).symbol == old(vault).symbol
            &&& final(vault).decimals == old(vault).decimals
            &&& final(vault).total_supply == old(vault).total_supply
            &&& final(vault).is_vault_tokens_associated == old(vault).is_vault_tokens_associated
        },
{
    let position = vault_position(live)?;
    proof {
        lemma_position_matches_unique(position, *live);
    }
    let tvl = vault_tvl(&position, &live.balances)?;
    vault.pool.current_tick = live.current_tick;
    vault.pool.sqrt_price_x96 = live.sqrt_price_x96;
    vault.lower_tick = live.lower_tick;
    vault.upper_tick = live.upper_tick;
    vault.is_active = live.is_active;
    vault.position = position;
    vault.tvl = tvl;
    Ok(())
}

/// Every position that matches a reading has the same TVL figures.
proof fn lemma_position_matches_unique(p: Position, live: LiveVaultData)
    requires
        position_matches(p, live),
    ensures
        forall|q: Position| #[trigger] position_matches(q, live) ==> tvl_of(q, live.balances) == tvl_of(p, live.balances),
{
}

} // verus!

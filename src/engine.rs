//! The rebalance policy of a vault: when a monitoring cycle stops, and the
//! range, liquidity and swap it plans otherwise.
//!
//! A cycle first evaluates the vault (`evaluate_vault`); unless that says to
//! skip, the caller asks its strategy for a range and hands the answer to
//! `plan_rebalance`, which either skips or returns a complete plan.
use vstd::prelude::*;
use crate::uint::{U256, U512, two_256, two_512, mul_wide, div_rem_wide, lt_wide, add_wide, difference};
use crate::tick_math::{get_sqrt_ratio_at_tick, sqrt_ratio_at_tick, tick_in_range};
use crate::liquidity_math::{
    get_liquidity_for_amount0, get_liquidity_for_amount1, get_amounts_for_liquidity,
    liquidity0_ok, liquidity0_spec, liquidity1_ok, liquidity1_spec, amounts_ok, amounts_spec,
};
use crate::math::{align_to_pool_tick_spacing, aligned_tick};
use crate::types::{PrepareSwapArgs, TickRange, VaultDetails, VaultTokenBalances};
use crate::MathError;

verus! {

/// `10^d`.
pub open spec fn pow10(d: nat) -> nat
    decreases d,
{
    if d == 0 {
        1
    } else {
        10 * pow10((d - 1) as nat)
    }
}

proof fn lemma_pow10_monotone(k: nat, d: nat)
    requires
        k <= d,
    ensures
        1 <= pow10(k) <= pow10(d),
    decreases d,
{
    if d > k {
        lemma_pow10_monotone(k, (d - 1) as nat);
    } else if k > 0 {
        lemma_pow10_monotone((k - 1) as nat, (k - 1) as nat);
    }
}

/// `2^52`: `2^-52` is the machine epsilon of a double.
pub open spec fn epsilon_scale() -> nat {
    0x10_0000_0000_0000
}

/// An uncollected fee counts as low below one hundredth of a whole token:
/// `fees / 10^decimals < 0.01`.
pub open spec fn fee_is_low(fees: nat, decimals: nat) -> bool {
    fees * 100 < pow10(decimals)
}

/// A balance counts as empty when, in whole tokens, it is at most the
/// machine epsilon of a double: `balance / 10^decimals <= 2^-52`.
pub open spec fn balance_is_dust(balance: nat, decimals: nat) -> bool {
    balance * epsilon_scale() <= pow10(decimals)
}

/// A position is out of range when the current tick lies strictly outside
/// its bounds; a tick on a bound is in range.
pub open spec fn out_of_range(current_tick: int, lower_tick: int, upper_tick: int) -> bool {
    current_tick < lower_tick || current_tick > upper_tick
}

/// Why a cycle ends without a rebalance.
#[derive(Clone, Copy, Debug, PartialEq, Eq, Structural)]
pub enum SkipReason {
    /// The position is in range and both uncollected fees are low.
    InRangeLowFees,
    /// The vault has no position and no idle balance worth deploying.
    NothingToDeploy,
    /// The strategy does not recommend a rebalance.
    NotRecommended,
    /// The recommended range is the current one.
    SameRange,
}

/// What a cycle does after the vault has been evaluated.
#[derive(Clone, Copy, Debug, PartialEq, Eq, Structural)]
pub enum Evaluation {
    Skip(SkipReason),
    /// Ask the strategy for a range.
    ConsultStrategy,
}

/// A strategy's answer, its prices already turned into ticks (not yet aligned
/// to the pool's tick spacing).
#[derive(Clone, Copy, Debug, PartialEq, Eq, Structural)]
pub struct RangeRecommendation {
    pub rebalance_required: bool,
    pub lower_tick: i32,
    pub upper_tick: i32,
}

/// The instruction a cycle submits: the new range, the liquidity to mint in
/// it, and the swap that funds it.
#[derive(Clone, Copy, Debug, PartialEq, Eq, Structural)]
pub struct RebalancePlan {
    pub range: TickRange,
    pub liquidity: u128,
    pub swap: PrepareSwapArgs,
}

/// What `plan_rebalance` decided.
#[derive(Clone, Copy, Debug, PartialEq, Eq, Structural)]
pub enum Decision {
    Skip(SkipReason),
    Planned(RebalancePlan),
}

/// A swap in numbers.
pub struct SwapModel {
    pub is_swap_0_to_1: bool,
    pub exact_amount_out: nat,
    pub max_amount_in: nat,
}

/// A plan in numbers.
pub struct PlanModel {
    pub current_tick: int,
    pub lower_tick: int,
    pub upper_tick: int,
    pub liquidity: nat,
    pub swap: SwapModel,
}

/// A decision in numbers.
pub enum DecisionModel {
    Skip(SkipReason),
    Planned(PlanModel),
}

impl PrepareSwapArgs {
    pub open spec fn model(&self) -> SwapModel {
        SwapModel {
            is_swap_0_to_1: self.is_swap_0_to_1,
            exact_amount_out: self.exact_amount_out.val(),
            max_amount_in: self.max_amount_in.val(),
        }
    }
}

impl Decision {
    pub open spec fn model(&self) -> DecisionModel {
        match self {
            Decision::Skip(reason) => DecisionModel::Skip(*reason),
            Decision::Planned(p) => DecisionModel::Planned(
                PlanModel {
                    current_tick: p.range.curent_tick as int,
                    lower_tick: p.range.lower_tick as int,
                    upper_tick: p.range.upper_tick as int,
                    liquidity: p.liquidity as nat,
                    swap: p.swap.model(),
                },
            ),
        }
    }
}

/// A planning result in numbers.
pub open spec fn outcome_model(r: Result<Decision, MathError>) -> Result<DecisionModel, MathError> {
    match r {
        Ok(d) => Ok(d.model()),
        Err(e) => Err(e),
    }
}

pub open spec fn abs_diff(a: nat, b: nat) -> nat {
    if a >= b {
        (a - b) as nat
    } else {
        (b - a) as nat
    }
}

/// The swap that turns balances `(balance0, balance1)` into the desired
/// amounts: with `excess_i = balance_i - desired_i`, a shortfall of token0 is
/// bought with token1 (at most `|excess1|` of it), else a shortfall of token1
/// is bought with the excess of token0; with no shortfall nothing is swapped.
pub open spec fn swap_spec(balance0: nat, desired0: nat, balance1: nat, desired1: nat) -> SwapModel {
    if balance0 < desired0 {
        SwapModel {
            is_swap_0_to_1: false,
            exact_amount_out: (desired0 - balance0) as nat,
            max_amount_in: abs_diff(balance1, desired1),
        }
    } else if balance1 < desired1 {
        SwapModel {
            is_swap_0_to_1: true,
            exact_amount_out: (desired1 - balance1) as nat,
            max_amount_in: (balance0 - desired0) as nat,
        }
    } else {
        SwapModel { is_swap_0_to_1: true, exact_amount_out: 0, max_amount_in: 0 }
    }
}

/// The first step of a cycle.
pub open spec fn evaluation_spec(vault: VaultDetails, idle: VaultTokenBalances) -> Evaluation {
    let d0 = vault.pool.token0.decimals as nat;
    let d1 = vault.pool.token1.decimals as nat;
    if vault.is_active {
        if !out_of_range(vault.pool.current_tick as int, vault.lower_tick as int, vault.upper_tick as int)
            && fee_is_low(vault.position.fees0 as nat, d0) && fee_is_low(vault.position.fees1 as nat, d1) {
            Evaluation::Skip(SkipReason::InRangeLowFees)
        } else {
            Evaluation::ConsultStrategy
        }
    } else if balance_is_dust(idle.token0_balance.val(), d0) && balance_is_dust(idle.token1_balance.val(), d1) {
        Evaluation::Skip(SkipReason::NothingToDeploy)
    } else {
        Evaluation::ConsultStrategy
    }
}

/// The balances a new position is funded from: for a vault with a position,
/// everything it would hold once that position is withdrawn (its TVL); for
/// one without, its idle balances.
pub open spec fn funding_spec(vault: VaultDetails, idle: VaultTokenBalances) -> (nat, nat) {
    if vault.is_active {
        (vault.tvl.tvl0.val(), vault.tvl.tvl1.val())
    } else {
        (idle.token0_balance.val(), idle.token1_balance.val())
    }
}

/// Token0 funds dominate when they are worth more than the token1 funds at
/// the price `(sqrt_price / 2^96)^2` (token1 per token0, raw units).
pub open spec fn token0_dominates(balance0: nat, balance1: nat, sqrt_price: nat) -> bool {
    balance0 * (sqrt_price * sqrt_price) > balance1 * two_192()
}

pub open spec fn two_192() -> nat {
    0x1_0000_0000_0000_0000 * (0x1_0000_0000_0000_0000 * 0x1_0000_0000_0000_0000)
}

/// The planning step of a cycle, from the vault, its idle balances and the
/// strategy's answer.
pub open spec fn plan_spec(
    vault: VaultDetails,
    idle: VaultTokenBalances,
    rec: RangeRecommendation,
) -> Result<DecisionModel, MathError> {
    let spacing = vault.pool.tick_spacing as int;
    let current = vault.pool.current_tick as int;
    if !rec.rebalance_required {
        Ok(DecisionModel::Skip(SkipReason::NotRecommended))
    } else if spacing <= 0 {
        Err(MathError::Arithmetic)
    } else {
        let lower = aligned_tick(rec.lower_tick as int, spacing);
        let upper = aligned_tick(rec.upper_tick as int, spacing);
        if vault.is_active && lower == vault.lower_tick && upper == vault.upper_tick {
            Ok(DecisionModel::Skip(SkipReason::SameRange))
        } else if !tick_in_range(lower) || !tick_in_range(upper) || !tick_in_range(current) {
            Err(MathError::TickOutOfRange)
        } else {
            let sl = sqrt_ratio_at_tick(lower);
            let su = sqrt_ratio_at_tick(upper);
            let sc = sqrt_ratio_at_tick(current);
            let (b0, b1) = funding_spec(vault, idle);
            let by0 = token0_dominates(b0, b1, sc);
            if by0 && !liquidity0_ok(sl, su, b0) || !by0 && !liquidity1_ok(sl, su, b1) {
                Err(MathError::Arithmetic)
            } else {
                let l = if by0 {
                    liquidity0_spec(sl, su, b0)
                } else {
                    liquidity1_spec(sl, su, b1)
                };
                if !amounts_ok(sc, sl, su, l) {
                    Err(MathError::Arithmetic)
                } else {
                    let (a0, a1) = amounts_spec(sc, sl, su, l);
                    Ok(
                        DecisionModel::Planned(
                            PlanModel {
                                current_tick: current,
                                lower_tick: lower,
                                upper_tick: upper,
                                liquidity: l,
                                swap: swap_spec(b0, a0, b1, a1),
                            },
                        ),
                    )
                }
            }
        }
    }
}

/// Whether the current tick lies strictly outside `[lower_tick, upper_tick]`.
pub fn is_out_of_range(current_tick: i32, lower_tick: i32, upper_tick: i32) -> (r: bool)
    ensures
        r == out_of_range(current_tick as int, lower_tick as int, upper_tick as int),
{
    current_tick < lower_tick || current_tick > upper_tick
}

fn u512_small(x: u64) -> (r: U512)
    ensures
        r.val() == x,
{
    U256::from_u128(x as u128).widen()
}

fn times_ten(p: &U512) -> (r: U512)
    requires
        p.val() * 10 < two_512(),
    ensures
        r.val() == p.val() * 10,
{
    proof {
        vstd::arithmetic::div_mod::lemma_small_mod(p.val() + p.val(), two_512());
        vstd::arithmetic::div_mod::lemma_small_mod(4 * p.val(), two_512());
        vstd::arithmetic::div_mod::lemma_small_mod(8 * p.val(), two_512());
        vstd::arithmetic::div_mod::lemma_small_mod(10 * p.val(), two_512());
    }
    let two = add_wide(p, p);
    let four = add_wide(&two, &two);
    let eight = add_wide(&four, &four);
    add_wide(&eight, &two)
}

/// Whether `x <= 10^d`.
fn le_pow10(x: &U512, d: u8) -> (r: bool)
    requires
        x.val() * 10 < two_512(),
    ensures
        r == (x.val() <= pow10(d as nat)),
{
    let mut p = u512_small(1);
    let mut k: u8 = 0;
    while k < d
        invariant
            k <= d,
            p.val() == pow10(k as nat),
            x.val() * 10 < two_512(),
        decreases d - k,
    {
        if !lt_wide(&p, x) {
            proof {
                lemma_pow10_monotone(k as nat, d as nat);
            }
            return true;
        }
        p = times_ten(&p);
        k = k + 1;
    }
    !lt_wide(&p, x)
}

/// Whether an uncollected fee is below one hundredth of a whole token.
pub fn is_fee_low(fees: u128, decimals: u8) -> (r: bool)
    ensures
        r == fee_is_low(fees as nat, decimals as nat),
{
    let x = mul_wide(&U256::from_u128(fees), &U256::from_u128(100));
    let ghost f = fees as nat;
    proof {
        assert(f * 100 + 1 < two_256()) by (nonlinear_arith)
            requires
                f < 0x1_0000_0000_0000_0000 * 0x1_0000_0000_0000_0000,
        ;
        assert(two_256() * 10 < two_512()) by (nonlinear_arith);
        vstd::arithmetic::div_mod::lemma_small_mod(f * 100 + 1, two_512());
    }
    let y = add_wide(&x, &u512_small(1));
    le_pow10(&y, decimals)
}

/// Whether a balance, in whole tokens, is at most the machine epsilon of a double.
pub fn is_balance_dust(balance: &U256, decimals: u8) -> (r: bool)
    ensures
        r == balance_is_dust(balance.val(), decimals as nat),
{
    let x = mul_wide(balance, &U256::from_u128(0x10_0000_0000_0000));
    proof {
        let b = balance.val();
        balance.lemma_bound();
        assert(b * 0x10_0000_0000_0000 * 10 < two_512()) by (nonlinear_arith)
            requires
                b < two_256(),
                two_256() == 0x1_0000_0000_0000_0000 * 0x1_0000_0000_0000_0000 * (0x1_0000_0000_0000_0000
                    * 0x1_0000_0000_0000_0000),
        ;
    }
    le_pow10(&x, decimals)
}

/// The swap that turns balances into the desired amounts (see `swap_spec`).
pub fn prepare_swap(balance0: &U256, desired0: &U256, balance1: &U256, desired1: &U256) -> (r: PrepareSwapArgs)
    ensures
        r.model() == swap_spec(balance0.val(), desired0.val(), balance1.val(), desired1.val()),
{
    if balance0.lt(desired0) {
        let max_in = if balance1.lt(desired1) {
            difference(desired1, balance1)
        } else {
            difference(balance1, desired1)
        };
        PrepareSwapArgs {
            is_swap_0_to_1: false,
            exact_amount_out: difference(desired0, balance0),
            max_amount_in: max_in,
        }
    } else if balance1.lt(desired1) {
        PrepareSwapArgs {
            is_swap_0_to_1: true,
            exact_amount_out: difference(desired1, balance1),
            max_amount_in: difference(balance0, desired0),
        }
    } else {
        PrepareSwapArgs { is_swap_0_to_1: true, exact_amount_out: U256::zero(), max_amount_in: U256::zero() }
    }
}

/// Whether token0 funds are worth more than token1 funds at `sqrt_price`.
pub fn balance0_dominates(balance0: &U256, balance1: &U256, sqrt_price: &U256) -> (r: bool)
    ensures
        r == token0_dominates(balance0.val(), balance1.val(), sqrt_price.val()),
{
    let ghost b0 = balance0.val();
    let ghost b1 = balance1.val();
    let ghost s = sqrt_price.val();
    if balance0.is_zero() {
        proof {
            assert(b0 * (s * s) == 0) by (nonlinear_arith)
                requires
                    b0 == 0,
            ;
        }
        return false;
    }
    let scale = U256::from_limbs([0, 0, 0, 1]);
    proof {
        assert(scale.val() == two_192());
    }
    let price = mul_wide(sqrt_price, sqrt_price);
    let value1 = mul_wide(balance1, &scale);
    let (bound, _rem) = div_rem_wide(&value1, &balance0.widen());
    proof {
        let n = b1 * two_192();
        let p = s * s;
        let f = n / b0;
        vstd::arithmetic::div_mod::lemma_fundamental_div_mod(n as int, b0 as int);
        vstd::arithmetic::div_mod::lemma_mod_bound(n as int, b0 as int);
        let m = n % b0;
        if f < p {
            assert(b0 * p > n) by (nonlinear_arith)
                requires
                    n == b0 * f + m,
                    m < b0,
                    f + 1 <= p,
            ;
        } else {
            assert(b0 * p <= n) by (nonlinear_arith)
                requires
                    n == b0 * f + m,
                    m >= 0,
                    f >= p,
                    b0 > 0,
            ;
        }
    }
    lt_wide(&bound, &price)
}

/// The first step of a monitoring cycle. A vault with a position stops here
/// when the position is in range and both uncollected fees are low; a vault
/// without one stops when both idle balances are empty. Otherwise the cycle
/// goes on to ask the strategy for a range.
pub fn evaluate_vault(vault: &VaultDetails, idle: &VaultTokenBalances) -> (r: Evaluation)
    ensures
        r == evaluation_spec(*vault, *idle),
{
    let d0 = vault.pool.token0.decimals;
    let d1 = vault.pool.token1.decimals;
    if vault.is_active {
        let out = is_out_of_range(vault.pool.current_tick, vault.lower_tick, vault.upper_tick);
        if !out && is_fee_low(vault.position.fees0, d0) && is_fee_low(vault.position.fees1, d1) {
            Evaluation::Skip(SkipReason::InRangeLowFees)
        } else {
            Evaluation::ConsultStrategy
        }
    } else if is_balance_dust(&idle.token0_balance, d0) && is_balance_dust(&idle.token1_balance, d1) {
        Evaluation::Skip(SkipReason::NothingToDeploy)
    } else {
        Evaluation::ConsultStrategy
    }
}

/// The planning step of a monitoring cycle (see `plan_spec`). It skips when the
/// strategy sees no need, or when the recommended range, aligned to the tick
/// spacing, is the one the vault's position already has. Otherwise it funds
/// the new range from the dominant token's whole balance, takes the amounts
/// that liquidity needs at the current price, and plans the swap that covers
/// the shortfall of the other token.
pub fn plan_rebalance(
    vault: &VaultDetails,
    idle: &VaultTokenBalances,
    rec: &RangeRecommendation,
) -> (r: Result<Decision, MathError>)
    ensures
        outcome_model(r) == plan_spec(*vault, *idle, *rec),
{
    let spacing = vault.pool.tick_spacing;
    let current = vault.pool.current_tick;
    if !rec.rebalance_required {
        return Ok(Decision::Skip(SkipReason::NotRecommended));
    }
    if spacing <= 0 {
        return Err(MathError::Arithmetic);
    }
    let lower = align_to_pool_tick_spacing(rec.lower_tick, spacing);
    let upper = align_to_pool_tick_spacing(rec.upper_tick, spacing);
    if vault.is_active && lower == vault.lower_tick && upper == vault.upper_tick {
        return Ok(Decision::Skip(SkipReason::SameRange));
    }
    let sqrt_lower = get_sqrt_ratio_at_tick(lower)?;
    let sqrt_upper = get_sqrt_ratio_at_tick(upper)?;
    let sqrt_current = get_sqrt_ratio_at_tick(current)?;
    let (balance0, balance1) = if vault.is_active {
        (vault.tvl.tvl0, vault.tvl.tvl1)
    } else {
        (idle.token0_balance, idle.token1_balance)
    };
    let by0 = balance0_dominates(&balance0, &balance1, &sqrt_current);
    let liquidity = if by0 {
        get_liquidity_for_amount0(&sqrt_lower, &sqrt_upper, &balance0)?
    } else {
        get_liquidity_for_amount1(&sqrt_lower, &sqrt_upper, &balance1)?
    };
    let (desired0, desired1) = get_amounts_for_liquidity(&sqrt_current, &sqrt_lower, &sqrt_upper, liquidity)?;
    let swap = prepare_swap(&balance0, &desired0, &balance1, &desired1);
    Ok(
        Decision::Planned(
            RebalancePlan {
                range: TickRange { curent_tick: current, lower_tick: lower, upper_tick: upper },
                liquidity,
                swap,
            },
        ),
    )
}

/// The rebalance decision depends on its inputs alone: two evaluations of the
/// same vault and balances agree, and so do two plans made from the same
/// vault, balances and recommendation.
pub proof fn lemma_decision_deterministic(
    vault: VaultDetails,
    idle: VaultTokenBalances,
    rec: RangeRecommendation,
    first_evaluation: Evaluation,
    second_evaluation: Evaluation,
    first_plan: Result<Decision, MathError>,
    second_plan: Result<Decision, MathError>,
)
    requires
        first_evaluation == evaluation_spec(vault, idle),
        second_evaluation == evaluation_spec(vault, idle),
        outcome_model(first_plan) == plan_spec(vault, idle, rec),
        outcome_model(second_plan) == plan_spec(vault, idle, rec),
    ensures
        first_evaluation == second_evaluation,
        outcome_model(first_plan) == outcome_model(second_plan),
{
}

/// A vault whose position is in range skips the cycle exactly when both
/// uncollected fees are low; with either fee at or above the threshold the
/// strategy is consulted.
pub proof fn lemma_in_range_skips_only_on_low_fees(vault: VaultDetails, idle: VaultTokenBalances)
    requires
        vault.is_active,
        !out_of_range(vault.pool.current_tick as int, vault.lower_tick as int, vault.upper_tick as int),
    ensures
        evaluation_spec(vault, idle) == (if fee_is_low(vault.position.fees0 as nat, vault.pool.token0.decimals as nat)
            && fee_is_low(vault.position.fees1 as nat, vault.pool.token1.decimals as nat) {
            Evaluation::Skip(SkipReason::InRangeLowFees)
        } else {
            Evaluation::ConsultStrategy
        }),
{
}

/// A recommendation that, once aligned, is the vault's current range ends the
/// cycle with a skip, whatever the fees, balances and prices.
pub proof fn lemma_same_range_skips(vault: VaultDetails, idle: VaultTokenBalances, rec: RangeRecommendation)
    requires
        vault.is_active,
        vault.pool.tick_spacing > 0,
        rec.rebalance_required,
        aligned_tick(rec.lower_tick as int, vault.pool.tick_spacing as int) == vault.lower_tick,
        aligned_tick(rec.upper_tick as int, vault.pool.tick_spacing as int) == vault.upper_tick,
    ensures
        plan_spec(vault, idle, rec) == Ok::<DecisionModel, MathError>(DecisionModel::Skip(SkipReason::SameRange)),
{
}

} // verus!

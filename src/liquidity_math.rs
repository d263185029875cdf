//! Conversions between liquidity and token amounts over a price range.
//!
//! Prices are square-root prices in Q64.96 fixed point, amounts are raw token
//! units, and every division rounds down, as on chain.
use vstd::prelude::*;
use crate::uint::{U256, two_128, two_256, mul_div, div_rem, difference};
use crate::tick_math::{get_sqrt_ratio_at_tick, sqrt_ratio_at_tick, tick_in_range};
use crate::MathError;

verus! {

/// `2^96`, the scale of a Q64.96 number.
pub open spec fn q96() -> nat {
    0x1_0000_0000_0000_0000_0000_0000
}

/// Liquidity that `amount0` of token0 buys over `[a, b]`.
pub open spec fn liquidity0_spec(a: nat, b: nat, amount0: nat) -> nat {
    amount0 * (a * b / q96()) / (b - a) as nat
}

/// When `liquidity0_spec` can be computed: an ordered range and no overflow.
pub open spec fn liquidity0_ok(a: nat, b: nat, amount0: nat) -> bool {
    &&& a < b
    &&& a * b / q96() < two_256()
    &&& liquidity0_spec(a, b, amount0) < two_128()
}

/// Liquidity that `amount1` of token1 buys over `[a, b]`.
pub open spec fn liquidity1_spec(a: nat, b: nat, amount1: nat) -> nat {
    amount1 * q96() / (b - a) as nat
}

pub open spec fn liquidity1_ok(a: nat, b: nat, amount1: nat) -> bool {
    &&& a < b
    &&& liquidity1_spec(a, b, amount1) < two_128()
}

/// Token0 held by `liquidity` over `[a, b]`.
pub open spec fn amount0_spec(a: nat, b: nat, liquidity: nat) -> nat {
    liquidity * q96() * (b - a) as nat / b / a
}

/// Token1 held by `liquidity` over `[a, b]`.
pub open spec fn amount1_spec(a: nat, b: nat, liquidity: nat) -> nat {
    liquidity * (b - a) as nat / q96()
}

pub open spec fn min_nat(a: nat, b: nat) -> nat {
    if a <= b {
        a
    } else {
        b
    }
}

pub open spec fn max_nat(a: nat, b: nat) -> nat {
    if a <= b {
        b
    } else {
        a
    }
}

/// Both token amounts of `liquidity` over `[a, b]` at the current price `p`.
pub open spec fn amounts_spec(p: nat, a: nat, b: nat, liquidity: nat) -> (nat, nat) {
    if p <= a {
        (amount0_spec(a, b, liquidity), 0)
    } else if p < b {
        (amount0_spec(p, b, liquidity), amount1_spec(a, p, liquidity))
    } else {
        (0, amount1_spec(a, b, liquidity))
    }
}

/// When `amounts_spec` can be computed: a positive, ordered range and no overflow.
pub open spec fn amounts_ok(p: nat, a: nat, b: nat, liquidity: nat) -> bool {
    &&& 0 < a <= b
    &&& amounts_spec(p, a, b, liquidity).1 < two_256()
}

fn u256_q96() -> (r: U256)
    ensures
        r.val() == q96(),
{
    U256::from_limbs([0, 0x1_0000_0000, 0, 0])
}

fn u256_one() -> (r: U256)
    ensures
        r.val() == 1,
{
    U256::from_u128(1)
}

/// Liquidity for `amount0` of token0 over `[sqrt_a, sqrt_b]`.
pub fn get_liquidity_for_amount0(sqrt_a: &U256, sqrt_b: &U256, amount0: &U256) -> (r: Result<u128, MathError>)
    ensures
        r is Ok <==> liquidity0_ok(sqrt_a.val(), sqrt_b.val(), amount0.val()),
        r matches Ok(l) ==> l == liquidity0_spec(sqrt_a.val(), sqrt_b.val(), amount0.val()),
        r matches Err(e) ==> e == MathError::Arithmetic,
{
    if sqrt_b.le(sqrt_a) {
        return Err(MathError::Arithmetic);
    }
    let intermediate = match mul_div(sqrt_a, sqrt_b, &u256_q96()) {
        Some(v) => v,
        None => return Err(MathError::Arithmetic),
    };
    let width = difference(sqrt_b, sqrt_a);
    match mul_div(amount0, &intermediate, &width) {
        Some(v) => match v.to_u128() {
            Some(l) => Ok(l),
            None => Err(MathError::Arithmetic),
        },
        None => {
            proof {
                assert(two_128() < two_256()) by (nonlinear_arith);
            }
            Err(MathError::Arithmetic)
        },
    }
}

/// Liquidity for `amount1` of token1 over `[sqrt_a, sqrt_b]`.
pub fn get_liquidity_for_amount1(sqrt_a: &U256, sqrt_b: &U256, amount1: &U256) -> (r: Result<u128, MathError>)
    ensures
        r is Ok <==> liquidity1_ok(sqrt_a.val(), sqrt_b.val(), amount1.val()),
        r matches Ok(l) ==> l == liquidity1_spec(sqrt_a.val(), sqrt_b.val(), amount1.val()),
        r matches Err(e) ==> e == MathError::Arithmetic,
{
    if sqrt_b.le(sqrt_a) {
        return Err(MathError::Arithmetic);
    }
    let width = difference(sqrt_b, sqrt_a);
    match mul_div(amount1, &u256_q96(), &width) {
        Some(v) => match v.to_u128() {
            Some(l) => Ok(l),
            None => Err(MathError::Arithmetic),
        },
        None => {
            proof {
                assert(two_128() < two_256()) by (nonlinear_arith);
            }
            Err(MathError::Arithmetic)
        },
    }
}

/// Token0 held by `liquidity` between two square-root prices, in either order.
pub fn get_amount0_for_liquidity(sqrt_a: &U256, sqrt_b: &U256, liquidity: u128) -> (r: Result<U256, MathError>)
    ensures
        r is Ok <==> 0 < min_nat(sqrt_a.val(), sqrt_b.val()),
        r matches Ok(v) ==> v.val() == amount0_spec(
            min_nat(sqrt_a.val(), sqrt_b.val()),
            max_nat(sqrt_a.val(), sqrt_b.val()),
            liquidity as nat,
        ),
        r matches Err(e) ==> e == MathError::Arithmetic,
{
    let (lower, upper) = if sqrt_b.lt(sqrt_a) {
        (sqrt_b, sqrt_a)
    } else {
        (sqrt_a, sqrt_b)
    };
    if lower.is_zero() {
        return Err(MathError::Arithmetic);
    }
    let l = U256::from_u128(liquidity);
    let q = u256_q96();
    let width = difference(upper, lower);
    let ghost lv = liquidity as nat;
    let ghost w = width.val();
    let ghost b = upper.val();
    proof {
        assert(lv * q96() < two_256()) by (nonlinear_arith)
            requires
                lv < two_128(),
        ;
        assert((lv * q96()) / 1 == lv * q96());
    }
    let shifted = match mul_div(&l, &q, &u256_one()) {
        Some(v) => v,
        None => return Err(MathError::Arithmetic),
    };
    proof {
        let s = shifted.val();
        assert(s * w <= s * b) by (nonlinear_arith)
            requires
                w <= b,
        ;
        vstd::arithmetic::div_mod::lemma_div_is_ordered((s * w) as int, (s * b) as int, b as int);
        vstd::arithmetic::div_mod::lemma_div_multiples_vanish(s as int, b as int);
        assert(s * b == b * s) by (nonlinear_arith);
        shifted.lemma_bound();
    }
    let scaled = match mul_div(&shifted, &width, upper) {
        Some(v) => v,
        None => return Err(MathError::Arithmetic),
    };
    Ok(div_rem(&scaled, lower).0)
}

/// Token1 held by `liquidity` between two square-root prices, in either order.
pub fn get_amount1_for_liquidity(sqrt_a: &U256, sqrt_b: &U256, liquidity: u128) -> (r: Result<U256, MathError>)
    ensures
        r is Ok <==> amount1_spec(
            min_nat(sqrt_a.val(), sqrt_b.val()),
            max_nat(sqrt_a.val(), sqrt_b.val()),
            liquidity as nat,
        ) < two_256(),
        r matches Ok(v) ==> v.val() == amount1_spec(
            min_nat(sqrt_a.val(), sqrt_b.val()),
            max_nat(sqrt_a.val(), sqrt_b.val()),
            liquidity as nat,
        ),
        r matches Err(e) ==> e == MathError::Arithmetic,
{
    let (lower, upper) = if sqrt_b.lt(sqrt_a) {
        (sqrt_b, sqrt_a)
    } else {
        (sqrt_a, sqrt_b)
    };
    let width = difference(upper, lower);
    match mul_div(&U256::from_u128(liquidity), &width, &u256_q96()) {
        Some(v) => Ok(v),
        None => Err(MathError::Arithmetic),
    }
}

/// Both token amounts of `liquidity` between two square-root prices (in either
/// order) at the price `sqrt_price`: all token0 at or below the range, all
/// token1 at or above it, and the range split at the price inside it.
pub fn get_amounts_for_liquidity(
    sqrt_price: &U256,
    sqrt_a: &U256,
    sqrt_b: &U256,
    liquidity: u128,
) -> (r: Result<(U256, U256), MathError>)
    ensures
        r is Ok <==> amounts_ok(
            sqrt_price.val(),
            min_nat(sqrt_a.val(), sqrt_b.val()),
            max_nat(sqrt_a.val(), sqrt_b.val()),
            liquidity as nat,
        ),
        r matches Ok(v) ==> (v.0.val(), v.1.val()) == amounts_spec(
            sqrt_price.val(),
            min_nat(sqrt_a.val(), sqrt_b.val()),
            max_nat(sqrt_a.val(), sqrt_b.val()),
            liquidity as nat,
        ),
        r matches Ok(v) ==> (sqrt_price.val() <= min_nat(sqrt_a.val(), sqrt_b.val()) ==> v.1.val() == 0),
        r matches Ok(v) ==> (sqrt_price.val() >= max_nat(sqrt_a.val(), sqrt_b.val()) ==> v.0.val() == 0),
        r matches Err(e) ==> e == MathError::Arithmetic,
{
    proof {
        assert(0 < two_256()) by (nonlinear_arith);
    }
    let (lower, upper) = if sqrt_b.lt(sqrt_a) {
        (sqrt_b, sqrt_a)
    } else {
        (sqrt_a, sqrt_b)
    };
    if lower.is_zero() {
        return Err(MathError::Arithmetic);
    }
    if sqrt_price.le(lower) {
        let amount0 = get_amount0_for_liquidity(lower, upper, liquidity)?;
        proof {
            let a = lower.val();
            let b = upper.val();
            let l = liquidity as nat;
            if sqrt_price.val() >= b {
                assert(l * q96() * (b - a) as nat / b / a == 0) by (nonlinear_arith)
                    requires
                        a == b,
                        a > 0,
                ;
            }
        }
        Ok((amount0, U256::zero()))
    } else if sqrt_price.lt(upper) {
        let amount0 = get_amount0_for_liquidity(sqrt_price, upper, liquidity)?;
        let amount1 = get_amount1_for_liquidity(lower, sqrt_price, liquidity)?;
        Ok((amount0, amount1))
    } else {
        let amount1 = get_amount1_for_liquidity(lower, upper, liquidity)?;
        Ok((U256::zero(), amount1))
    }
}

/// Token1 needed beside `amount0` of token0 for a position over
/// `[tick_lower, tick_upper]` at the price `sqrt_price`: the liquidity that
/// `amount0` buys between the price and the upper bound, valued in token1
/// between the lower bound and the price.
pub fn estimate_amount1_given_amount0(
    sqrt_price: &U256,
    tick_lower: i32,
    tick_upper: i32,
    amount0: &U256,
) -> (r: Result<U256, MathError>)
    ensures
        r is Ok <==> {
            &&& tick_in_range(tick_lower as int)
            &&& tick_in_range(tick_upper as int)
            &&& liquidity0_ok(sqrt_price.val(), sqrt_ratio_at_tick(tick_upper as int), amount0.val())
            &&& amount1_spec(
                min_nat(sqrt_price.val(), sqrt_ratio_at_tick(tick_lower as int)),
                max_nat(sqrt_price.val(), sqrt_ratio_at_tick(tick_lower as int)),
                liquidity0_spec(sqrt_price.val(), sqrt_ratio_at_tick(tick_upper as int), amount0.val()),
            ) < two_256()
        },
        r matches Ok(v) ==> v.val() == amount1_spec(
            min_nat(sqrt_price.val(), sqrt_ratio_at_tick(tick_lower as int)),
            max_nat(sqrt_price.val(), sqrt_ratio_at_tick(tick_lower as int)),
            liquidity0_spec(sqrt_price.val(), sqrt_ratio_at_tick(tick_upper as int), amount0.val()),
        ),
        r matches Err(e) ==> (e == MathError::TickOutOfRange <==> (!tick_in_range(tick_lower as int)
            || !tick_in_range(tick_upper as int))),
{
    let sqrt_lower = get_sqrt_ratio_at_tick(tick_lower)?;
    let sqrt_upper = get_sqrt_ratio_at_tick(tick_upper)?;
    let liquidity = get_liquidity_for_amount0(sqrt_price, &sqrt_upper, amount0)?;
    get_amount1_for_liquidity(sqrt_price, &sqrt_lower, liquidity)
}

/// Liquidity -> token1 amount -> liquidity, with the price inside the range,
/// never gains liquidity and loses less than `1 + 2^96 / (sqrt_price - sqrt_lower)`
/// units of it; so at most one unit when the price is at least `2^96` above
/// the lower bound (the rounding error of the two floor divisions).
pub proof fn lemma_liquidity_round_trip_token1(sqrt_price: nat, sqrt_lower: nat, sqrt_upper: nat, liquidity: nat)
    requires
        0 < sqrt_lower < sqrt_price < sqrt_upper,
    ensures
        ({
            let amount1 = amounts_spec(sqrt_price, sqrt_lower, sqrt_upper, liquidity).1;
            let back = liquidity1_spec(sqrt_lower, sqrt_price, amount1);
            let d = (sqrt_price - sqrt_lower) as nat;
            &&& back <= liquidity
            &&& (liquidity - back) * d < q96() + d
            &&& d >= q96() ==> back + 1 >= liquidity
        }),
{
    let d = (sqrt_price - sqrt_lower) as nat;
    let q = q96();
    let l = liquidity;
    let a1 = l * d / q;
    let back = a1 * q / d;
    assert(amounts_spec(sqrt_price, sqrt_lower, sqrt_upper, l).1 == a1);
    vstd::arithmetic::div_mod::lemma_fundamental_div_mod((l * d) as int, q as int);
    vstd::arithmetic::div_mod::lemma_mod_bound((l * d) as int, q as int);
    vstd::arithmetic::div_mod::lemma_fundamental_div_mod((a1 * q) as int, d as int);
    vstd::arithmetic::div_mod::lemma_mod_bound((a1 * q) as int, d as int);
    let m1 = (l * d) % q;
    let m2 = (a1 * q) % d;
    assert(back <= l) by (nonlinear_arith)
        requires
            l * d == q * a1 + m1,
            a1 * q == d * back + m2,
            0 <= m1,
            0 <= m2,
            d > 0,
            q > 0,
    ;
    assert((l - back) * d < q + d) by (nonlinear_arith)
        requires
            l * d == q * a1 + m1,
            a1 * q == d * back + m2,
            m1 < q,
            m2 < d,
            d > 0,
    ;
    if d >= q {
        assert(back + 1 >= l) by (nonlinear_arith)
            requires
                (l - back) * d < q + d,
                d >= q,
                d > 0,
        ;
    }
}

/// Liquidity -> token0 amount -> liquidity, with the price inside the range,
/// never gains liquidity.
pub proof fn lemma_liquidity_round_trip_token0(sqrt_price: nat, sqrt_lower: nat, sqrt_upper: nat, liquidity: nat)
    requires
        0 < sqrt_lower < sqrt_price < sqrt_upper,
    ensures
        liquidity0_spec(sqrt_price, sqrt_upper, amounts_spec(sqrt_price, sqrt_lower, sqrt_upper, liquidity).0)
            <= liquidity,
{
    let p = sqrt_price;
    let b = sqrt_upper;
    let q = q96();
    let l = liquidity;
    let w = (b - p) as nat;
    let x = l * q * w / b;
    let a0 = x / p;
    let i = p * b / q;
    let back = a0 * i / w;
    assert(amounts_spec(p, sqrt_lower, b, l).0 == a0);
    vstd::arithmetic::div_mod::lemma_fundamental_div_mod((l * q * w) as int, b as int);
    vstd::arithmetic::div_mod::lemma_mod_bound((l * q * w) as int, b as int);
    vstd::arithmetic::div_mod::lemma_fundamental_div_mod(x as int, p as int);
    vstd::arithmetic::div_mod::lemma_mod_bound(x as int, p as int);
    vstd::arithmetic::div_mod::lemma_fundamental_div_mod((p * b) as int, q as int);
    vstd::arithmetic::div_mod::lemma_mod_bound((p * b) as int, q as int);
    vstd::arithmetic::div_mod::lemma_fundamental_div_mod((a0 * i) as int, w as int);
    vstd::arithmetic::div_mod::lemma_mod_bound((a0 * i) as int, w as int);
    let m1 = (l * q * w) % b;
    let m2 = x % p;
    let m3 = (p * b) % q;
    let m4 = (a0 * i) % w;
    assert(a0 * p * b <= l * q * w) by (nonlinear_arith)
        requires
            l * q * w == b * x + m1,
            x == p * a0 + m2,
            m1 >= 0,
            m2 >= 0,
            b > 0,
    ;
    assert(a0 * i * q <= a0 * p * b) by (nonlinear_arith)
        requires
            p * b == q * i + m3,
            m3 >= 0,
    ;
    assert(a0 * i <= l * w) by (nonlinear_arith)
        requires
            a0 * i * q <= l * q * w,
            q > 0,
    ;
    assert(back <= l) by (nonlinear_arith)
        requires
            a0 * i == w * back + m4,
            m4 >= 0,
            a0 * i <= l * w,
            w > 0,
    ;
}

} // verus!

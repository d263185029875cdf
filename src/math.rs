//! Alignment of ticks to a pool's tick spacing.
use vstd::prelude::*;

verus! {

/// The remainder of `a / m` with the division truncated toward zero, so that
/// it has the sign of `a` (Rust's `%` on signed integers).
pub open spec fn trunc_rem(a: int, m: int) -> int {
    let n = if m < 0 {
        -m
    } else {
        m
    };
    if a >= 0 {
        a % n
    } else {
        -((-a) % n)
    }
}

/// `tick` moved toward zero onto a multiple of `spacing`: `tick - tick % spacing`
/// with a truncating remainder. For a non-negative tick this is the multiple
/// at or below it; for a negative tick, the multiple at or above it.
pub open spec fn aligned_tick(tick: int, spacing: int) -> int {
    tick - trunc_rem(tick, spacing)
}

/// Aligns `tick` to the pool's tick spacing: `tick - tick % spacing`.
pub fn align_to_pool_tick_spacing(tick: i32, spacing: i32) -> (r: i32)
    requires
        spacing != 0,
    ensures
        r == aligned_tick(tick as int, spacing as int),
        trunc_rem(r as int, spacing as int) == 0,
        spacing > 0 && tick >= 0 ==> r <= tick < r + spacing,
        spacing > 0 && tick < 0 ==> r - spacing < tick <= r,
{
    let t = tick as i64;
    let s: i64 = if spacing < 0 {
        -(spacing as i64)
    } else {
        spacing as i64
    };
    let rem: i64 = if t >= 0 {
        t % s
    } else {
        -((-t) % s)
    };
    proof {
        let a: int = if t >= 0 {
            t as int
        } else {
            -(t as int)
        };
        let si = s as int;
        let q = a / si;
        vstd::arithmetic::div_mod::lemma_fundamental_div_mod(a, si);
        vstd::arithmetic::div_mod::lemma_mod_multiples_basic(q, si);
        vstd::arithmetic::div_mod::lemma_mod_bound(a, si);
        assert(q * si == si * q) by (nonlinear_arith);
    }
    (t - rem) as i32
}

} // verus!

//! Conversion from a tick to its square-root price in Q64.96 fixed point.
//!
//! The ratio `sqrt(1.0001^-|tick|)` is built as a Q128.128 number from one
//! precomputed factor per bit of `|tick|`, each product rounded down; for a
//! positive tick it is inverted, and the result is shifted to 96 fractional
//! bits, rounding up. The result matches the on-chain computation bit for bit.
use vstd::prelude::*;
use crate::uint::{U256, two_128, two_256, limbs_value, mul_div, div_rem, checked_add};
use crate::MathError;

verus! {

/// The smallest tick whose price can be represented.
pub const MIN_TICK: i32 = -887272;

/// The largest tick whose price can be represented.
pub const MAX_TICK: i32 = 887272;

/// `sqrt(1.0001^-(2^i))` in Q128.128, rounded, for each bit `i` of a tick.
pub open spec fn tick_factor(i: int) -> nat {
    if i == 0 {
        0xfffcb933bd6fad37aa2d162d1a594001
    } else if i == 1 {
        0xfff97272373d413259a46990580e213a
    } else if i == 2 {
        0xfff2e50f5f656932ef12357cf3c7fdcc
    } else if i == 3 {
        0xffe5caca7e10e4e61c3624eaa0941cd0
    } else if i == 4 {
        0xffcb9843d60f6159c9db58835c926644
    } else if i == 5 {
        0xff973b41fa98c081472e6896dfb254c0
    } else if i == 6 {
        0xff2ea16466c96a3843ec78b326b52861
    } else if i == 7 {
        0xfe5dee046a99a2a811c461f1969c3053
    } else if i == 8 {
        0xfcbe86c7900a88aedcffc83b479aa3a4
    } else if i == 9 {
        0xf987a7253ac413176f2b074cf7815e54
    } else if i == 10 {
        0xf3392b0822b70005940c7a398e4b70f3
    } else if i == 11 {
        0xe7159475a2c29b7443b29c7fa6e889d9
    } else if i == 12 {
        0xd097f3bdfd2022b8845ad8f792aa5825
    } else if i == 13 {
        0xa9f746462d870fdf8a65dc1f90e061e5
    } else if i == 14 {
        0x70d869a156d2a1b890bb3df62baf32f7
    } else if i == 15 {
        0x31be135f97d08fd981231505542fcfa6
    } else if i == 16 {
        0x9aa508b5b7a84e1c677de54f3e99bc9
    } else if i == 17 {
        0x5d6af8dedb81196699c329225ee604
    } else if i == 18 {
        0x2216e584f5fa1ea926041bedfe98
    } else if i == 19 {
        0x48a170391f7dc42444e8fa2
    } else {
        0
    }
}

fn tick_factor_exec(i: usize) -> (r: u128)
    requires
        i < 20,
    ensures
        r == tick_factor(i as int),
{
    if i == 0 {
        0xfffcb933bd6fad37aa2d162d1a594001
    } else if i == 1 {
        0xfff97272373d413259a46990580e213a
    } else if i == 2 {
        0xfff2e50f5f656932ef12357cf3c7fdcc
    } else if i == 3 {
        0xffe5caca7e10e4e61c3624eaa0941cd0
    } else if i == 4 {
        0xffcb9843d60f6159c9db58835c926644
    } else if i == 5 {
        0xff973b41fa98c081472e6896dfb254c0
    } else if i == 6 {
        0xff2ea16466c96a3843ec78b326b52861
    } else if i == 7 {
        0xfe5dee046a99a2a811c461f1969c3053
    } else if i == 8 {
        0xfcbe86c7900a88aedcffc83b479aa3a4
    } else if i == 9 {
        0xf987a7253ac413176f2b074cf7815e54
    } else if i == 10 {
        0xf3392b0822b70005940c7a398e4b70f3
    } else if i == 11 {
        0xe7159475a2c29b7443b29c7fa6e889d9
    } else if i == 12 {
        0xd097f3bdfd2022b8845ad8f792aa5825
    } else if i == 13 {
        0xa9f746462d870fdf8a65dc1f90e061e5
    } else if i == 14 {
        0x70d869a156d2a1b890bb3df62baf32f7
    } else if i == 15 {
        0x31be135f97d08fd981231505542fcfa6
    } else if i == 16 {
        0x9aa508b5b7a84e1c677de54f3e99bc9
    } else if i == 17 {
        0x5d6af8dedb81196699c329225ee604
    } else if i == 18 {
        0x2216e584f5fa1ea926041bedfe98
    } else {
        0x48a170391f7dc42444e8fa2
    }
}

/// The ratio after bit `i` has been folded in, if it is set.
pub open spec fn apply_bit(r: nat, set: bool, i: int) -> nat {
    if set {
        r * tick_factor(i) / two_128()
    } else {
        r
    }
}

/// Folds bits `i..20` of a tick (the lowest of them in `rest % 2`) into `r`.
pub open spec fn fold_bits(r: nat, rest: nat, i: int) -> nat
    decreases 20 - i,
{
    if i >= 20 {
        r
    } else {
        fold_bits(apply_bit(r, rest % 2 == 1, i), rest / 2, i + 1)
    }
}

/// `sqrt(1.0001^-abs_tick)` in Q128.128, as the fixed-point algorithm computes it.
pub open spec fn tick_ratio(abs_tick: nat) -> nat {
    let start = if abs_tick % 2 == 1 {
        tick_factor(0)
    } else {
        two_128()
    };
    fold_bits(start, abs_tick / 2, 1)
}

pub open spec fn abs_int(x: int) -> nat {
    if x < 0 {
        (-x) as nat
    } else {
        x as nat
    }
}

/// The square-root price of `tick` in Q64.96 fixed point.
pub open spec fn sqrt_ratio_at_tick(tick: int) -> nat {
    let r = tick_ratio(abs_int(tick));
    let q = if tick > 0 {
        ((two_256() - 1) as nat) / r
    } else {
        r
    };
    shift_up(q)
}

pub open spec fn tick_in_range(tick: int) -> bool {
    MIN_TICK <= tick <= MAX_TICK
}

/// Folds every bit `i..20` into `r`: the smallest result any tick can give.
pub open spec fn fold_all(r: nat, i: int) -> nat
    decreases 20 - i,
{
    if i >= 20 {
        r
    } else {
        fold_all(r * tick_factor(i) / two_128(), i + 1)
    }
}

proof fn lemma_factor_bound(i: int)
    requires
        0 <= i < 20,
    ensures
        0 < tick_factor(i) < two_128(),
{
}

proof fn lemma_scale(r1: nat, r2: nat, i: int)
    requires
        0 <= i < 20,
        r1 <= r2,
    ensures
        r1 * tick_factor(i) / two_128() <= r2 * tick_factor(i) / two_128(),
        r2 * tick_factor(i) / two_128() <= r2,
{
    lemma_factor_bound(i);
    let f = tick_factor(i);
    let t = two_128();
    assert(r1 * f <= r2 * f) by (nonlinear_arith)
        requires
            r1 <= r2,
    ;
    assert(r2 * f <= r2 * t) by (nonlinear_arith)
        requires
            f < t,
    ;
    vstd::arithmetic::div_mod::lemma_div_is_ordered((r1 * f) as int, (r2 * f) as int, t as int);
    vstd::arithmetic::div_mod::lemma_div_is_ordered((r2 * f) as int, (r2 * t) as int, t as int);
    vstd::arithmetic::div_mod::lemma_div_multiples_vanish(r2 as int, t as int);
    assert(r2 * t == t * r2) by (nonlinear_arith);
}

proof fn lemma_fold_all_monotone(r1: nat, r2: nat, i: int)
    requires
        1 <= i <= 20,
        r1 <= r2,
    ensures
        fold_all(r1, i) <= fold_all(r2, i),
    decreases 20 - i,
{
    if i < 20 {
        lemma_scale(r1, r2, i);
        lemma_fold_all_monotone(r1 * tick_factor(i) / two_128(), r2 * tick_factor(i) / two_128(), i + 1);
    }
}

proof fn lemma_fold_at_least_all(r: nat, rest: nat, i: int)
    requires
        1 <= i <= 20,
    ensures
        fold_bits(r, rest, i) >= fold_all(r, i),
    decreases 20 - i,
{
    if i < 20 {
        let a = apply_bit(r, rest % 2 == 1, i);
        let low = r * tick_factor(i) / two_128();
        lemma_scale(r, r, i);
        lemma_fold_at_least_all(a, rest / 2, i + 1);
        lemma_fold_all_monotone(low, a, i + 1);
    }
}

proof fn lemma_fold_bits_bound(r: nat, rest: nat, i: int)
    requires
        1 <= i <= 20,
    ensures
        fold_bits(r, rest, i) <= r,
    decreases 20 - i,
{
    if i < 20 {
        lemma_scale(r, r, i);
        lemma_fold_bits_bound(apply_bit(r, rest % 2 == 1, i), rest / 2, i + 1);
    }
}

proof fn lemma_fold_all_positive()
    ensures
        fold_all(tick_factor(0), 1) == 5800441176149320,
{
    assert(340265354078544963557816517032075149313 * tick_factor(1) / two_128() == 340231330945450418515964920540021147198nat) by (nonlinear_arith);
    assert(340231330945450418515964920540021147198 * tick_factor(2) / two_128() == 340163294884840501567246455576441303173nat) by (nonlinear_arith);
    assert(340163294884840501567246455576441303173 * tick_factor(3) / two_128() == 340027263576413978334042125129128142263nat) by (nonlinear_arith);
    assert(340027263576413978334042125129128142263 * tick_factor(4) / two_128() == 339755364134575681238502878529008278326nat) by (nonlinear_arith);
    assert(339755364134575681238502878529008278326 * tick_factor(5) / two_128() == 339212217342146842559531600927033253847nat) by (nonlinear_arith);
    assert(339212217342146842559531600927033253847 * tick_factor(6) / two_128() == 338128527259088467778511436198880488164nat) by (nonlinear_arith);
    assert(338128527259088467778511436198880488164 * tick_factor(7) / two_128() == 335971522311117552149334092109581418674nat) by (nonlinear_arith);
    assert(335971522311117552149334092109581418674 * tick_factor(8) / two_128() == 331698704829854243503582989311158516586nat) by (nonlinear_arith);
    assert(331698704829854243503582989311158516586 * tick_factor(9) / two_128() == 323315401242583425022802937239550140918nat) by (nonlinear_arith);
    assert(323315401242583425022802937239550140918 * tick_factor(10) / two_128() == 307179074178916392659402722612948179612nat) by (nonlinear_arith);
    assert(307179074178916392659402722612948179612 * tick_factor(11) / two_128() == 277282266700509388632609933215391170106nat) by (nonlinear_arith);
    assert(277282266700509388632609933215391170106 * tick_factor(12) / two_128() == 225934749830749445986089663015556949343nat) by (nonlinear_arith);
    assert(225934749830749445986089663015556949343 * tick_factor(13) / two_128() == 150004713758184102711002566140788444796nat) by (nonlinear_arith);
    assert(150004713758184102711002566140788444796 * tick_factor(14) / two_128() == 66122407008436832627027740713496573148nat) by (nonlinear_arith);
    assert(66122407008436832627027740713496573148 * tick_factor(15) / two_128() == 12848018414553970828728179856918040433nat) by (nonlinear_arith);
    assert(12848018414553970828728179856918040433 * tick_factor(16) / two_128() == 485077512873820763967752669154895175nat) by (nonlinear_arith);
    assert(485077512873820763967752669154895175 * tick_factor(17) / two_128() == 691450548841240133896843047535567nat) by (nonlinear_arith);
    assert(691450548841240133896843047535567 * tick_factor(18) / two_128() == 1404950724947776134837143967nat) by (nonlinear_arith);
    assert(1404950724947776134837143967 * tick_factor(19) / two_128() == 5800441176149320nat) by (nonlinear_arith);
    assert(fold_all(340265354078544963557816517032075149313nat, 1) == fold_all(340231330945450418515964920540021147198nat, 2));
    assert(fold_all(340231330945450418515964920540021147198nat, 2) == fold_all(340163294884840501567246455576441303173nat, 3));
    assert(fold_all(340163294884840501567246455576441303173nat, 3) == fold_all(340027263576413978334042125129128142263nat, 4));
    assert(fold_all(340027263576413978334042125129128142263nat, 4) == fold_all(339755364134575681238502878529008278326nat, 5));
    assert(fold_all(339755364134575681238502878529008278326nat, 5) == fold_all(339212217342146842559531600927033253847nat, 6));
    assert(fold_all(339212217342146842559531600927033253847nat, 6) == fold_all(338128527259088467778511436198880488164nat, 7));
    assert(fold_all(338128527259088467778511436198880488164nat, 7) == fold_all(335971522311117552149334092109581418674nat, 8));
    assert(fold_all(335971522311117552149334092109581418674nat, 8) == fold_all(331698704829854243503582989311158516586nat, 9));
    assert(fold_all(331698704829854243503582989311158516586nat, 9) == fold_all(323315401242583425022802937239550140918nat, 10));
    assert(fold_all(323315401242583425022802937239550140918nat, 10) == fold_all(307179074178916392659402722612948179612nat, 11));
    assert(fold_all(307179074178916392659402722612948179612nat, 11) == fold_all(277282266700509388632609933215391170106nat, 12));
    assert(fold_all(277282266700509388632609933215391170106nat, 12) == fold_all(225934749830749445986089663015556949343nat, 13));
    assert(fold_all(225934749830749445986089663015556949343nat, 13) == fold_all(150004713758184102711002566140788444796nat, 14));
    assert(fold_all(150004713758184102711002566140788444796nat, 14) == fold_all(66122407008436832627027740713496573148nat, 15));
    assert(fold_all(66122407008436832627027740713496573148nat, 15) == fold_all(12848018414553970828728179856918040433nat, 16));
    assert(fold_all(12848018414553970828728179856918040433nat, 16) == fold_all(485077512873820763967752669154895175nat, 17));
    assert(fold_all(485077512873820763967752669154895175nat, 17) == fold_all(691450548841240133896843047535567nat, 18));
    assert(fold_all(691450548841240133896843047535567nat, 18) == fold_all(1404950724947776134837143967nat, 19));
    assert(fold_all(1404950724947776134837143967nat, 19) == fold_all(5800441176149320nat, 20));
}

/// The ratio once bits `0..i` have all been folded in.
pub open spec fn prefix_all(i: int) -> nat
    decreases i,
{
    if i <= 0 {
        two_128()
    } else {
        prefix_all(i - 1) * tick_factor(i - 1) / two_128()
    }
}

/// `2^(20 - i)`: how many values the bits `i..20` can take.
pub open spec fn span(i: int) -> nat
    decreases 20 - i,
{
    if i >= 20 {
        1
    } else {
        2 * span(i + 1)
    }
}

proof fn lemma_prefix_values()
    ensures
        prefix_all(20) == 5800441176149320nat,
        forall|i: int| 0 <= i < 20 ==> tick_factor(i) <= prefix_all(i) && tick_factor(i) <= (prefix_all(i)
            - tick_factor(i)) * 0x8000,
{
    assert(two_128() * tick_factor(0) / two_128() == 340265354078544963557816517032075149313nat) by (nonlinear_arith);
    assert(340265354078544963557816517032075149313nat * tick_factor(1) / two_128() == 340231330945450418515964920540021147198nat) by (nonlinear_arith);
    assert(340231330945450418515964920540021147198nat * tick_factor(2) / two_128() == 340163294884840501567246455576441303173nat) by (nonlinear_arith);
    assert(340163294884840501567246455576441303173nat * tick_factor(3) / two_128() == 340027263576413978334042125129128142263nat) by (nonlinear_arith);
    assert(340027263576413978334042125129128142263nat * tick_factor(4) / two_128() == 339755364134575681238502878529008278326nat) by (nonlinear_arith);
    assert(339755364134575681238502878529008278326nat * tick_factor(5) / two_128() == 339212217342146842559531600927033253847nat) by (nonlinear_arith);
    assert(339212217342146842559531600927033253847nat * tick_factor(6) / two_128() == 338128527259088467778511436198880488164nat) by (nonlinear_arith);
    assert(338128527259088467778511436198880488164nat * tick_factor(7) / two_128() == 335971522311117552149334092109581418674nat) by (nonlinear_arith);
    assert(335971522311117552149334092109581418674nat * tick_factor(8) / two_128() == 331698704829854243503582989311158516586nat) by (nonlinear_arith);
    assert(331698704829854243503582989311158516586nat * tick_factor(9) / two_128() == 323315401242583425022802937239550140918nat) by (nonlinear_arith);
    assert(323315401242583425022802937239550140918nat * tick_factor(10) / two_128() == 307179074178916392659402722612948179612nat) by (nonlinear_arith);
    assert(307179074178916392659402722612948179612nat * tick_factor(11) / two_128() == 277282266700509388632609933215391170106nat) by (nonlinear_arith);
    assert(277282266700509388632609933215391170106nat * tick_factor(12) / two_128() == 225934749830749445986089663015556949343nat) by (nonlinear_arith);
    assert(225934749830749445986089663015556949343nat * tick_factor(13) / two_128() == 150004713758184102711002566140788444796nat) by (nonlinear_arith);
    assert(150004713758184102711002566140788444796nat * tick_factor(14) / two_128() == 66122407008436832627027740713496573148nat) by (nonlinear_arith);
    assert(66122407008436832627027740713496573148nat * tick_factor(15) / two_128() == 12848018414553970828728179856918040433nat) by (nonlinear_arith);
    assert(12848018414553970828728179856918040433nat * tick_factor(16) / two_128() == 485077512873820763967752669154895175nat) by (nonlinear_arith);
    assert(485077512873820763967752669154895175nat * tick_factor(17) / two_128() == 691450548841240133896843047535567nat) by (nonlinear_arith);
    assert(691450548841240133896843047535567nat * tick_factor(18) / two_128() == 1404950724947776134837143967nat) by (nonlinear_arith);
    assert(1404950724947776134837143967nat * tick_factor(19) / two_128() == 5800441176149320nat) by (nonlinear_arith);
    assert(prefix_all(0) == two_128());
    assert(prefix_all(1) == 340265354078544963557816517032075149313nat);
    assert(prefix_all(2) == 340231330945450418515964920540021147198nat);
    assert(prefix_all(3) == 340163294884840501567246455576441303173nat);
    assert(prefix_all(4) == 340027263576413978334042125129128142263nat);
    assert(prefix_all(5) == 339755364134575681238502878529008278326nat);
    assert(prefix_all(6) == 339212217342146842559531600927033253847nat);
    assert(prefix_all(7) == 338128527259088467778511436198880488164nat);
    assert(prefix_all(8) == 335971522311117552149334092109581418674nat);
    assert(prefix_all(9) == 331698704829854243503582989311158516586nat);
    assert(prefix_all(10) == 323315401242583425022802937239550140918nat);
    assert(prefix_all(11) == 307179074178916392659402722612948179612nat);
    assert(prefix_all(12) == 277282266700509388632609933215391170106nat);
    assert(prefix_all(13) == 225934749830749445986089663015556949343nat);
    assert(prefix_all(14) == 150004713758184102711002566140788444796nat);
    assert(prefix_all(15) == 66122407008436832627027740713496573148nat);
    assert(prefix_all(16) == 12848018414553970828728179856918040433nat);
    assert(prefix_all(17) == 485077512873820763967752669154895175nat);
    assert(prefix_all(18) == 691450548841240133896843047535567nat);
    assert(prefix_all(19) == 1404950724947776134837143967nat);
    assert(prefix_all(20) == 5800441176149320nat);
    assert forall|i: int| 0 <= i < 20 implies tick_factor(i) <= prefix_all(i) && tick_factor(i) <= (prefix_all(i)
        - tick_factor(i)) * 0x8000 by {
        if i == 0 {
            assert(prefix_all(i) == prefix_all(0));
        } else if i == 1 {
            assert(prefix_all(i) == prefix_all(1));
        } else if i == 2 {
            assert(prefix_all(i) == prefix_all(2));
        } else if i == 3 {
            assert(prefix_all(i) == prefix_all(3));
        } else if i == 4 {
            assert(prefix_all(i) == prefix_all(4));
        } else if i == 5 {
            assert(prefix_all(i) == prefix_all(5));
        } else if i == 6 {
            assert(prefix_all(i) == prefix_all(6));
        } else if i == 7 {
            assert(prefix_all(i) == prefix_all(7));
        } else if i == 8 {
            assert(prefix_all(i) == prefix_all(8));
        } else if i == 9 {
            assert(prefix_all(i) == prefix_all(9));
        } else if i == 10 {
            assert(prefix_all(i) == prefix_all(10));
        } else if i == 11 {
            assert(prefix_all(i) == prefix_all(11));
        } else if i == 12 {
            assert(prefix_all(i) == prefix_all(12));
        } else if i == 13 {
            assert(prefix_all(i) == prefix_all(13));
        } else if i == 14 {
            assert(prefix_all(i) == prefix_all(14));
        } else if i == 15 {
            assert(prefix_all(i) == prefix_all(15));
        } else if i == 16 {
            assert(prefix_all(i) == prefix_all(16));
        } else if i == 17 {
            assert(prefix_all(i) == prefix_all(17));
        } else if i == 18 {
            assert(prefix_all(i) == prefix_all(18));
        } else if i == 19 {
            assert(prefix_all(i) == prefix_all(19));
        }
    }
}

/// One folded bit keeps a relative gap between two ratios, up to one unit of
/// rounding: with `S = 2^15`, `r2 <= (r1 - r2) * S + e * S` becomes the same
/// relation with `e + 1`.
proof fn lemma_margin_step(r1: nat, r2: nat, i: int, e: nat)
    requires
        0 <= i < 20,
        r2 <= r1,
        r2 <= (r1 - r2) * 0x8000 + e * 0x8000,
    ensures
        r2 * tick_factor(i) / two_128() <= r1 * tick_factor(i) / two_128(),
        r2 * tick_factor(i) / two_128() <= (r1 * tick_factor(i) / two_128() - r2 * tick_factor(i)
            / two_128()) * 0x8000 + (e + 1) * 0x8000,
{
    lemma_factor_bound(i);
    lemma_scale(r2, r1, i);
    let c = tick_factor(i);
    let k = two_128();
    let a = r1 * c;
    let b = r2 * c;
    let q1 = a / k;
    let q2 = b / k;
    vstd::arithmetic::div_mod::lemma_fundamental_div_mod(a as int, k as int);
    vstd::arithmetic::div_mod::lemma_mod_bound(a as int, k as int);
    vstd::arithmetic::div_mod::lemma_fundamental_div_mod(b as int, k as int);
    vstd::arithmetic::div_mod::lemma_mod_bound(b as int, k as int);
    let m1 = a % k;
    let m2 = b % k;
    assert(b <= (a - b) * 0x8000 + e * 0x8000 * c) by (nonlinear_arith)
        requires
            r2 <= (r1 - r2) * 0x8000 + e * 0x8000,
            a == r1 * c,
            b == r2 * c,
            c >= 0,
    ;
    assert(k * q2 < (k * (q1 - q2) + k) * 0x8000 + e * 0x8000 * k + 1) by (nonlinear_arith)
        requires
            b <= (a - b) * 0x8000 + e * 0x8000 * c,
            a == k * q1 + m1,
            b == k * q2 + m2,
            0 <= m1 < k,
            0 <= m2,
            c < k,
            e >= 0,
    ;
    assert(q2 <= (q1 - q2) * 0x8000 + (e + 1) * 0x8000) by (nonlinear_arith)
        requires
            k * q2 < (k * (q1 - q2) + k) * 0x8000 + e * 0x8000 * k + 1,
            k > 1,
    ;
}

proof fn lemma_fold_margin(r1: nat, r2: nat, rest: nat, i: int, e: nat)
    requires
        0 <= i <= 20,
        r2 <= r1,
        r2 <= (r1 - r2) * 0x8000 + e * 0x8000,
    ensures
        fold_bits(r2, rest, i) <= fold_bits(r1, rest, i),
        fold_bits(r2, rest, i) <= (fold_bits(r1, rest, i) - fold_bits(r2, rest, i)) * 0x8000 + (e + 20
            - i) * 0x8000,
    decreases 20 - i,
{
    if i < 20 {
        let set = rest % 2 == 1;
        if set {
            lemma_margin_step(r1, r2, i, e);
        }
        lemma_fold_margin(apply_bit(r1, set, i), apply_bit(r2, set, i), rest / 2, i + 1, e + 1);
    }
}

/// Bits `i..20` of a tick `n` read `m` and those of `n + 1` read `m + 1`: the
/// lower bits of `n` are all one and those of `n + 1` all zero, so their
/// ratios so far are `prefix_all(i)` and `2^128`.
proof fn lemma_fold_carry(m: nat, i: int)
    requires
        0 <= i <= 20,
        m + 1 < span(i),
    ensures
        fold_bits(two_128(), m + 1, i) <= fold_bits(prefix_all(i), m, i),
        fold_bits(two_128(), m + 1, i) <= (fold_bits(prefix_all(i), m, i) - fold_bits(two_128(), m + 1, i))
            * 0x8000 + 20 * 0x8000,
    decreases 20 - i,
{
    lemma_prefix_values();
    if i < 20 {
        lemma_factor_bound(i);
        if m % 2 == 1 {
            assert(prefix_all(i + 1) == prefix_all(i) * tick_factor(i) / two_128());
            assert((m + 1) / 2 == m / 2 + 1);
            lemma_fold_carry(m / 2, i + 1);
        } else {
            let c = tick_factor(i);
            assert(two_128() * c / two_128() == c) by (nonlinear_arith)
                requires
                    two_128() > 0,
            ;
            assert((m + 1) / 2 == m / 2);
            lemma_fold_margin(prefix_all(i), c, m / 2, i + 1, 0);
        }
    }
}

proof fn lemma_tick_ratio_as_fold(n: nat)
    ensures
        tick_ratio(n) == fold_bits(two_128(), n, 0),
{
    let c = tick_factor(0);
    assert(two_128() * c / two_128() == c) by (nonlinear_arith)
        requires
            two_128() > 0,
    ;
}

/// Consecutive magnitudes give ratios at least `2^33` apart.
proof fn lemma_ratio_step(n: nat)
    requires
        n + 1 < span(0),
    ensures
        tick_ratio(n + 1) + 0x2_0000_0000 <= tick_ratio(n),
{
    lemma_tick_ratio_as_fold(n);
    lemma_tick_ratio_as_fold(n + 1);
    assert(prefix_all(0) == two_128());
    lemma_fold_carry(n, 0);
    lemma_tick_ratio_bounds(n + 1);
    let r1 = tick_ratio(n);
    let r2 = tick_ratio(n + 1);
    assert(r2 + 0x2_0000_0000 <= r1) by (nonlinear_arith)
        requires
            r2 <= r1,
            r2 <= (r1 - r2) * 0x8000 + 20 * 0x8000,
            r2 >= 5800441176149320,
    ;
}

/// `q / 2^32`, rounded up: the last step of the square-root price.
pub open spec fn shift_up(q: nat) -> nat {
    q / 0x1_0000_0000 + if q % 0x1_0000_0000 == 0 {
        0nat
    } else {
        1nat
    }
}

proof fn lemma_shift_up_strict(a: nat, b: nat)
    requires
        b + 0x1_0000_0000 <= a,
    ensures
        shift_up(b) < shift_up(a),
{
    let d: int = 0x1_0000_0000;
    vstd::arithmetic::div_mod::lemma_fundamental_div_mod(a as int, d);
    vstd::arithmetic::div_mod::lemma_fundamental_div_mod(b as int, d);
    vstd::arithmetic::div_mod::lemma_mod_bound(a as int, d);
    vstd::arithmetic::div_mod::lemma_mod_bound(b as int, d);
}

proof fn lemma_fold_zero(r: nat, i: int)
    requires
        1 <= i <= 20,
    ensures
        fold_bits(r, 0, i) == r,
    decreases 20 - i,
{
    if i < 20 {
        lemma_fold_zero(r, i + 1);
    }
}

proof fn lemma_span_zero()
    ensures
        span(0) == 0x10_0000,
{
    reveal_with_fuel(span, 21);
}

/// Consecutive ticks have increasing square-root prices.
proof fn lemma_sqrt_step(t: int)
    requires
        MIN_TICK <= t < MAX_TICK,
    ensures
        sqrt_ratio_at_tick(t) < sqrt_ratio_at_tick(t + 1),
{
    lemma_span_zero();
    assert(two_256() == two_128() * two_128() && two_128() * two_128() >= 1) by (nonlinear_arith);
    let m: int = two_256() - 1;
    if t <= -1 {
        let n = (-t) as nat;
        assert(abs_int(t + 1) == n - 1);
        lemma_ratio_step((n - 1) as nat);
        lemma_shift_up_strict(tick_ratio((n - 1) as nat), tick_ratio(n));
    } else if t == 0 {
        let c = tick_factor(0);
        lemma_fold_zero(two_128(), 1);
        lemma_fold_zero(c, 1);
        assert(tick_ratio(0) == two_128());
        assert(tick_ratio(1) == c);
        assert(two_128() / 0x1_0000_0000 == 0x1_0000_0000_0000_0000_0000_0000 && two_128() % 0x1_0000_0000
            == 0) by (nonlinear_arith);
        let x: int = (0x1_0000_0000_0000_0000_0000_0000 * 0x1_0000_0000 + 0x1_0000_0000) as int;
        assert(x * c <= m) by (nonlinear_arith)
            requires
                m == 0x1_0000_0000_0000_0000 * 0x1_0000_0000_0000_0000 * (0x1_0000_0000_0000_0000
                    * 0x1_0000_0000_0000_0000) - 1,
                c == 0xfffcb933bd6fad37aa2d162d1a594001int,
                x == 0x1_0000_0000_0000_0000_0000_0000 * 0x1_0000_0000 + 0x1_0000_0000,
        ;
        vstd::arithmetic::div_mod::lemma_div_is_ordered(x * c, m, c as int);
        vstd::arithmetic::div_mod::lemma_div_multiples_vanish(x, c as int);
        assert(x * c == c * x) by (nonlinear_arith);
        let q = m / (c as int);
        assert(q / 0x1_0000_0000 >= 0x1_0000_0000_0000_0000_0000_0001) by (nonlinear_arith)
            requires
                q >= x,
                x == 0x1_0000_0000_0000_0000_0000_0000 * 0x1_0000_0000 + 0x1_0000_0000,
        ;
    } else {
        let n = t as nat;
        lemma_ratio_step(n);
        lemma_tick_ratio_bounds(n);
        lemma_tick_ratio_bounds(n + 1);
        let r1 = tick_ratio(n);
        let r2 = tick_ratio(n + 1);
        let q1 = m / (r1 as int);
        let q2 = m / (r2 as int);
        vstd::arithmetic::div_mod::lemma_div_is_ordered_by_denominator(m, r1 as int, two_128() as int);
        assert(m / (two_128() as int) == two_128() - 1) by (nonlinear_arith)
            requires
                m == two_128() * two_128() - 1,
                two_128() > 1,
        ;
        vstd::arithmetic::div_mod::lemma_fundamental_div_mod(m, r1 as int);
        vstd::arithmetic::div_mod::lemma_mod_bound(m, r1 as int);
        let y = q1 + 0x1_0000_0000;
        assert(y * r2 <= m) by (nonlinear_arith)
            requires
                m == r1 * q1 + m % (r1 as int),
                m % (r1 as int) >= 0,
                r2 + 0x2_0000_0000 <= r1,
                q1 >= two_128() - 1,
                r2 <= two_128(),
                two_128() > 0x1_0000_0000,
                y == q1 + 0x1_0000_0000,
        ;
        vstd::arithmetic::div_mod::lemma_div_is_ordered(y * r2, m, r2 as int);
        vstd::arithmetic::div_mod::lemma_div_multiples_vanish(y, r2 as int);
        assert(y * r2 == r2 * y) by (nonlinear_arith);
        lemma_shift_up_strict(q2 as nat, q1 as nat);
    }
}

/// Square-root prices increase strictly with the tick.
pub proof fn lemma_sqrt_ratio_increasing(t1: int, t2: int)
    requires
        MIN_TICK <= t1 < t2 <= MAX_TICK,
    ensures
        sqrt_ratio_at_tick(t1) < sqrt_ratio_at_tick(t2),
    decreases t2 - t1,
{
    lemma_sqrt_step(t2 - 1);
    if t1 < t2 - 1 {
        lemma_sqrt_ratio_increasing(t1, t2 - 1);
    }
}

/// What `get_tick_at_sqrt_ratio` finds for `sqrt_price`: a tick in range whose
/// price is not above it, the next tick's being above it.
pub open spec fn is_tick_at(sqrt_price: nat, t: int) -> bool {
    &&& tick_in_range(t)
    &&& sqrt_ratio_at_tick(t) <= sqrt_price
    &&& (t == MAX_TICK || sqrt_price < sqrt_ratio_at_tick(t + 1))
}

/// Round trip: the tick found for the square-root price of a tick in range is
/// that tick.
pub proof fn lemma_tick_round_trip(tick: int, found: int)
    requires
        tick_in_range(tick),
        is_tick_at(sqrt_ratio_at_tick(tick), found),
    ensures
        found == tick,
{
    if found < tick {
        if found + 1 < tick {
            lemma_sqrt_ratio_increasing(found + 1, tick);
        }
    } else if found > tick {
        lemma_sqrt_ratio_increasing(tick, found);
    }
}

/// The ratio of every magnitude lies between that of `2^20 - 1` (every bit set) and `2^128`.
pub proof fn lemma_tick_ratio_bounds(abs_tick: nat)
    ensures
        5800441176149320 <= tick_ratio(abs_tick) <= two_128(),
{
    let start = if abs_tick % 2 == 1 {
        tick_factor(0)
    } else {
        two_128()
    };
    lemma_fold_at_least_all(start, abs_tick / 2, 1);
    lemma_fold_bits_bound(start, abs_tick / 2, 1);
    lemma_fold_all_monotone(tick_factor(0), start, 1);
    lemma_fold_all_positive();
}

fn u256_two_128() -> (r: U256)
    ensures
        r.val() == two_128(),
{
    U256::from_limbs([0, 0, 1, 0])
}

/// The square-root price of `tick` as a Q64.96 number, bit-identical to the
/// on-chain tick math (intermediate products rounded down, the final shift
/// rounded up).
pub fn get_sqrt_ratio_at_tick(tick: i32) -> (r: Result<U256, MathError>)
    ensures
        r is Ok <==> tick_in_range(tick as int),
        r matches Ok(v) ==> v.val() == sqrt_ratio_at_tick(tick as int),
        r matches Err(e) ==> e == MathError::TickOutOfRange,
{
    if tick < MIN_TICK || tick > MAX_TICK {
        return Err(MathError::TickOutOfRange);
    }
    let abs_tick: u32 = if tick < 0 {
        (-tick) as u32
    } else {
        tick as u32
    };
    let mut ratio = if abs_tick % 2 == 1 {
        U256::from_u128(tick_factor_exec(0))
    } else {
        u256_two_128()
    };
    let shift = u256_two_128();
    let mut rest: u32 = abs_tick / 2;
    let mut i: usize = 1;
    proof {
        lemma_fold_bits_bound(ratio.val(), rest as nat, 1);
        lemma_factor_bound(0);
    }
    while i < 20
        invariant
            1 <= i <= 20,
            shift.val() == two_128(),
            fold_bits(ratio.val(), rest as nat, i as int) == tick_ratio(abs_tick as nat),
            ratio.val() <= two_128(),
        decreases 20 - i,
    {
        if rest % 2 == 1 {
            proof {
                lemma_scale(ratio.val(), ratio.val(), i as int);
                ratio.lemma_bound();
            }
            let f = U256::from_u128(tick_factor_exec(i));
            ratio = match mul_div(&ratio, &f, &shift) {
                Some(v) => v,
                None => ratio,
            };
        }
        rest = rest / 2;
        i = i + 1;
    }
    proof {
        lemma_tick_ratio_bounds(abs_tick as nat);
    }
    let q = if tick > 0 {
        let max = U256::from_limbs([u64::MAX, u64::MAX, u64::MAX, u64::MAX]);
        proof {
            assert(max.val() == two_256() - 1) by (nonlinear_arith)
                requires
                    max.val() == limbs_value(u64::MAX, u64::MAX, u64::MAX, u64::MAX),
            ;
        }
        div_rem(&max, &ratio).0
    } else {
        ratio
    };
    let (hi, lo) = div_rem(&q, &U256::from_u128(0x1_0000_0000));
    if lo.is_zero() {
        Ok(hi)
    } else {
        proof {
            q.lemma_bound();
            vstd::arithmetic::div_mod::lemma_div_is_ordered_by_denominator(q.val() as int, 1, 0x1_0000_0000);
        }
        match checked_add(&hi, &U256::from_u128(1)) {
            Some(v) => Ok(v),
            None => Ok(hi),
        }
    }
}

/// The tick whose square-root price is the greatest one not above `sqrt_price`:
/// `sqrt(t) <= sqrt_price`, and `t` is the largest tick or `sqrt_price < sqrt(t + 1)`.
/// Prices below that of the smallest tick have no tick.
pub fn get_tick_at_sqrt_ratio(sqrt_price: &U256) -> (r: Result<i32, MathError>)
    ensures
        r is Ok <==> sqrt_ratio_at_tick(MIN_TICK as int) <= sqrt_price.val(),
        r matches Ok(t) ==> is_tick_at(sqrt_price.val(), t as int),
        forall|t: int| #[trigger] sqrt_ratio_at_tick(t) == sqrt_price.val() && tick_in_range(t) ==> r == Ok::<
            i32,
            MathError,
        >(t as i32),
        r matches Err(e) ==> e == MathError::Arithmetic,
{
    let lowest = match get_sqrt_ratio_at_tick(MIN_TICK) {
        Ok(v) => v,
        Err(e) => return Err(e),
    };
    if sqrt_price.lt(&lowest) {
        proof {
            assert forall|t: int| #[trigger] sqrt_ratio_at_tick(t) == sqrt_price.val() && tick_in_range(t) implies false by {
                if t > MIN_TICK {
                    lemma_sqrt_ratio_increasing(MIN_TICK as int, t);
                }
            }
        }
        return Err(MathError::Arithmetic);
    }
    let mut lo: i32 = MIN_TICK;
    let mut hi: i32 = MAX_TICK + 1;
    while hi - lo > 1
        invariant
            MIN_TICK <= lo < hi <= MAX_TICK + 1,
            sqrt_ratio_at_tick(lo as int) <= sqrt_price.val(),
            hi == MAX_TICK + 1 || sqrt_price.val() < sqrt_ratio_at_tick(hi as int),
        decreases hi - lo,
    {
        let mid: i32 = lo + (hi - lo) / 2;
        match get_sqrt_ratio_at_tick(mid) {
            Ok(s) => {
                if s.le(sqrt_price) {
                    lo = mid;
                } else {
                    hi = mid;
                }
            },
            Err(e) => return Err(e),
        }
    }
    proof {
        assert forall|t: int| #[trigger] sqrt_ratio_at_tick(t) == sqrt_price.val() && tick_in_range(t) implies lo
            == t by {
            lemma_tick_round_trip(t, lo as int);
        }
    }
    Ok(lo)
}

} // verus!

//! Fixed-width unsigned integers of 256 and 512 bits.
//!
//! Values are held as little-endian 64-bit limbs and read through `val()`.
//! The arithmetic itself is done by alloy's `ruint` integers behind a few
//! trusted wrappers; everything built on top of them is verified here.
use vstd::prelude::*;

verus! {

#[verifier::inline]
pub open spec fn two_64() -> nat {
    0x1_0000_0000_0000_0000
}

#[verifier::inline]
pub open spec fn two_128() -> nat {
    0x1_0000_0000_0000_0000 * 0x1_0000_0000_0000_0000
}

pub open spec fn two_256() -> nat {
    two_128() * two_128()
}

pub open spec fn two_512() -> nat {
    two_256() * two_256()
}

/// The number held by four little-endian 64-bit limbs.
pub open spec fn limbs_value(a: u64, b: u64, c: u64, d: u64) -> nat {
    a as nat + (b as nat + (c as nat + d as nat * 0x1_0000_0000_0000_0000) * 0x1_0000_0000_0000_0000)
        * 0x1_0000_0000_0000_0000
}

/// Bounds on a limb representation, and when it is zero or fits in 128 bits.
pub proof fn lemma_limbs(a: u64, b: u64, c: u64, d: u64)
    ensures
        limbs_value(a, b, c, d) < two_256(),
        limbs_value(a, b, c, d) == 0 <==> (a == 0 && b == 0 && c == 0 && d == 0),
        limbs_value(a, b, c, d) < two_128() <==> (c == 0 && d == 0),
        c == 0 && d == 0 ==> limbs_value(a, b, c, d) == a + b * two_64(),
{
    let v = limbs_value(a, b, c, d);
    assert(v < two_256()) by (nonlinear_arith)
        requires
            v == a as nat + (b as nat + (c as nat + d as nat * 0x1_0000_0000_0000_0000) * 0x1_0000_0000_0000_0000)
                * 0x1_0000_0000_0000_0000,
            two_256() == (0x1_0000_0000_0000_0000 * 0x1_0000_0000_0000_0000) * (0x1_0000_0000_0000_0000 * 0x1_0000_0000_0000_0000),
    ;
}

/// An unsigned 256-bit integer.
#[derive(Clone, Copy, Debug, PartialEq, Eq, Structural)]
pub struct U256 {
    pub l0: u64,
    pub l1: u64,
    pub l2: u64,
    pub l3: u64,
}

/// An unsigned 512-bit integer, used for full-width products.
#[derive(Clone, Copy, Debug)]
pub struct U512 {
    pub limbs: [u64; 8],
}

impl U256 {
    pub open spec fn val(&self) -> nat {
        limbs_value(self.l0, self.l1, self.l2, self.l3)
    }

    pub proof fn lemma_bound(&self)
        ensures
            self.val() < two_256(),
    {
        lemma_limbs(self.l0, self.l1, self.l2, self.l3);
    }

    pub fn zero() -> (r: U256)
        ensures
            r.val() == 0,
    {
        U256 { l0: 0, l1: 0, l2: 0, l3: 0 }
    }

    /// Builds a value from its limbs, least significant first.
    pub fn from_limbs(limbs: [u64; 4]) -> (r: U256)
        ensures
            r.val() == limbs_value(limbs[0], limbs[1], limbs[2], limbs[3]),
    {
        U256 { l0: limbs[0], l1: limbs[1], l2: limbs[2], l3: limbs[3] }
    }

    /// The limbs of the value, least significant first.
    pub fn to_limbs(&self) -> (r: [u64; 4])
        ensures
            limbs_value(r[0], r[1], r[2], r[3]) == self.val(),
    {
        [self.l0, self.l1, self.l2, self.l3]
    }

    pub fn from_u128(x: u128) -> (r: U256)
        ensures
            r.val() == x,
    {
        let lo128 = x & 0xffff_ffff_ffff_ffff;
        let hi128 = x >> 64u128;
        assert(x == (x & 0xffff_ffff_ffff_ffff) + (x >> 64u128) * 0x1_0000_0000_0000_0000u128)
            by (bit_vector);
        assert((x >> 64u128) <= 0xffff_ffff_ffff_ffffu128) by (bit_vector);
        assert((x & 0xffff_ffff_ffff_ffff) <= 0xffff_ffff_ffff_ffffu128) by (bit_vector);
        let lo = lo128 as u64;
        let hi = hi128 as u64;
        proof {
            lemma_limbs(lo, hi, 0, 0);
        }
        U256 { l0: lo, l1: hi, l2: 0, l3: 0 }
    }

    /// The value as a `u128`, when it fits.
    pub fn to_u128(&self) -> (r: Option<u128>)
        ensures
            r is Some <==> self.val() < two_128(),
            r matches Some(v) ==> v == self.val(),
    {
        proof {
            lemma_limbs(self.l0, self.l1, self.l2, self.l3);
        }
        if self.l2 == 0 && self.l3 == 0 {
            let lo = self.l0 as u128;
            let hi = self.l1 as u128;
            assert(hi * 0x1_0000_0000_0000_0000u128 + lo <= u128::MAX) by (nonlinear_arith)
                requires
                    hi <= 0xffff_ffff_ffff_ffffu128,
                    lo <= 0xffff_ffff_ffff_ffffu128,
            ;
            Some(hi * 0x1_0000_0000_0000_0000u128 + lo)
        } else {
            None
        }
    }

    /// The same number as a 512-bit value.
    pub fn widen(&self) -> (r: U512)
        ensures
            r.val() == self.val(),
    {
        let r = U512 { limbs: [self.l0, self.l1, self.l2, self.l3, 0, 0, 0, 0] };
        proof {
            r.lemma_parts();
        }
        r
    }

    pub fn lt(&self, other: &U256) -> (r: bool)
        ensures
            r == (self.val() < other.val()),
    {
        lt_wide(&self.widen(), &other.widen())
    }

    pub fn le(&self, other: &U256) -> (r: bool)
        ensures
            r == (self.val() <= other.val()),
    {
        !lt_wide(&other.widen(), &self.widen())
    }

    pub fn is_zero(&self) -> (r: bool)
        ensures
            r == (self.val() == 0),
    {
        proof {
            lemma_limbs(self.l0, self.l1, self.l2, self.l3);
        }
        self.l0 == 0 && self.l1 == 0 && self.l2 == 0 && self.l3 == 0
    }
}

impl U512 {
    pub open spec fn low(&self) -> nat {
        limbs_value(self.limbs[0], self.limbs[1], self.limbs[2], self.limbs[3])
    }

    pub open spec fn high(&self) -> nat {
        limbs_value(self.limbs[4], self.limbs[5], self.limbs[6], self.limbs[7])
    }

    pub open spec fn val(&self) -> nat {
        self.low() + self.high() * two_256()
    }

    /// How the value relates to its two 256-bit halves.
    pub proof fn lemma_parts(&self)
        ensures
            self.low() < two_256(),
            self.high() < two_256(),
            self.val() < two_512(),
            self.high() == 0 ==> self.val() == self.low(),
            self.val() < two_256() <==> self.high() == 0,
    {
        lemma_limbs(self.limbs[0], self.limbs[1], self.limbs[2], self.limbs[3]);
        lemma_limbs(self.limbs[4], self.limbs[5], self.limbs[6], self.limbs[7]);
        let lo = self.low();
        let hi = self.high();
        let t = two_256();
        assert(lo + hi * t < t * t) by (nonlinear_arith)
            requires
                lo < t,
                hi < t,
        ;
        assert(hi == 0 ==> lo + hi * t == lo) by (nonlinear_arith);
        assert(hi > 0 ==> lo + hi * t >= t) by (nonlinear_arith);
    }

    /// The same number as a 256-bit value, when it fits.
    pub fn narrow(&self) -> (r: Option<U256>)
        ensures
            r is Some <==> self.val() < two_256(),
            r matches Some(v) ==> v.val() == self.val(),
    {
        proof {
            self.lemma_parts();
            lemma_limbs(self.limbs[4], self.limbs[5], self.limbs[6], self.limbs[7]);
        }
        let l = &self.limbs;
        if l[4] == 0 && l[5] == 0 && l[6] == 0 && l[7] == 0 {
            Some(U256 { l0: l[0], l1: l[1], l2: l[2], l3: l[3] })
        } else {
            None
        }
    }

    /// The same number as a 256-bit value, for a value known to fit.
    pub fn to_u256(&self) -> (r: U256)
        requires
            self.val() < two_256(),
        ensures
            r.val() == self.val(),
    {
        match self.narrow() {
            Some(v) => v,
            None => U256::zero(),
        }
    }
}

/// `floor(a * b / d)`, when it fits in 256 bits.
pub fn mul_div(a: &U256, b: &U256, d: &U256) -> (r: Option<U256>)
    requires
        d.val() > 0,
    ensures
        r is Some <==> a.val() * b.val() / d.val() < two_256(),
        r matches Some(v) ==> v.val() == a.val() * b.val() / d.val(),
{
    let p = mul_wide(a, b);
    let (q, _m) = div_rem_wide(&p, &d.widen());
    q.narrow()
}

/// `floor(a / d)` and `a % d`.
pub fn div_rem(a: &U256, d: &U256) -> (r: (U256, U256))
    requires
        d.val() > 0,
    ensures
        r.0.val() == a.val() / d.val(),
        r.1.val() == a.val() % d.val(),
{
    proof {
        a.lemma_bound();
        d.lemma_bound();
        vstd::arithmetic::div_mod::lemma_div_is_ordered_by_denominator(a.val() as int, 1, d.val() as int);
        vstd::arithmetic::div_mod::lemma_mod_bound(a.val() as int, d.val() as int);
    }
    let (q, m) = div_rem_wide(&a.widen(), &d.widen());
    (q.to_u256(), m.to_u256())
}

/// `a + b`, when it fits in 256 bits.
pub fn checked_add(a: &U256, b: &U256) -> (r: Option<U256>)
    ensures
        r is Some <==> a.val() + b.val() < two_256(),
        r matches Some(v) ==> v.val() == a.val() + b.val(),
{
    proof {
        a.lemma_bound();
        b.lemma_bound();
        assert(two_256() + two_256() < two_512()) by (nonlinear_arith);
        vstd::arithmetic::div_mod::lemma_small_mod((a.val() + b.val()) as nat, two_512());
    }
    add_wide(&a.widen(), &b.widen()).narrow()
}

/// `a - b`, for `b <= a`.
pub fn difference(a: &U256, b: &U256) -> (r: U256)
    requires
        b.val() <= a.val(),
    ensures
        r.val() == a.val() - b.val(),
{
    proof {
        a.lemma_bound();
        assert(two_256() < two_512()) by (nonlinear_arith);
        vstd::arithmetic::div_mod::lemma_small_mod((a.val() - b.val()) as nat, two_512());
    }
    sub_wide(&a.widen(), &b.widen()).to_u256()
}

/// Relies on ruint's `widening_mul` (alloy's `U256`): the exact 512-bit product.
#[verifier::external_body]
pub(crate) fn mul_wide(a: &U256, b: &U256) -> (r: U512)
    ensures
        r.val() == a.val() * b.val(),
{
    let x = alloy::primitives::U256::from_limbs([a.l0, a.l1, a.l2, a.l3]);
    let y = alloy::primitives::U256::from_limbs([b.l0, b.l1, b.l2, b.l3]);
    let p: alloy::primitives::U512 = x.widening_mul(y);
    U512 { limbs: p.into_limbs() }
}

/// Relies on ruint's `div_rem` on 512-bit values: floor quotient and remainder.
#[verifier::external_body]
pub(crate) fn div_rem_wide(a: &U512, b: &U512) -> (r: (U512, U512))
    requires
        b.val() > 0,
    ensures
        r.0.val() == a.val() / b.val(),
        r.1.val() == a.val() % b.val(),
{
    let x = alloy::primitives::U512::from_limbs(a.limbs);
    let y = alloy::primitives::U512::from_limbs(b.limbs);
    let (q, m) = x.div_rem(y);
    (U512 { limbs: q.into_limbs() }, U512 { limbs: m.into_limbs() })
}

/// Relies on ruint's ordering of 512-bit values, which is numeric.
#[verifier::external_body]
pub(crate) fn lt_wide(a: &U512, b: &U512) -> (r: bool)
    ensures
        r == (a.val() < b.val()),
{
    let x = alloy::primitives::U512::from_limbs(a.limbs);
    let y = alloy::primitives::U512::from_limbs(b.limbs);
    x < y
}

/// Relies on ruint's `wrapping_add` on 512-bit values: the sum modulo 2^512.
#[verifier::external_body]
pub(crate) fn add_wide(a: &U512, b: &U512) -> (r: U512)
    ensures
        r.val() == (a.val() + b.val()) % two_512(),
{
    let x = alloy::primitives::U512::from_limbs(a.limbs);
    let y = alloy::primitives::U512::from_limbs(b.limbs);
    U512 { limbs: x.wrapping_add(y).into_limbs() }
}

/// Relies on ruint's `wrapping_sub` on 512-bit values: the difference modulo 2^512.
#[verifier::external_body]
pub(crate) fn sub_wide(a: &U512, b: &U512) -> (r: U512)
    ensures
        r.val() == (a.val() - b.val()) % (two_512() as int),
{
    let x = alloy::primitives::U512::from_limbs(a.limbs);
    let y = alloy::primitives::U512::from_limbs(b.limbs);
    U512 { limbs: x.wrapping_sub(y).into_limbs() }
}

} // verus!

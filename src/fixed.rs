use vstd::prelude::*;

use crate::fixed_vector::{abs, trunc_div};
use crate::sqrt::{floor_sqrt, isqrt_u128, lemma_floor_sqrt_bounded, Sqrt};

verus! {

/// Number of raw units in one.
pub const SCALE: i64 = 1_000_000;

/// A signed real number held as a whole count of millionths.
///
/// Every operation is total: a result beyond `i64::MAX` in size saturates at
/// that size with its sign, and products and quotients are rounded toward
/// zero. The range is symmetric, so negation commutes with each operation.
#[derive(Clone, Copy, Debug, PartialEq, Eq, Structural)]
pub struct Fixed {
    pub raw: i64,
}

/// `x` held to the range from `-i64::MAX` to `i64::MAX`.
pub open spec fn clamp_i64(x: int) -> i64 {
    if x > i64::MAX {
        i64::MAX
    } else if x < -i64::MAX {
        (-i64::MAX) as i64
    } else {
        x as i64
    }
}

/// The number with `raw` millionths, saturated to the representable range.
pub open spec fn fixed_of(raw: int) -> Fixed {
    Fixed { raw: clamp_i64(raw) }
}

fn clamp_wide(x: i128) -> (r: i64)
    ensures
        r == clamp_i64(x as int),
{
    if x > i64::MAX as i128 {
        i64::MAX
    } else if x < -(i64::MAX as i128) {
        -i64::MAX
    } else {
        x as i64
    }
}

fn div_toward_zero_wide(x: i128, d: i128) -> (r: i128)
    requires
        d != 0,
        x > i128::MIN,
        d > i128::MIN,
    ensures
        r == trunc_div(x as int, d as int),
{
    let ax: i128 = if x >= 0 { x } else { -x };
    let ad: i128 = if d >= 0 { d } else { -d };
    let q: i128 = ax / ad;
    if (x >= 0) == (d >= 0) {
        q
    } else {
        -q
    }
}

impl Fixed {
    /// Whether the value lies in the range that the operations produce.
    pub open spec fn wf(self) -> bool {
        self.raw != i64::MIN
    }

    pub open spec fn spec_add(self, rhs: Fixed) -> Fixed {
        fixed_of(self.raw + rhs.raw)
    }

    pub open spec fn spec_sub(self, rhs: Fixed) -> Fixed {
        fixed_of(self.raw - rhs.raw)
    }

    pub open spec fn spec_neg(self) -> Fixed {
        fixed_of(-self.raw)
    }

    pub open spec fn spec_mul(self, rhs: Fixed) -> Fixed {
        fixed_of(trunc_div(self.raw * rhs.raw, SCALE as int))
    }

    /// Division by zero gives the bound of the dividend's sign, and zero for zero.
    pub open spec fn spec_div(self, rhs: Fixed) -> Fixed {
        if rhs.raw == 0 {
            if self.raw > 0 {
                Fixed { raw: i64::MAX }
            } else if self.raw < 0 {
                Fixed { raw: (-i64::MAX) as i64 }
            } else {
                Fixed { raw: 0 }
            }
        } else {
            fixed_of(trunc_div(self.raw * SCALE, rhs.raw as int))
        }
    }

    pub open spec fn spec_zero() -> Fixed {
        Fixed { raw: 0 }
    }

    pub fn from_raw(raw: i64) -> (r: Fixed)
        ensures
            r.raw == raw,
    {
        Fixed { raw }
    }

    /// The whole number `n`.
    pub fn from_int(n: i32) -> (r: Fixed)
        ensures
            r.raw == n * SCALE,
    {
        Fixed { raw: n as i64 * SCALE }
    }

    pub fn zero() -> (r: Fixed)
        ensures
            r == Fixed::spec_zero(),
    {
        Fixed { raw: 0 }
    }

    pub fn add(self, rhs: Fixed) -> (r: Fixed)
        ensures
            r == self.spec_add(rhs),
    {
        Fixed { raw: clamp_wide(self.raw as i128 + rhs.raw as i128) }
    }

    pub fn sub(self, rhs: Fixed) -> (r: Fixed)
        ensures
            r == self.spec_sub(rhs),
    {
        Fixed { raw: clamp_wide(self.raw as i128 - rhs.raw as i128) }
    }

    pub fn neg(self) -> (r: Fixed)
        ensures
            r == self.spec_neg(),
    {
        Fixed { raw: clamp_wide(-(self.raw as i128)) }
    }

    pub fn mul(self, rhs: Fixed) -> (r: Fixed)
        ensures
            r == self.spec_mul(rhs),
    {
        let a = self.raw as i128;
        let b = rhs.raw as i128;
        assert(-0x4000_0000_0000_0000_0000_0000_0000_0000 <= a * b
            <= 0x4000_0000_0000_0000_0000_0000_0000_0000) by (nonlinear_arith)
            requires
                i64::MIN <= a <= i64::MAX,
                i64::MIN <= b <= i64::MAX,
        ;
        let q = div_toward_zero_wide(a * b, SCALE as i128);
        Fixed { raw: clamp_wide(q) }
    }

    pub fn div(self, rhs: Fixed) -> (r: Fixed)
        ensures
            r == self.spec_div(rhs),
    {
        if rhs.raw == 0 {
            if self.raw > 0 {
                Fixed { raw: i64::MAX }
            } else if self.raw < 0 {
                Fixed { raw: -i64::MAX }
            } else {
                Fixed { raw: 0 }
            }
        } else {
            let q = div_toward_zero_wide(self.raw as i128 * SCALE as i128, rhs.raw as i128);
            Fixed { raw: clamp_wide(q) }
        }
    }

    /// Whether `self` is smaller than `rhs`.
    pub fn lt(self, rhs: Fixed) -> (r: bool)
        ensures
            r == (self.raw < rhs.raw),
    {
        self.raw < rhs.raw
    }
}

/// The root of a positive number is rounded down to a whole millionth; others have root zero.
impl Sqrt for Fixed {
    type Output = Fixed;

    open spec fn sqrt_spec(self) -> Fixed {
        if self.raw <= 0 {
            Fixed { raw: 0 }
        } else {
            Fixed { raw: floor_sqrt((self.raw * SCALE) as nat) as i64 }
        }
    }

    fn sqrt(self) -> (r: Fixed) {
        if self.raw <= 0 {
            Fixed { raw: 0 }
        } else {
            let wide = self.raw as u128 * SCALE as u128;
            assert(wide == self.raw * 1_000_000);
            assert(self.raw * 1_000_000 <= 0x7fff_ffff_ffff_ffff * 1_000_000) by (nonlinear_arith)
                requires
                    0 < self.raw <= 0x7fff_ffff_ffff_ffff,
            ;
            let s = isqrt_u128(wide);
            proof {
                lemma_floor_sqrt_bounded(wide as nat);
                lemma_floor_sqrt_small(wide as nat);
            }
            Fixed { raw: s as i64 }
        }
    }
}

/// Roots of scaled `i64` values stay below 2^42.
proof fn lemma_floor_sqrt_small(x: nat)
    requires
        x <= 0x7fff_ffff_ffff_ffff * 1_000_000,
    ensures
        floor_sqrt(x) < 0x400_0000_0000,
{
    crate::sqrt::lemma_floor_sqrt_holds(x);
    let r = floor_sqrt(x) as int;
    if r >= 0x400_0000_0000 {
        assert(r * r >= 0x400_0000_0000 * 0x400_0000_0000) by (nonlinear_arith)
            requires
                r >= 0x400_0000_0000,
        ;
    }
}

/// Rounding toward zero treats a value and its negation alike.
pub proof fn lemma_trunc_div_neg(x: int, d: int)
    requires
        d != 0,
    ensures
        trunc_div(-x, d) == -trunc_div(x, d),
{
    assert(abs(-x) == abs(x));
    if x == 0 {
        assert(0int / abs(d) == 0);
    }
}

/// Negation of a saturated value is the saturated negation.
pub proof fn lemma_fixed_of_neg(q: int)
    ensures
        fixed_of(-q) == fixed_of(q).spec_neg(),
{
}

/// Swapping the operands of a subtraction negates the difference.
pub proof fn lemma_sub_swap(a: Fixed, b: Fixed)
    ensures
        b.spec_sub(a) == a.spec_sub(b).spec_neg(),
{
    lemma_fixed_of_neg(a.raw - b.raw);
}

/// Negating a factor negates the product.
pub proof fn lemma_neg_mul(a: Fixed, b: Fixed)
    requires
        a.wf(),
    ensures
        a.spec_neg().spec_mul(b) == a.spec_mul(b).spec_neg(),
{
    assert((-a.raw) * b.raw == -(a.raw * b.raw)) by (nonlinear_arith);
    lemma_trunc_div_neg(a.raw * b.raw, SCALE as int);
    lemma_fixed_of_neg(trunc_div(a.raw * b.raw, SCALE as int));
}

/// Negating both factors leaves the product unchanged.
pub proof fn lemma_neg_mul_neg(a: Fixed, b: Fixed)
    requires
        a.wf(),
        b.wf(),
    ensures
        a.spec_neg().spec_mul(b.spec_neg()) == a.spec_mul(b),
{
    assert((-a.raw) * (-b.raw) == a.raw * b.raw) by (nonlinear_arith);
}

/// Negating the dividend negates the quotient.
pub proof fn lemma_neg_div(a: Fixed, b: Fixed)
    requires
        a.wf(),
    ensures
        a.spec_neg().spec_div(b) == a.spec_div(b).spec_neg(),
{
    if b.raw != 0 {
        assert((-a.raw) * SCALE == -(a.raw * SCALE));
        lemma_trunc_div_neg(a.raw * SCALE, b.raw as int);
        lemma_fixed_of_neg(trunc_div(a.raw * SCALE, b.raw as int));
    }
}

/// Zero is absorbing for products and quotients, and neutral for sums.
pub proof fn lemma_zero_rules(a: Fixed)
    ensures
        Fixed::spec_zero().spec_mul(a) == Fixed::spec_zero(),
        a.spec_mul(Fixed::spec_zero()) == Fixed::spec_zero(),
        Fixed::spec_zero().spec_div(a) == Fixed::spec_zero(),
        a.wf() ==> Fixed::spec_zero().spec_add(a) == a,
        a.wf() ==> a.spec_add(Fixed::spec_zero()) == a,
        a.wf() ==> a.spec_neg().spec_neg() == a,
        Fixed::spec_zero().spec_neg() == Fixed::spec_zero(),
{
    assert(0 * a.raw == 0);
    assert(a.raw * 0 == 0);
    assert(trunc_div(0, SCALE as int) == 0);
    if a.raw != 0 {
        assert(trunc_div(0, a.raw as int) == 0) by {
            assert(0int / abs(a.raw as int) == 0);
        }
    }
}

} // verus!

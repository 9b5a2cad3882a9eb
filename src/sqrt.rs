use vstd::prelude::*;

verus! {

/// Largest value whose square does not exceed `x`.
pub open spec fn floor_sqrt(x: nat) -> nat
    decreases x,
{
    if x == 0 {
        0
    } else {
        let r = floor_sqrt((x - 1) as nat);
        if (r + 1) * (r + 1) <= x {
            r + 1
        } else {
            r
        }
    }
}

/// `r` is the integer square root of `x`, rounded down.
pub open spec fn is_floor_sqrt(x: int, r: int) -> bool {
    0 <= r && r * r <= x && x < (r + 1) * (r + 1)
}

/// The rounded-down square root satisfies `is_floor_sqrt`.
pub proof fn lemma_floor_sqrt_holds(x: nat)
    ensures
        is_floor_sqrt(x as int, floor_sqrt(x) as int),
    decreases x,
{
    if x > 0 {
        lemma_floor_sqrt_holds((x - 1) as nat);
        let r = floor_sqrt((x - 1) as nat) as int;
        assert((r + 1) * (r + 1) <= x ==> x < (r + 2) * (r + 2)) by (nonlinear_arith)
            requires
                0 <= r,
                x - 1 < (r + 1) * (r + 1),
        ;
    }
}

/// The rounded-down square root never exceeds its argument.
pub proof fn lemma_floor_sqrt_bounded(x: nat)
    ensures
        floor_sqrt(x) <= x,
        x == 0 ==> floor_sqrt(x) == 0,
{
    lemma_floor_sqrt_holds(x);
    let r = floor_sqrt(x) as int;
    assert(r <= r * r || r == 0) by (nonlinear_arith)
        requires
            r >= 0,
    ;
}

/// The rounded-down square root is the only value that satisfies `is_floor_sqrt`.
pub proof fn lemma_floor_sqrt_unique(x: nat, r: int)
    requires
        is_floor_sqrt(x as int, r),
    ensures
        floor_sqrt(x) == r,
{
    lemma_floor_sqrt_holds(x);
    let s = floor_sqrt(x) as int;
    if s < r {
        assert((s + 1) * (s + 1) <= r * r) by (nonlinear_arith)
            requires
                0 <= s,
                s + 1 <= r,
        ;
    } else if r < s {
        assert((r + 1) * (r + 1) <= s * s) by (nonlinear_arith)
            requires
                0 <= r,
                r + 1 <= s,
        ;
    }
}

/// Rounded-down square root of a 128-bit unsigned value.
pub fn isqrt_u128(x: u128) -> (r: u128)
    ensures
        r == floor_sqrt(x as nat),
{
    let mut lo: u128 = 0;
    let mut hi: u128 = 0x1_0000_0000_0000_0000;
    assert(x < hi * hi) by (nonlinear_arith)
        requires
            x <= 0xffff_ffff_ffff_ffff_ffff_ffff_ffff_ffff,
            hi == 0x1_0000_0000_0000_0000u128,
    ;
    while hi - lo > 1
        invariant
            lo < hi <= 0x1_0000_0000_0000_0000,
            lo * lo <= x,
            x < hi * hi,
        decreases hi - lo,
    {
        let mid: u128 = lo + (hi - lo) / 2;
        assert(mid * mid < 0x1_0000_0000_0000_0000_0000_0000_0000_0000) by (nonlinear_arith)
            requires
                mid < 0x1_0000_0000_0000_0000,
        ;
        if mid * mid <= x {
            lo = mid;
        } else {
            hi = mid;
        }
    }
    proof {
        assert(hi == lo + 1);
        lemma_floor_sqrt_unique(x as nat, lo as int);
    }
    lo
}


/// Square root of a scalar.
pub trait Sqrt: Sized {
    type Output;

    /// The value that `sqrt` returns.
    spec fn sqrt_spec(self) -> Self::Output;

    fn sqrt(self) -> (r: Self::Output)
        ensures
            r == self.sqrt_spec(),
    ;
}

/// Integers take the rounded-down root; a negative value has root zero.
impl Sqrt for i64 {
    type Output = i64;

    open spec fn sqrt_spec(self) -> i64 {
        if self <= 0 {
            0
        } else {
            floor_sqrt(self as nat) as i64
        }
    }

    fn sqrt(self) -> (r: i64) {
        if self <= 0 {
            0
        } else {
            let r = isqrt_u128(self as u128);
            proof {
                lemma_floor_sqrt_holds(self as nat);
                assert(r * r <= self);
                assert(r <= self) by (nonlinear_arith)
                    requires
                        r * r <= self,
                        0 <= r,
                        0 < self,
                ;
            }
            r as i64
        }
    }
}

} // verus!

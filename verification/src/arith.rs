//! Saturating, clamped and scaled integer arithmetic for the fixed-point
//! simulation: all physics runs on milliunit integers, so every operation
//! here carries an exact contract and is proved free of overflow.
use vstd::prelude::*;

verus! {

/// Mathematical absolute value, used to state magnitudes in contracts.
pub open spec fn mag(a: int) -> nat {
    if a >= 0 {
        a as nat
    } else {
        (-a) as nat
    }
}

/// Reattach a sign to a magnitude: `neg` picks the negative branch.
pub open spec fn with_sign(neg: bool, m: nat) -> int {
    if neg {
        -(m as int)
    } else {
        m as int
    }
}

/// Saturating addition on the health scale.
pub open spec fn sat_add_spec(a: int, d: int) -> int {
    if a + d > 255 {
        255
    } else {
        a + d
    }
}

/// Saturating subtraction, clamped at zero.
pub open spec fn sat_sub_spec(a: int, d: int) -> int {
    if a < d {
        0
    } else {
        a - d
    }
}

/// Saturating add on health points: clamps at 255 instead of wrapping.
pub fn sat_add_u8(a: u8, d: u8) -> (r: u8)
    ensures
        r == sat_add_spec(a as int, d as int),
{
    if a > 255 - d {
        255
    } else {
        a + d
    }
}

/// Saturating subtract on health points: clamps at 0 instead of wrapping.
pub fn sat_sub_u8(a: u8, d: u8) -> (r: u8)
    ensures
        r == sat_sub_spec(a as int, d as int),
{
    if a < d {
        0
    } else {
        a - d
    }
}

/// Saturating increment of a score counter.
pub fn sat_inc_u32(a: u32) -> (r: u32)
    ensures
        r == if a == u32::MAX { a as int } else { a + 1 },
{
    if a == u32::MAX {
        a
    } else {
        a + 1
    }
}

/// Clamp `v` into `[lo, hi]`.
pub open spec fn clamp_spec(v: int, lo: int, hi: int) -> int {
    if v < lo {
        lo
    } else if v > hi {
        hi
    } else {
        v
    }
}

/// Clamp a coordinate or speed into a closed interval.
pub fn clamp_i64(v: i64, lo: i64, hi: i64) -> (r: i64)
    requires
        lo <= hi,
    ensures
        r == clamp_spec(v as int, lo as int, hi as int),
        lo <= r <= hi,
{
    if v < lo {
        lo
    } else if v > hi {
        hi
    } else {
        v
    }
}

/// Integer square root, rounded down; defined by counting up so that the
/// characteristic bracketing property can be proved by induction.
pub open spec fn sqrt_floor(n: nat) -> nat
    decreases n,
{
    if n == 0 {
        0
    } else {
        let r = sqrt_floor((n - 1) as nat);
        if (r + 1) * (r + 1) <= n {
            r + 1
        } else {
            r
        }
    }
}

/// `sqrt_floor(n)` is the unique `r` with `r * r <= n < (r + 1) * (r + 1)`.
pub proof fn lemma_sqrt_floor(n: nat)
    ensures
        sqrt_floor(n) * sqrt_floor(n) <= n,
        n < (sqrt_floor(n) + 1) * (sqrt_floor(n) + 1),
    decreases n,
{
    if n == 0 {
        let s = sqrt_floor(0);
        assert(s == 0);
        assert(n < (s + 1) * (s + 1)) by (nonlinear_arith)
            requires
                n == 0,
                s == 0,
        ;
    } else {
        lemma_sqrt_floor((n - 1) as nat);
        let r = sqrt_floor((n - 1) as nat);
        if (r + 1) * (r + 1) <= n {
            assert(sqrt_floor(n) == r + 1);
            assert((r + 2) * (r + 2) > (r + 1) * (r + 1)) by (nonlinear_arith);
            assert(n <= (r + 1) * (r + 1));
            assert(n < (sqrt_floor(n) + 1) * (sqrt_floor(n) + 1));
        } else {
            assert(sqrt_floor(n) == r);
            assert(n < (sqrt_floor(n) + 1) * (sqrt_floor(n) + 1));
        }
    }
}

/// Any `r` satisfying the bracketing property is `sqrt_floor(n)`.
pub proof fn lemma_sqrt_floor_unique(n: nat, r: nat)
    requires
        r * r <= n,
        n < (r + 1) * (r + 1),
    ensures
        r == sqrt_floor(n),
{
    lemma_sqrt_floor(n);
    let s = sqrt_floor(n);
    if r < s {
        assert((r + 1) * (r + 1) <= s * s) by (nonlinear_arith)
            requires
                r + 1 <= s,
        ;
    }
    if s < r {
        assert((s + 1) * (s + 1) <= r * r) by (nonlinear_arith)
            requires
                s + 1 <= r,
        ;
    }
}

/// Integer square root by bisection; exact against `sqrt_floor`.
pub fn isqrt(n: u64) -> (r: u64)
    ensures
        r == sqrt_floor(n as nat),
{
    if n == 0 {
        proof {
            assert(0nat * 0nat == 0nat) by (nonlinear_arith);
            assert((0nat + 1) * (0nat + 1) == 1nat) by (nonlinear_arith);
            lemma_sqrt_floor_unique(n as nat, 0);
        }
        return 0;
    }
    let mut lo: u64 = 0;
    let mut hi: u64 = 0x1_0000_0000;
    proof {
        assert((n as int) < (hi as int) * (hi as int)) by (nonlinear_arith)
            requires
                n <= 0xffff_ffff_ffff_ffffu64,
                hi == 0x1_0000_0000u64,
        ;
    }
    while hi - lo > 1
        invariant
            lo < hi <= 0x1_0000_0000,
            (lo as int) * (lo as int) <= n as int,
            (n as int) < (hi as int) * (hi as int),
        decreases hi - lo,
    {
        let mid = lo + (hi - lo) / 2;
        proof {
            assert((mid as int) * (mid as int) <= 0xffff_ffffu64 as int * 0xffff_ffffu64 as int)
                by (nonlinear_arith)
                requires
                    0 <= mid <= 0xffff_ffffu64,
            ;
        }
        if mid * mid <= n {
            lo = mid;
        } else {
            hi = mid;
        }
    }
    proof {
        lemma_sqrt_floor_unique(n as nat, lo as nat);
    }
    lo
}

/// Scale a signed quantity by the ratio `num / den`, rounding the magnitude
/// down: the fixed-point analogue of multiplying by a fraction.
pub open spec fn scale_spec(v: int, num: nat, den: nat) -> int {
    with_sign(v < 0, (mag(v) * num) / den)
}

/// The scaled magnitude never exceeds the input magnitude when `num <= den`.
pub proof fn lemma_scale_shrinks(v: int, num: nat, den: nat)
    requires
        0 < num <= den,
    ensures
        mag(scale_spec(v, num, den)) <= mag(v),
{
    let m = mag(v);
    assert(m * num <= m * den) by (nonlinear_arith)
        requires
            num <= den,
            m >= 0,
    ;
    vstd::arithmetic::div_mod::lemma_div_is_ordered((m * num) as int, (m * den) as int, den as int);
    vstd::arithmetic::div_mod::lemma_div_by_multiple(m as int, den as int);
}

/// Scale `v` by `num / den` on magnitudes, keeping the sign.
pub fn scale_i64(v: i64, num: u64, den: u64) -> (r: i64)
    requires
        0 < den,
        mag(v as int) <= i64::MAX,
        mag(v as int) * (num as nat) <= u64::MAX,
        mag(v as int) * (num as nat) / (den as nat) <= i64::MAX,
    ensures
        r == scale_spec(v as int, num as nat, den as nat),
{
    if v >= 0 {
        let m = v as u64;
        ((m * num) / den) as i64
    } else {
        let m = (-v) as u64;
        let q = (m * num) / den;
        proof {
            vstd::arithmetic::div_mod::lemma_div_nonincreasing((m * num) as int, den as int);
        }
        -(q as i64)
    }
}

} // verus!

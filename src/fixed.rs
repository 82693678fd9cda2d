//! Fixed-point units and the rounding helpers shared by the simulation.
use vstd::prelude::*;

verus! {

/// Fixed-point steps in one world unit, one second or one radian.
pub const UNIT: i64 = 1000;

/// Side of the square playfield, in thousandths of a unit.
pub const FIELD: i64 = 64_000;

/// `v * num / den`, rounded toward zero.
pub open spec fn scaled(v: int, num: int, den: int) -> int {
    if v >= 0 {
        v * num / den
    } else {
        -((-v) * num / den)
    }
}

/// `v` limited to `[lo, hi]`.
pub open spec fn clamped(v: int, lo: int, hi: int) -> int {
    if v < lo {
        lo
    } else if v > hi {
        hi
    } else {
        v
    }
}

proof fn lemma_div_bounded(p: int, den: int)
    requires
        p >= 0,
        den >= 1,
    ensures
        0 <= p / den <= p,
{
    assert(0 <= p / den <= p) by (nonlinear_arith)
        requires
            p >= 0,
            den >= 1,
    ;
}

/// Computes `v * num / den`, rounding toward zero.
pub fn scale(v: i64, num: i64, den: i64) -> (r: i64)
    requires
        num >= 0,
        den >= 1,
        v >= -i64::MAX,
        -i64::MAX <= v * num <= i64::MAX,
    ensures
        r == scaled(v as int, num as int, den as int),
        v >= 0 ==> 0 <= r <= v * num,
        v < 0 ==> v * num <= r <= 0,
{
    if v >= 0 {
        let p = v * num;
        proof {
            lemma_div_bounded(p as int, den as int);
        }
        p / den
    } else {
        let w = -v;
        assert(w * num == -(v * num)) by (nonlinear_arith)
            requires
                w == -v,
        ;
        let p = w * num;
        proof {
            lemma_div_bounded(p as int, den as int);
        }
        -(p / den)
    }
}

/// Limits `v` to `[lo, hi]`.
pub fn clamp(v: i64, lo: i64, hi: i64) -> (r: i64)
    requires
        lo <= hi,
    ensures
        r == clamped(v as int, lo as int, hi as int),
        lo <= r <= hi,
{
    if v < lo {
        lo
    } else if v > hi {
        hi
    } else {
        v
    }
}

/// Whole part of the square root of `n`.
pub open spec fn is_root(n: int, r: int) -> bool {
    0 <= r && r * r <= n < (r + 1) * (r + 1)
}

/// Integer square root: the largest `r` with `r * r <= n`.
pub fn isqrt(n: u64) -> (r: u64)
    requires
        n <= 0x3fff_ffff_ffff_ffff,
    ensures
        is_root(n as int, r as int),
{
    let mut lo: u64 = 0;
    let mut hi: u64 = 0x8000_0000;
    assert(n < hi * hi) by (nonlinear_arith)
        requires
            n <= 0x3fff_ffff_ffff_ffff,
            hi == 0x8000_0000,
    ;
    while hi - lo > 1
        invariant
            lo < hi <= 0x8000_0000,
            lo * lo <= n,
            n < hi * hi,
        decreases hi - lo,
    {
        let mid = lo + (hi - lo) / 2;
        assert(mid * mid <= 0x8000_0000u64 * 0x8000_0000u64) by (nonlinear_arith)
            requires
                mid <= 0x8000_0000u64,
        ;
        if mid * mid <= n {
            lo = mid;
        } else {
            hi = mid;
        }
    }
    assert(hi == lo + 1);
    lo
}

} // verus!

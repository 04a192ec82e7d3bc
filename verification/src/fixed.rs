//! Fixed-point arithmetic for the simulation core.
//!
//! Every price, return ratio, growth rate and percentile value in this
//! library is a signed 64-bit integer holding the quantity scaled by
//! [`SCALE`]: the value `1_500_000_000` stands for the real number `1.5`.
//! The products and quotients below truncate toward zero, and every
//! operation that could leave the 64-bit range reports that instead of
//! wrapping, so callers can surface a numeric failure rather than
//! propagate a silently wrong band.

use vstd::prelude::*;

verus! {

/// Number of fixed-point units in one whole unit (nine decimal places).
pub const SCALE: i64 = 1_000_000_000;

/// Division truncating toward zero, the rounding that the executable
/// `/` operator applies on signed machine integers.
pub open spec fn div_trunc(a: int, b: int) -> int
    recommends
        b > 0,
{
    if a >= 0 {
        a / b
    } else {
        -((-a) / b)
    }
}

/// The fixed-point product of `a` and `b`: their mathematical product
/// brought back to the fixed-point scale, truncated toward zero.
pub open spec fn fp_mul_spec(a: int, b: int) -> int {
    div_trunc(a * b, SCALE as int)
}

/// The fixed-point ratio `a / b`: the mathematical quotient carried to
/// the fixed-point scale, truncated toward zero.
pub open spec fn fp_div_spec(a: int, b: int) -> int
    recommends
        b > 0,
{
    div_trunc(a * SCALE as int, b)
}

/// Multiplies two fixed-point values; `None` reports that the product
/// does not fit the fixed-point range.
pub fn fp_mul(a: i64, b: i64) -> (r: Option<i64>)
    ensures
        r is Some <==> i64::MIN <= fp_mul_spec(a as int, b as int) <= i64::MAX,
        r is Some ==> r->0 == fp_mul_spec(a as int, b as int),
{
    proof {
        assert((a as int) * (b as int) <= 0x4000_0000_0000_0000_0000_0000_0000_0000int
            && (a as int) * (b as int) >= -0x4000_0000_0000_0000_0000_0000_0000_0000int)
            by (nonlinear_arith)
            requires
                -0x8000_0000_0000_0000 <= a <= 0x7fff_ffff_ffff_ffff,
                -0x8000_0000_0000_0000 <= b <= 0x7fff_ffff_ffff_ffff,
        ;
    }
    let p: i128 = (a as i128) * (b as i128);
    let q: i128 = p / (SCALE as i128);
    if q >= (i64::MIN as i128) && q <= (i64::MAX as i128) {
        Some(q as i64)
    } else {
        None
    }
}

/// Divides two fixed-point values; `None` reports that the quotient
/// does not fit the fixed-point range.
pub fn fp_div(a: i64, b: i64) -> (r: Option<i64>)
    requires
        b > 0,
    ensures
        r is Some <==> i64::MIN <= fp_div_spec(a as int, b as int) <= i64::MAX,
        r is Some ==> r->0 == fp_div_spec(a as int, b as int),
{
    proof {
        assert((a as int) * (SCALE as int) <= 0x4000_0000_0000_0000_0000_0000_0000_0000int
            && (a as int) * (SCALE as int) >= -0x4000_0000_0000_0000_0000_0000_0000_0000int)
            by (nonlinear_arith)
            requires
                -0x8000_0000_0000_0000 <= a <= 0x7fff_ffff_ffff_ffff,
                SCALE == 1_000_000_000i64,
        ;
    }
    let p: i128 = (a as i128) * (SCALE as i128);
    let q: i128 = p / (b as i128);
    if q >= (i64::MIN as i128) && q <= (i64::MAX as i128) {
        Some(q as i64)
    } else {
        None
    }
}

/// Integer square root: the greatest `r` with `r * r <= v`.
pub fn isqrt(v: u128) -> (r: u64)
    ensures
        r as int * r as int <= v as int,
        (r as int + 1) * (r as int + 1) > v as int,
{
    let mut lo: u128 = 0;
    let mut hi: u128 = 0x1_0000_0000_0000_0000;
    proof {
        assert(hi as int * hi as int > v as int) by (nonlinear_arith)
            requires
                hi == 0x1_0000_0000_0000_0000u128,
                v <= 0xffff_ffff_ffff_ffff_ffff_ffff_ffff_ffffu128,
        ;
    }
    while lo + 1 < hi
        invariant
            lo < hi <= 0x1_0000_0000_0000_0000u128,
            lo as int * lo as int <= v as int,
            hi as int * hi as int > v as int,
        decreases hi - lo,
    {
        let mid: u128 = lo + (hi - lo) / 2;
        proof {
            assert(mid as int * mid as int <= 0xffff_ffff_ffff_ffff_ffff_ffff_ffff_ffffint)
                by (nonlinear_arith)
                requires
                    mid < 0x1_0000_0000_0000_0000u128,
            ;
        }
        if mid * mid <= v {
            lo = mid;
        } else {
            hi = mid;
        }
    }
    lo as u64
}

} // verus!

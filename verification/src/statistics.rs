//! Moment estimation over a returns series, and nearest-rank
//! percentile extraction from a sorted sample.
//!
//! The standard deviation is deliberately the population one (the sum
//! of squared deviations divided by `N`, not `N - 1`): the dispersion
//! the simulation is calibrated with is a modeling choice, and a
//! different estimator would change the magnitude of every band.

use vstd::prelude::*;
use vstd::arithmetic::div_mod::lemma_div_is_ordered;
use vstd::arithmetic::div_mod::lemma_div_multiples_vanish;
use crate::fixed::SCALE;
use crate::fixed::div_trunc;
use crate::fixed::isqrt;
use crate::models::DistributionParameters;
use crate::models::SimulationError;
use crate::sorting::sorted_of;
use crate::sorting::lemma_sorted_of_len;
use crate::sorting::lemma_sorted_of_contains;

verus! {

/// Sum of a series.
pub open spec fn sum_of(s: Seq<i64>) -> int
    decreases s.len(),
{
    if s.len() == 0 {
        0
    } else {
        sum_of(s.drop_last()) + s.last()
    }
}

/// Arithmetic mean of a non-empty series, truncated toward zero.
pub open spec fn mean_spec(s: Seq<i64>) -> int
    recommends
        s.len() > 0,
{
    div_trunc(sum_of(s), s.len() as int)
}

/// Squared deviation of one sample from the mean `m`.
pub open spec fn dev_sq(x: i64, m: int) -> int {
    (x - m) * (x - m)
}

/// Sum of squared deviations of a series from the mean `m`.
pub open spec fn sum_dev_sq(s: Seq<i64>, m: int) -> int
    decreases s.len(),
{
    if s.len() == 0 {
        0
    } else {
        sum_dev_sq(s.drop_last(), m) + dev_sq(s.last(), m)
    }
}

/// Population variance of a non-empty series: squared deviations from
/// the mean, divided by the sample count `N` (not `N - 1`).
pub open spec fn variance_spec(s: Seq<i64>) -> int
    recommends
        s.len() > 0,
{
    sum_dev_sq(s, mean_spec(s)) / s.len() as int
}

proof fn lemma_dev_sq_nonneg(x: i64, m: int)
    ensures
        dev_sq(x, m) >= 0,
{
    let d = x - m;
    assert(d * d >= 0) by (nonlinear_arith);
}

/// A prefix never holds more squared deviation than the whole series.
proof fn lemma_sum_dev_sq_prefix(s: Seq<i64>, m: int, i: int)
    requires
        0 <= i <= s.len(),
    ensures
        sum_dev_sq(s.subrange(0, i), m) <= sum_dev_sq(s, m),
    decreases s.len() - i,
{
    if i == s.len() {
        assert(s.subrange(0, i) =~= s);
    } else {
        lemma_sum_dev_sq_prefix(s, m, i + 1);
        let t = s.subrange(0, i + 1);
        assert(t.drop_last() =~= s.subrange(0, i));
        lemma_dev_sq_nonneg(t.last(), m);
    }
}

/// The arithmetic mean of the series, or `None` when the series is
/// empty: the undefined case stays distinguishable so the caller can
/// apply its documented fallback rather than read an accidental zero.
pub fn mean(data: &Vec<i64>) -> (r: Option<i64>)
    ensures
        r is Some <==> data@.len() > 0,
        r is Some ==> r->0 == mean_spec(data@),
{
    let n = data.len();
    if n == 0 {
        return None;
    }
    let mut sum: i128 = 0;
    let mut i: usize = 0;
    while i < n
        invariant
            n == data@.len(),
            0 <= i <= n,
            sum == sum_of(data@.subrange(0, i as int)),
            sum >= -(i as int) * 0x8000_0000_0000_0000,
            sum <= i as int * 0x7fff_ffff_ffff_ffff,
        decreases n - i,
    {
        proof {
            let t = data@.subrange(0, i as int + 1);
            assert(t.drop_last() =~= data@.subrange(0, i as int));
        }
        sum = sum + (data[i] as i128);
        i = i + 1;
    }
    proof {
        assert(data@.subrange(0, n as int) =~= data@);
        if sum >= 0 {
            lemma_div_is_ordered(sum as int, n as int * 0x7fff_ffff_ffff_ffff, n as int);
            lemma_div_multiples_vanish(0x7fff_ffff_ffff_ffff, n as int);
        } else {
            lemma_div_is_ordered(-(sum as int), n as int * 0x8000_0000_0000_0000, n as int);
            lemma_div_multiples_vanish(0x8000_0000_0000_0000, n as int);
        }
    }
    let q: i128 = sum / (n as i128);
    Some(q as i64)
}

/// The population standard deviation of the series, as the integer
/// square root of the variance: `Ok(None)` when the series is empty,
/// `Err` when the squared deviations or their root leave the
/// representable range. It derives the mean through [`mean`] itself,
/// never recomputing it, so the two statistics cannot drift apart.
pub fn standard_deviation(data: &Vec<i64>) -> (r: Result<Option<i64>, SimulationError>)
    ensures
        data@.len() == 0 ==> r == Ok::<Option<i64>, SimulationError>(None::<i64>),
        data@.len() > 0 ==> ((r is Ok) <==> (sum_dev_sq(data@, mean_spec(data@))
            <= 0xffff_ffff_ffff_ffff_ffff_ffff_ffff_ffff
            && variance_spec(data@) < 0x4000_0000_0000_0000_0000_0000_0000_0000)),
        data@.len() > 0 && r is Ok ==> (r->Ok_0 is Some && {
            let sd = r->Ok_0->0;
            &&& sd >= 0
            &&& sd as int * sd as int <= variance_spec(data@)
            &&& (sd as int + 1) * (sd as int + 1) > variance_spec(data@)
        }),
        r is Err ==> r->Err_0 == SimulationError::NumericError,
{
    let n = data.len();
    let m = match mean(data) {
        None => {
            return Ok(None);
        },
        Some(m) => m,
    };
    let ghost gm: int = m as int;
    let mut acc: u128 = 0;
    let mut i: usize = 0;
    while i < n
        invariant
            n == data@.len(),
            n > 0,
            0 <= i <= n,
            gm == m as int,
            gm == mean_spec(data@),
            acc == sum_dev_sq(data@.subrange(0, i as int), gm),
        decreases n - i,
    {
        let d: i128 = (data[i] as i128) - (m as i128);
        let ad: u128 = if d >= 0 {
            d as u128
        } else {
            (-d) as u128
        };
        proof {
            assert(ad as int * ad as int == dev_sq(data@[i as int], gm)
                && ad as int * ad as int <= 0xffff_ffff_ffff_fffe_0000_0000_0000_0001int)
                by (nonlinear_arith)
                requires
                    ad as int == if d >= 0 { d as int } else { -(d as int) },
                    d == data@[i as int] - gm,
                    dev_sq(data@[i as int], gm) == (data@[i as int] - gm) * (data@[i as int] - gm),
                    -0xffff_ffff_ffff_ffff <= d <= 0xffff_ffff_ffff_ffff,
            ;
            let t = data@.subrange(0, i as int + 1);
            assert(t.drop_last() =~= data@.subrange(0, i as int));
        }
        let sq: u128 = ad * ad;
        if acc <= u128::MAX - sq {
            acc = acc + sq;
        } else {
            proof {
                lemma_sum_dev_sq_prefix(data@, gm, i as int + 1);
            }
            return Err(SimulationError::NumericError);
        }
        i = i + 1;
    }
    proof {
        assert(data@.subrange(0, n as int) =~= data@);
    }
    let var: u128 = acc / (n as u128);
    let s: u64 = isqrt(var);
    proof {
        assert(s > 0x7fff_ffff_ffff_ffff ==> var >= 0x4000_0000_0000_0000_0000_0000_0000_0000)
            by (nonlinear_arith)
            requires
                s as int * s as int <= var as int,
        ;
        assert(s <= 0x7fff_ffff_ffff_ffff ==> var < 0x4000_0000_0000_0000_0000_0000_0000_0000)
            by (nonlinear_arith)
            requires
                (s as int + 1) * (s as int + 1) > var as int,
        ;
    }
    if s <= 0x7fff_ffff_ffff_ffff {
        Ok(Some(s as i64))
    } else {
        Err(SimulationError::NumericError)
    }
}

/// Calibrates the distribution from the returns series. An empty
/// series is recovered locally, never surfaced: the mean defaults to
/// zero drift and the standard deviation to unit volatility, exactly
/// one whole fixed-point unit. The unit-volatility fallback is a
/// modeling policy, not a derived value; changing it changes every
/// simulated band.
pub fn calibrate(series: &Vec<i64>) -> (r: Result<DistributionParameters, SimulationError>)
    ensures
        series@.len() == 0 ==> r == Ok::<DistributionParameters, SimulationError>(
            DistributionParameters { mean: 0, std_dev: SCALE },
        ),
        series@.len() > 0 ==> ((r is Ok) <==> (sum_dev_sq(series@, mean_spec(series@))
            <= 0xffff_ffff_ffff_ffff_ffff_ffff_ffff_ffff
            && variance_spec(series@) < 0x4000_0000_0000_0000_0000_0000_0000_0000)),
        series@.len() > 0 && r is Ok ==> {
            let p = r->Ok_0;
            &&& p.mean == mean_spec(series@)
            &&& p.std_dev >= 0
            &&& p.std_dev as int * p.std_dev as int <= variance_spec(series@)
            &&& (p.std_dev as int + 1) * (p.std_dev as int + 1) > variance_spec(series@)
        },
        r is Err ==> r->Err_0 == SimulationError::NumericError,
{
    let m = match mean(series) {
        Some(m) => m,
        None => 0,
    };
    let sd = match standard_deviation(series) {
        Ok(Some(sd)) => sd,
        Ok(None) => SCALE,
        Err(e) => {
            return Err(e);
        },
    };
    Ok(DistributionParameters { mean: m, std_dev: sd })
}

/// The index the nearest-rank estimator selects in an ascending sample
/// of length `n`: `p/100 * (n - 1)` rounded half away from zero, then
/// clamped into the sample.
pub open spec fn rank_of(p: int, n: int) -> int
    recommends
        n > 0,
        p >= 0,
{
    let raw = (p * (n - 1) + 50) / 100;
    if raw > n - 1 {
        n - 1
    } else {
        raw
    }
}

/// The rank is always an index into the sample.
pub proof fn lemma_rank_of_in_range(p: int, n: int)
    requires
        n > 0,
        p >= 0,
    ensures
        0 <= rank_of(p, n) < n,
{
    vstd::arithmetic::div_mod::lemma_div_pos_is_pos(p * (n - 1) + 50, 100);
    assert(p * (n - 1) >= 0) by (nonlinear_arith)
        requires
            p >= 0,
            n >= 1,
    ;
}

/// Smallest element of a non-empty series.
pub open spec fn seq_min(s: Seq<i64>) -> i64
    recommends
        s.len() > 0,
    decreases s.len(),
{
    if s.len() <= 1 {
        s[0]
    } else if s[0] <= seq_min(s.drop_first()) {
        s[0]
    } else {
        seq_min(s.drop_first())
    }
}

/// Largest element of a non-empty series.
pub open spec fn seq_max(s: Seq<i64>) -> i64
    recommends
        s.len() > 0,
    decreases s.len(),
{
    if s.len() <= 1 {
        s[0]
    } else if s[0] >= seq_max(s.drop_first()) {
        s[0]
    } else {
        seq_max(s.drop_first())
    }
}

proof fn lemma_extremes_bound(s: Seq<i64>, x: i64)
    requires
        s.contains(x),
    ensures
        seq_min(s) <= x <= seq_max(s),
    decreases s.len(),
{
    let i = choose|i: int| 0 <= i < s.len() && s[i] == x;
    if s.len() > 1 && s[0] != x {
        assert(s.drop_first()[i - 1] == x);
        assert(s.drop_first().contains(x));
        lemma_extremes_bound(s.drop_first(), x);
    }
}

/// Every percentile the aggregator extracts lies between the smallest
/// and the largest of the cross-walk values it was extracted from,
/// inclusive: in particular the 50th-percentile band can never leave
/// the envelope of the ensemble.
pub proof fn lemma_percentile_between_extremes(vals: Seq<i64>, p: int)
    requires
        vals.len() > 0,
        p >= 0,
    ensures
        seq_min(vals) <= sorted_of(vals)[rank_of(p, vals.len() as int)] <= seq_max(vals),
{
    lemma_rank_of_in_range(p, vals.len() as int);
    lemma_sorted_of_len(vals);
    let r = rank_of(p, vals.len() as int);
    lemma_sorted_of_contains(vals, r);
    lemma_extremes_bound(vals, sorted_of(vals)[r]);
}

/// Nearest-rank percentile of an ascending sample: selects an existing
/// sample value at the computed rank, never interpolating between two
/// values. `p` is the percentile in whole percent.
pub fn percentile(data: &Vec<i64>, p: u32) -> (r: i64)
    requires
        data@.len() > 0,
    ensures
        r == data@[rank_of(p as int, data@.len() as int)],
{
    let n = data.len();
    proof {
        assert(p as int * (n - 1) <= 0x1_0000_0000_0000_0000_0000_0000int)
            by (nonlinear_arith)
            requires
                0 <= p as int <= 0xffff_ffff,
                0 < n <= 0x1_0000_0000_0000_0000,
        ;
        assert(p as int * (n - 1) >= 0) by (nonlinear_arith)
            requires
                p >= 0,
                n >= 1,
        ;
    }
    let raw: u128 = ((p as u128) * ((n - 1) as u128) + 50) / 100;
    let rank: usize = if raw > (n - 1) as u128 {
        n - 1
    } else {
        raw as usize
    };
    data[rank]
}

} // verus!

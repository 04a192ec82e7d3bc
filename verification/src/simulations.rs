//! The simulation engine: one random walk, the parallel ensemble, and
//! the per-step percentile aggregation.
//!
//! Trials are embarrassingly parallel: no trial depends on another's
//! outcome, and each task owns its output until it is merged. The two
//! fan-out points — one task per walk, one sample per step — go
//! through rayon behind two trusted wrappers; everything they fan out
//! is a verified function of its row alone, so the ensemble is the
//! same whether one thread or many ran it.

use vstd::prelude::*;
use rayon::prelude::IntoParallelRefIterator;
use rayon::prelude::ParallelIterator;
use crate::fixed::fp_mul;
use crate::fixed::fp_mul_spec;
use crate::models::RandomWalks;
use crate::models::SimulationError;
use crate::models::SimulationResults;
use crate::models::Walk;
use crate::sorting::sort;
use crate::sorting::sorted_of;
use crate::sorting::lemma_sorted_of_len;
use crate::statistics::percentile;
use crate::statistics::rank_of;

verus! {

/// Value of the walk at step `i`: the starting value at step zero,
/// then the previous value times the step's growth rate, carried as an
/// unbounded integer so that the recurrence is defined even where the
/// executable walk must stop with a numeric failure.
pub open spec fn walk_at(start: i64, growths: Seq<i64>, i: int) -> int
    recommends
        0 <= i <= growths.len(),
    decreases i,
{
    if i <= 0 {
        start as int
    } else {
        fp_mul_spec(walk_at(start, growths, i - 1), growths[i - 1] as int)
    }
}

/// Whether the first `n` values of the walk stay representable.
pub open spec fn walk_fits(start: i64, growths: Seq<i64>, n: int) -> bool {
    forall|i: int| 0 <= i < n ==> i64::MIN <= #[trigger] walk_at(start, growths, i) <= i64::MAX
}

/// What one trial returns: the fully pinned walk when every step stays
/// representable, a numeric failure otherwise.
pub open spec fn walk_result_ok(r: Result<Walk, SimulationError>, start: i64, g: Seq<i64>) -> bool {
    &&& (r is Ok <==> walk_fits(start, g, g.len() + 1 as int))
    &&& (r is Ok ==> r->Ok_0@.len() == g.len() + 1)
    &&& (r is Ok ==> forall|i: int| 0 <= i <= g.len() ==> r->Ok_0@[i] == walk_at(start, g, i))
    &&& (r is Err ==> r->Err_0 == SimulationError::NumericError)
}

/// One random walk over the given per-step growth rates: step zero is
/// the starting value exactly, and the walk has one more element than
/// there are growth rates. A step whose product leaves the
/// representable range is surfaced as a numeric failure, never
/// truncated into the bands.
pub fn random_walk(start: i64, growths: &Vec<i64>) -> (r: Result<Walk, SimulationError>)
    ensures
        r is Ok <==> walk_fits(start, growths@, growths@.len() + 1 as int),
        r is Ok ==> r->Ok_0@.len() == growths@.len() + 1,
        r is Ok ==> r->Ok_0@[0] == start,
        r is Ok ==> forall|i: int|
            0 <= i <= growths@.len() ==> r->Ok_0@[i] == walk_at(start, growths@, i),
        r is Err ==> r->Err_0 == SimulationError::NumericError,
{
    let s = growths.len();
    let mut walk: Vec<i64> = Vec::new();
    walk.push(start);
    let mut i: usize = 0;
    while i < s
        invariant
            s == growths@.len(),
            0 <= i <= s,
            walk@.len() == i + 1,
            forall|k: int| 0 <= k <= i ==> walk@[k] == walk_at(start, growths@, k),
        decreases s - i,
    {
        let prev = walk[i];
        match fp_mul(prev, growths[i]) {
            Some(v) => {
                walk.push(v);
            },
            None => {
                proof {
                    assert(walk_at(start, growths@, i + 1) == fp_mul_spec(
                        prev as int,
                        growths@[i as int] as int,
                    ));
                }
                return Err(SimulationError::NumericError);
            },
        }
        i = i + 1;
    }
    proof {
        assert forall|k: int| 0 <= k < s + 1 implies i64::MIN <= #[trigger] walk_at(
            start,
            growths@,
            k,
        ) <= i64::MAX by {
            assert(walk@[k] == walk_at(start, growths@, k));
        }
    }
    Ok(Walk { walk })
}

/// Runs one trial per row of the growth matrix, one parallel task
/// each, and collects the outcomes in row order.
///
/// Relies on rayon's `ParallelIterator::map` and `collect`: mapping a
/// slice's parallel iterator and collecting into a `Vec` keeps every
/// element at the index of the row it came from, whatever the number
/// of worker threads; the closure only calls [`random_walk`], whose
/// contract pins each outcome.
#[verifier::external_body]
fn par_walk_rows(growths: &Vec<Vec<i64>>, start: i64) -> (r: Vec<Result<Walk, SimulationError>>)
    ensures
        r@.len() == growths@.len(),
        forall|k: int|
            0 <= k < growths@.len() ==> walk_result_ok(#[trigger] r@[k], start, growths@[k]@),
{
    growths.par_iter().map(|g| random_walk(start, g)).collect()
}

/// Reads the cross-walk sample at one step, one parallel task per
/// walk, in walk order.
///
/// Relies on rayon's `ParallelIterator::map` and `collect`, order
/// preserving as above; the closure picks the step's element out of
/// each walk.
#[verifier::external_body]
fn par_step_values(walks: &Vec<Walk>, step: usize) -> (r: Vec<i64>)
    requires
        forall|k: int| 0 <= k < walks@.len() ==> step < (#[trigger] walks@[k])@.len(),
    ensures
        r@.len() == walks@.len(),
        forall|k: int| 0 <= k < walks@.len() ==> r@[k] == (#[trigger] walks@[k])@[step as int],
{
    walks.par_iter().map(|w| w.walk[step]).collect()
}

/// The views of a growth matrix's rows.
pub open spec fn row_views(growths: Seq<Vec<i64>>) -> Seq<Seq<i64>> {
    growths.map_values(|g: Vec<i64>| g@)
}

/// Whether `ws` is the ensemble that the growth matrix and starting
/// value determine: one walk per row, each pinned value for value.
pub open spec fn ensemble_matches(ws: Seq<Walk>, rows: Seq<Seq<i64>>, start: i64) -> bool {
    &&& ws.len() == rows.len()
    &&& forall|k: int| 0 <= k < ws.len() ==> (#[trigger] ws[k])@.len() == rows[k].len() + 1
    &&& forall|k: int, t: int|
        0 <= k < ws.len() && 0 <= t <= rows[k].len() ==> (#[trigger] ws[k]@[t]) == walk_at(
            start,
            rows[k],
            t,
        )
}

/// Generates the ensemble: one independent walk per row of the growth
/// matrix, each row holding the `num_steps - 1` growth rates of one
/// trial. Zero trials, zero steps or a row of the wrong shape is a
/// configuration failure — an empty result would be meaningless and is
/// never returned; a walk that leaves the representable range is a
/// numeric failure. The trials run in parallel, and the result is the
/// same as generating each walk in row order.
pub fn parallel_walks(growths: &Vec<Vec<i64>>, num_steps: usize, start: i64) -> (r: Result<
    RandomWalks,
    SimulationError,
>)
    ensures
        r is Ok <==> (growths@.len() > 0 && num_steps > 0 && (forall|k: int|
            0 <= k < growths@.len() ==> (#[trigger] growths@[k])@.len() + 1 == num_steps) && (
        forall|k: int|
            0 <= k < growths@.len() ==> walk_fits(
                start,
                (#[trigger] growths@[k])@,
                num_steps as int,
            ))),
        r is Ok ==> ensemble_matches(r->Ok_0.walks@, row_views(growths@), start),
        r is Err ==> (r->Err_0 == SimulationError::ConfigurationError <==> (growths@.len() == 0
            || num_steps == 0 || exists|k: int|
            0 <= k < growths@.len() && (#[trigger] growths@[k])@.len() + 1 != num_steps)),
        r is Err ==> (r->Err_0 == SimulationError::ConfigurationError || r->Err_0
            == SimulationError::NumericError),
{
    let m = growths.len();
    if m == 0 || num_steps == 0 {
        return Err(SimulationError::ConfigurationError);
    }
    let mut k: usize = 0;
    while k < m
        invariant
            m == growths@.len(),
            0 <= k <= m,
            num_steps > 0,
            forall|j: int| 0 <= j < k ==> (#[trigger] growths@[j])@.len() + 1 == num_steps,
        decreases m - k,
    {
        if growths[k].len() != num_steps - 1 {
            return Err(SimulationError::ConfigurationError);
        }
        k = k + 1;
    }
    let mut rows = par_walk_rows(growths, start);
    let ghost orig = rows@;
    let mut walks: Vec<Walk> = Vec::new();
    let mut k: usize = 0;
    proof {
        assert(rows@ =~= orig.subrange(0, m as int));
    }
    while k < m
        invariant
            m == growths@.len(),
            0 <= k <= m,
            orig.len() == m,
            rows@ =~= orig.subrange(k as int, m as int),
            forall|j: int|
                0 <= j < m ==> walk_result_ok(#[trigger] orig[j], start, growths@[j]@),
            forall|j: int| 0 <= j < m ==> (#[trigger] growths@[j])@.len() + 1 == num_steps,
            walks@.len() == k,
            forall|j: int|
                0 <= j < k ==> #[trigger] orig[j] is Ok && walks@[j] == orig[j]->Ok_0,
        decreases m - k,
    {
        let row = rows.remove(0);
        proof {
            assert(row == orig[k as int]);
            assert(rows@ =~= orig.subrange(k as int + 1, m as int));
        }
        match row {
            Ok(w) => {
                walks.push(w);
            },
            Err(e) => {
                return Err(e);
            },
        }
        k = k + 1;
    }
    proof {
        assert forall|j: int| 0 <= j < m implies walk_fits(
            start,
            (#[trigger] growths@[j])@,
            num_steps as int,
        ) by {
            assert(walk_result_ok(orig[j], start, growths@[j]@));
            assert(orig[j] is Ok);
        }
        let rv = row_views(growths@);
        assert forall|j: int| 0 <= j < m implies (#[trigger] walks@[j])@.len() == rv[j].len()
            + 1 by {
            assert(walk_result_ok(orig[j], start, growths@[j]@));
        }
        assert forall|j: int, t: int|
            0 <= j < m && 0 <= t <= rv[j].len() implies (#[trigger] walks@[j]@[t]) == walk_at(
            start,
            rv[j],
            t,
        ) by {
            assert(walk_result_ok(orig[j], start, growths@[j]@));
        }
    }
    Ok(RandomWalks { walks })
}

/// However the trials were scheduled — one thread or many — two
/// ensembles generated from the same growth matrix and starting value
/// hold the same walks, value for value.
pub proof fn lemma_ensemble_determined(a: Seq<Walk>, b: Seq<Walk>, rows: Seq<Seq<i64>>, start: i64)
    requires
        ensemble_matches(a, rows, start),
        ensemble_matches(b, rows, start),
    ensures
        a.map_values(|w: Walk| w@) =~~= b.map_values(|w: Walk| w@),
{
    assert forall|k: int| 0 <= k < a.len() implies a[k]@ =~= b[k]@ by {
        assert forall|t: int| 0 <= t < a[k]@.len() implies a[k]@[t] == b[k]@[t] by {
            assert(a[k]@[t] == walk_at(start, rows[k], t));
            assert(b[k]@[t] == walk_at(start, rows[k], t));
        }
    }
}

/// The cross-walk sample at step `t`: the `t`-th value of every walk,
/// in walk order.
pub open spec fn step_values_of(ws: Seq<Walk>, t: int) -> Seq<i64> {
    Seq::new(ws.len(), |k: int| ws[k]@[t])
}

/// The band value at step `t` for percentile `p`: the nearest-rank
/// percentile of the step's sorted cross-walk sample, rescaled by
/// `price`.
pub open spec fn band_value(ws: Seq<Walk>, t: int, p: int, price: i64) -> int {
    fp_mul_spec(sorted_of(step_values_of(ws, t))[rank_of(p, ws.len() as int)] as int, price as int)
}

/// Whether every band value of the run stays representable.
pub open spec fn bands_fit(ws: Seq<Walk>, num_steps: int, price: i64) -> bool {
    forall|t: int, p: int|
        0 <= t < num_steps && (p == 5 || p == 50 || p == 95) ==> i64::MIN <= #[trigger] band_value(
            ws,
            t,
            p,
            price,
        ) <= i64::MAX
}

/// Aggregates the ensemble into the 5th, 50th and 95th percentile
/// bands. Step by step it collects the cross-walk sample — the steps
/// are independent and collected in parallel — sorts it once, extracts
/// the three nearest-rank percentiles from the one sorted sample, and
/// rescales each by `price` (one whole fixed-point unit to stay in
/// normalized-growth space). No band mixes values across steps. A
/// rescaled value that leaves the representable range is a numeric
/// failure for the whole run: no partial result is returned.
pub fn calculate_simulation_percentiles(walks: &RandomWalks, num_steps: usize, price: i64) -> (r:
    Result<SimulationResults, SimulationError>)
    requires
        walks.walks@.len() > 0,
        forall|k: int| 0 <= k < walks.walks@.len() ==> (#[trigger] walks.walks@[k])@.len()
            == num_steps,
    ensures
        r is Ok <==> bands_fit(walks.walks@, num_steps as int, price),
        r is Ok ==> {
            let sr = r->Ok_0;
            &&& sr.fifth@.len() == num_steps
            &&& sr.fiftieth@.len() == num_steps
            &&& sr.ninety_fifth@.len() == num_steps
            &&& forall|t: int|
                0 <= t < num_steps ==> #[trigger] sr.fifth@[t] == band_value(
                    walks.walks@,
                    t,
                    5,
                    price,
                )
            &&& forall|t: int|
                0 <= t < num_steps ==> #[trigger] sr.fiftieth@[t] == band_value(
                    walks.walks@,
                    t,
                    50,
                    price,
                )
            &&& forall|t: int|
                0 <= t < num_steps ==> #[trigger] sr.ninety_fifth@[t] == band_value(
                    walks.walks@,
                    t,
                    95,
                    price,
                )
        },
        r is Err ==> r->Err_0 == SimulationError::NumericError,
{
    let m = walks.walks.len();
    let mut fifth: Vec<i64> = Vec::new();
    let mut fiftieth: Vec<i64> = Vec::new();
    let mut ninety_fifth: Vec<i64> = Vec::new();
    let mut t: usize = 0;
    while t < num_steps
        invariant
            m == walks.walks@.len(),
            m > 0,
            0 <= t <= num_steps,
            forall|k: int| 0 <= k < m ==> (#[trigger] walks.walks@[k])@.len() == num_steps,
            fifth@.len() == t,
            fiftieth@.len() == t,
            ninety_fifth@.len() == t,
            forall|u: int|
                0 <= u < t ==> #[trigger] fifth@[u] == band_value(walks.walks@, u, 5, price),
            forall|u: int|
                0 <= u < t ==> #[trigger] fiftieth@[u] == band_value(walks.walks@, u, 50, price),
            forall|u: int|
                0 <= u < t ==> #[trigger] ninety_fifth@[u] == band_value(
                    walks.walks@,
                    u,
                    95,
                    price,
                ),
            forall|u: int, p: int|
                0 <= u < t && (p == 5 || p == 50 || p == 95) ==> i64::MIN
                    <= #[trigger] band_value(walks.walks@, u, p, price) <= i64::MAX,
        decreases num_steps - t,
    {
        let vals = par_step_values(&walks.walks, t);
        proof {
            assert(vals@ =~= step_values_of(walks.walks@, t as int));
            lemma_sorted_of_len(vals@);
        }
        let sorted_vals = sort(&vals);
        let v5 = percentile(&sorted_vals, 5);
        let v50 = percentile(&sorted_vals, 50);
        let v95 = percentile(&sorted_vals, 95);
        proof {
            let ws = walks.walks@;
            assert(sorted_vals@ == sorted_of(step_values_of(ws, t as int)));
            assert(sorted_vals@.len() == m);
            assert(band_value(ws, t as int, 5, price) == fp_mul_spec(v5 as int, price as int));
            assert(band_value(ws, t as int, 50, price) == fp_mul_spec(v50 as int, price as int));
            assert(band_value(ws, t as int, 95, price) == fp_mul_spec(v95 as int, price as int));
        }
        let b5 = match fp_mul(v5, price) {
            Some(b) => b,
            None => {
                return Err(SimulationError::NumericError);
            },
        };
        let b50 = match fp_mul(v50, price) {
            Some(b) => b,
            None => {
                return Err(SimulationError::NumericError);
            },
        };
        let b95 = match fp_mul(v95, price) {
            Some(b) => b,
            None => {
                return Err(SimulationError::NumericError);
            },
        };
        fifth.push(b5);
        fiftieth.push(b50);
        ninety_fifth.push(b95);
        t = t + 1;
    }
    Ok(
        SimulationResults {
            fifth: Walk { walk: fifth },
            fiftieth: Walk { walk: fiftieth },
            ninety_fifth: Walk { walk: ninety_fifth },
        },
    )
}

} // verus!

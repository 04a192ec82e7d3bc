//! Derives the daily growth ratios from a historical price series.

use vstd::prelude::*;
use crate::fixed::fp_div;
use crate::fixed::fp_div_spec;
use crate::models::SimulationError;

verus! {

/// Whether day `i` yields a representable growth ratio: the previous
/// price is positive and the fixed-point ratio fits the 64-bit range.
pub open spec fn ratio_ok_at(prices: Seq<i64>, i: int) -> bool {
    prices[i - 1] > 0 && i64::MIN <= fp_div_spec(prices[i] as int, prices[i - 1] as int)
        <= i64::MAX
}

/// Whether every consecutive pair of prices yields a representable
/// growth ratio.
pub open spec fn ratios_ok(prices: Seq<i64>) -> bool {
    forall|i: int| 1 <= i < prices.len() ==> #[trigger] ratio_ok_at(prices, i)
}

/// Converts a price series of length `N` into the series of its `N - 1`
/// daily growth ratios, element `i` being `prices[i + 1] / prices[i]`;
/// a series of length one or less has no ratios and yields the empty
/// series, which is not an error. Prices are assumed positive upstream;
/// a non-positive price, whose ratio would be meaningless or infinite,
/// is surfaced as a numeric failure rather than carried downstream.
pub fn daily_price_changes(prices: &Vec<i64>) -> (r: Result<Vec<i64>, SimulationError>)
    ensures
        r is Ok <==> ratios_ok(prices@),
        r is Ok ==> r->Ok_0@.len() == (if prices@.len() == 0 {
            0int
        } else {
            prices@.len() - 1
        }),
        r is Ok ==> forall|i: int|
            0 <= i < r->Ok_0@.len() ==> r->Ok_0@[i] == fp_div_spec(
                prices@[i + 1] as int,
                prices@[i] as int,
            ),
        r is Err ==> r->Err_0 == SimulationError::NumericError,
{
    let n = prices.len();
    let mut changes: Vec<i64> = Vec::new();
    if n == 0 {
        return Ok(changes);
    }
    let mut i: usize = 1;
    while i < n
        invariant
            n == prices@.len(),
            1 <= i <= n,
            changes@.len() == i - 1,
            forall|k: int| 1 <= k < i ==> #[trigger] ratio_ok_at(prices@, k),
            forall|k: int| 0 <= k < i - 1 ==> changes@[k] == fp_div_spec(
                prices@[k + 1] as int,
                prices@[k] as int,
            ),
        decreases n - i,
    {
        let prev = prices[i - 1];
        if prev <= 0 {
            proof {
                assert(!ratio_ok_at(prices@, i as int));
            }
            return Err(SimulationError::NumericError);
        }
        match fp_div(prices[i], prev) {
            Some(c) => {
                changes.push(c);
            },
            None => {
                proof {
                    assert(!ratio_ok_at(prices@, i as int));
                }
                return Err(SimulationError::NumericError);
            },
        }
        i = i + 1;
    }
    Ok(changes)
}

} // verus!

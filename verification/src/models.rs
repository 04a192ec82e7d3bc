//! Data model of the simulation core: walks, ensembles, percentile
//! bands, configuration, and the error taxonomy.

use vstd::prelude::*;

verus! {

/// The failures the core can surface.
///
/// An empty historical series is not among them: it is recovered
/// locally by the documented calibration fallback (drift `0.0`,
/// volatility `1.0`), never surfaced.
#[derive(Clone, Copy, Debug, PartialEq, Eq, Structural)]
pub enum SimulationError {
    /// Zero trials or zero steps were requested, or the ensemble's
    /// shape does not match the requested step count.
    ConfigurationError,
    /// A non-positive standard deviation was passed toward
    /// distribution construction.
    DistributionError,
    /// A value left the representable fixed-point range, the
    /// fixed-point counterpart of an infinite or not-a-number input.
    NumericError,
}

/// One simulation run's settings: asset identifier (opaque to the
/// core), starting value of each walk, trial count and step count.
pub struct Config {
    pub coin: String,
    pub start: i64,
    pub simulations: usize,
    pub steps: usize,
}

impl Config {
    pub fn new(coin: String, start: i64, simulations: usize, steps: usize) -> (c: Config)
        ensures
            c.coin == coin,
            c.start == start,
            c.simulations == simulations,
            c.steps == steps,
    {
        Config { coin, start, simulations, steps }
    }
}

/// One random walk: element 0 is the starting value, element `i` the
/// previous element times that step's sampled growth rate. Also the
/// carrier of a single percentile band, one value per step.
pub struct Walk {
    pub walk: Vec<i64>,
}

impl View for Walk {
    type V = Seq<i64>;

    open spec fn view(&self) -> Seq<i64> {
        self.walk@
    }
}

impl Walk {
    pub fn new(walk: Vec<i64>) -> (w: Self)
        ensures
            w@ == walk@,
    {
        Self { walk }
    }
}

/// The ensemble: every walk of one simulation run. Aggregation is
/// order-independent, so no meaning attaches to the order of `walks`.
pub struct RandomWalks {
    pub walks: Vec<Walk>,
}

impl RandomWalks {
    pub fn new(walks: Vec<Walk>) -> (w: Self)
        ensures
            w.walks@ == walks@,
    {
        Self { walks }
    }
}

/// The sole output of the core: the 5th, 50th and 95th percentile of
/// the ensemble at each step, all three bands of identical length.
pub struct SimulationResults {
    pub fifth: Walk,
    pub fiftieth: Walk,
    pub ninety_fifth: Walk,
}

impl SimulationResults {
    pub fn new(fifth: Walk, fiftieth: Walk, ninety_fifth: Walk) -> (r: Self)
        ensures
            r.fifth@ == fifth@,
            r.fiftieth@ == fiftieth@,
            r.ninety_fifth@ == ninety_fifth@,
    {
        Self { fifth, fiftieth, ninety_fifth }
    }
}

/// The calibrated Normal distribution: a fixed-point mean and standard
/// deviation of the historical daily growth ratios.
#[derive(Clone, Copy, Debug, PartialEq, Eq, Structural)]
pub struct DistributionParameters {
    pub mean: i64,
    pub std_dev: i64,
}

impl DistributionParameters {
    /// A sampler must fail fast on a degenerate calibration instead of
    /// emitting constant walks: a distribution is usable only when its
    /// standard deviation is strictly positive.
    pub fn validate(&self) -> (r: Result<(), SimulationError>)
        ensures
            r is Ok <==> self.std_dev > 0,
            r is Err ==> r->Err_0 == SimulationError::DistributionError,
    {
        if self.std_dev > 0 {
            Ok(())
        } else {
            Err(SimulationError::DistributionError)
        }
    }
}

} // verus!

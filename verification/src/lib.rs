//! A verified Monte Carlo engine that forecasts a near-term price
//! distribution for a tradable asset with a geometric random walk
//! calibrated from historical daily returns.
//!
//! The engine works on fixed-point values (see [`fixed`]): integers
//! admit the total order and the exact contracts that a verifier needs,
//! and the driver converts to and from its own numeric domain at the
//! boundary. The pipeline runs: raw prices to daily growth ratios
//! ([`prices`]), ratios to distribution parameters ([`statistics`]),
//! sampled growth rates to an ensemble of walks and on to percentile
//! bands ([`simulations`]).

pub mod fixed;
pub mod models;
pub mod prices;
pub mod simulations;
pub mod sorting;
pub mod statistics;

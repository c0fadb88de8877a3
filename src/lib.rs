//! Synthesis of daily OHLC (open, high, low, close) series for one instrument.
//!
//! Prices are handled in the log domain, as fixed-point integers: a log-price
//! of `x` units stands for the price `exp(x / NEPER)`. Since `exp` is
//! increasing, the highest and lowest log-prices of a path are the logs of its
//! highest and lowest prices, and what is proved of log-prices holds of prices.
//! The random draws come from the caller, so that a fixed random source gives
//! the same series on every run.
pub mod arith;
pub mod bridge;
pub mod calendar;
pub mod gbm;
pub mod params;
pub mod series;

pub use bridge::{bridge, extremes};
pub use calendar::{days_ending_on, trailing_days};
pub use gbm::simulate;
pub use params::{SimulationParams, SynthError, LOG_LIMIT, NEPER};
pub use series::{build, OhlcRow};

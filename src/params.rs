use vstd::prelude::*;

verus! {

/// Units of a log-price or a log-return per natural-log unit.
pub const NEPER: i64 = 1_000_000_000_000;

/// Largest magnitude of a log-price: beyond it the price would no longer be a
/// normal positive `f64` (it would round to zero or overflow).
pub const LOG_LIMIT: i64 = 700 * NEPER;

/// Whether a log-price stands for a positive, finite, representable price.
pub open spec fn in_range(x: int) -> bool {
    -LOG_LIMIT <= x <= LOG_LIMIT
}

/// Whether a start, a volatility and a number of periods can be simulated.
pub open spec fn valid_simulation(log_start: int, sigma: int, n_periods: nat) -> bool {
    &&& in_range(log_start)
    &&& sigma >= 0
    &&& n_periods >= 1
}

/// The ways in which a synthesis request can fail.
#[derive(Debug, Clone, Copy, PartialEq, Eq, Structural)]
pub enum SynthError {
    /// A non-positive or unrepresentable start price, a negative volatility,
    /// or fewer than one period.
    InvalidParameter,
    /// A date sequence or a batch of random draws of the wrong length.
    ShapeMismatch,
    /// A generated path left the range of representable positive prices.
    NumericDegeneracy,
}

/// The configuration of one run, in the log domain.
///
/// `log_start` is the log of the start price, `mu` the daily drift and
/// `sigma` the daily volatility, all in units of `1 / NEPER`.
#[derive(Debug, Clone, Copy, PartialEq, Eq, Structural)]
pub struct SimulationParams {
    pub log_start: i64,
    pub mu: i64,
    pub sigma: i64,
    pub n_periods: usize,
    pub n_intra_steps: usize,
}

impl SimulationParams {
    /// A representable start, a non-negative volatility and at least one period.
    pub open spec fn valid(&self) -> bool {
        valid_simulation(self.log_start as int, self.sigma as int, self.n_periods as nat)
    }

    /// Checks the parameters: `Ok` exactly when they are valid.
    pub fn validate(&self) -> (r: Result<(), SynthError>)
        ensures
            r is Ok <==> self.valid(),
            r is Err ==> r == Err::<(), SynthError>(SynthError::InvalidParameter),
    {
        if -LOG_LIMIT <= self.log_start && self.log_start <= LOG_LIMIT && self.sigma >= 0
            && self.n_periods >= 1 {
            Ok(())
        } else {
            Err(SynthError::InvalidParameter)
        }
    }
}

} // verus!

//! Daily closing log-prices by discretised geometric Brownian motion (unit time step).
use vstd::prelude::*;
use crate::arith::floor_div;
use crate::params::{in_range, valid_simulation, SynthError, LOG_LIMIT, NEPER};

verus! {

/// Bound on the magnitude of a drift or of a shock.
pub open spec fn step_bound() -> int {
    100_000_000_000_000_000_000_000_000
}

/// The deterministic part of one daily log-return: `mu - sigma^2 / 2`.
pub open spec fn drift(mu: int, sigma: int) -> int {
    mu - (sigma * sigma) / (2 * NEPER as int)
}

/// The random part of one daily log-return: `sigma * z`, for a standard normal
/// draw `z` in units of `1 / NEPER`.
pub open spec fn shock(sigma: int, z: int) -> int {
    (sigma * z) / (NEPER as int)
}

/// The closing log-price of day `t`, for the draws `z` (one per day after the first).
pub open spec fn log_close(log_start: int, mu: int, sigma: int, z: Seq<i64>, t: nat) -> int
    decreases t,
{
    if t == 0 {
        log_start
    } else {
        log_close(log_start, mu, sigma, z, (t - 1) as nat) + drift(mu, sigma)
            + shock(sigma, z[t - 1] as int)
    }
}

/// Whether the first `n` closing log-prices all stand for representable prices.
pub open spec fn closes_in_range(log_start: int, mu: int, sigma: int, z: Seq<i64>, n: nat) -> bool {
    forall|t: nat| t < n ==> in_range(#[trigger] log_close(log_start, mu, sigma, z, t))
}

/// Computes `drift(mu, sigma)`.
pub fn drift_exec(mu: i64, sigma: i64) -> (r: i128)
    requires
        sigma >= 0,
    ensures
        r == drift(mu as int, sigma as int),
        -step_bound() <= r <= step_bound(),
{
    proof {
        assert(0 <= (sigma as int) * (sigma as int) <= 0x4000_0000_0000_0000 * 0x4000_0000_0000_0000 * 4)
            by (nonlinear_arith)
            requires 0 <= sigma <= 0x7fff_ffff_ffff_ffff;
    }
    let sq: i128 = sigma as i128 * sigma as i128;
    let half: i128 = floor_div(sq, 2 * NEPER as i128);
    proof {
        assert(half <= 0x4000_0000_0000_0000 * 0x4000_0000_0000_0000 * 4 / 2_000_000_000_000)
            by (nonlinear_arith)
            requires 0 <= sq <= 0x4000_0000_0000_0000 * 0x4000_0000_0000_0000 * 4,
                half == sq / 2_000_000_000_000;
        assert(half >= 0) by (nonlinear_arith)
            requires 0 <= sq, half == sq / 2_000_000_000_000;
    }
    mu as i128 - half
}

/// Computes `shock(sigma, z)`.
pub fn shock_exec(sigma: i64, z: i64) -> (r: i128)
    ensures
        r == shock(sigma as int, z as int),
        -step_bound() <= r <= step_bound(),
{
    proof {
        let bb: int = 0x8000_0000_0000_0000;
        assert(-bb * bb <= (sigma as int) * (z as int) <= bb * bb) by (nonlinear_arith)
            requires -bb <= sigma <= bb, -bb <= z <= bb;
    }
    let m: i128 = sigma as i128 * z as i128;
    let r = floor_div(m, NEPER as i128);
    proof {
        let bb: int = 0x8000_0000_0000_0000;
        assert(-step_bound() <= r <= step_bound()) by (nonlinear_arith)
            requires -bb * bb <= m <= bb * bb, r == m / 1_000_000_000_000, bb == 0x8000_0000_0000_0000;
    }
    r
}

/// Simulates `n_periods` daily closing log-prices from `log_start`, with drift
/// `mu` and volatility `sigma`, taking the standard normal draw of day `t` from
/// `z[t - 1]`.
///
/// Fails with `InvalidParameter` on invalid parameters, with `ShapeMismatch`
/// unless there is one draw per day after the first, and with
/// `NumericDegeneracy` when a closing price leaves the representable range.
pub fn simulate(
    log_start: i64,
    mu: i64,
    sigma: i64,
    n_periods: usize,
    z: &Vec<i64>,
) -> (r: Result<Vec<i64>, SynthError>)
    ensures
        !valid_simulation(log_start as int, sigma as int, n_periods as nat)
            ==> r == Err::<Vec<i64>, SynthError>(SynthError::InvalidParameter),
        valid_simulation(log_start as int, sigma as int, n_periods as nat) && z@.len() + 1 != n_periods
            ==> r == Err::<Vec<i64>, SynthError>(SynthError::ShapeMismatch),
        valid_simulation(log_start as int, sigma as int, n_periods as nat) && z@.len() + 1 == n_periods ==> {
            &&& r is Ok <==> closes_in_range(log_start as int, mu as int, sigma as int, z@, n_periods as nat)
            &&& r is Err ==> r == Err::<Vec<i64>, SynthError>(SynthError::NumericDegeneracy)
        },
        r is Ok ==> {
            &&& r->Ok_0@.len() == n_periods
            &&& r->Ok_0@[0] == log_start
            &&& forall|t: int| 0 <= t < n_periods ==> r->Ok_0@[t] == log_close(
                log_start as int, mu as int, sigma as int, z@, t as nat)
        },
{
    if !(-LOG_LIMIT <= log_start && log_start <= LOG_LIMIT && sigma >= 0 && n_periods >= 1) {
        return Err(SynthError::InvalidParameter);
    }
    if z.len() != n_periods - 1 {
        return Err(SynthError::ShapeMismatch);
    }
    let d = drift_exec(mu, sigma);
    let mut closes: Vec<i64> = Vec::new();
    closes.push(log_start);
    let mut cur: i64 = log_start;
    let mut t: usize = 1;
    while t < n_periods
        invariant
            1 <= t <= n_periods,
            z@.len() + 1 == n_periods,
            d == drift(mu as int, sigma as int),
            -step_bound() <= d <= step_bound(),
            sigma >= 0,
            in_range(log_start as int),
            in_range(cur as int),
            closes@.len() == t,
            cur == closes@[t - 1],
            forall|s: int| 0 <= s < t ==> closes@[s] == log_close(
                log_start as int, mu as int, sigma as int, z@, s as nat),
            forall|s: int| 0 <= s < t ==> in_range(closes@[s] as int),
        decreases n_periods - t,
    {
        let next: i128 = cur as i128 + d + shock_exec(sigma, z[t - 1]);
        assert(next == log_close(log_start as int, mu as int, sigma as int, z@, t as nat));
        if next < -(LOG_LIMIT as i128) || next > LOG_LIMIT as i128 {
            return Err(SynthError::NumericDegeneracy);
        }
        cur = next as i64;
        closes.push(cur);
        t = t + 1;
    }
    proof {
        assert forall|s: nat| s < n_periods implies in_range(
            #[trigger] log_close(log_start as int, mu as int, sigma as int, z@, s)) by {
            assert(closes@[s as int] == log_close(log_start as int, mu as int, sigma as int, z@, s));
        }
    }
    Ok(closes)
}

} // verus!

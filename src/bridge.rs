//! Intraday paths pinned to a day's open and close, and their extremes.
//!
//! The path is sampled unconditionally from the given log-returns, then tilted
//! by a uniform drift so that it lands on the close. This is a drift
//! correction, not a variance-shrinking Brownian bridge.
use vstd::prelude::*;
use crate::arith::floor_div;
use crate::params::{in_range, SynthError, LOG_LIMIT};

verus! {

/// The sum of the first `i` log-returns.
pub open spec fn prefix_sum(rs: Seq<i64>, i: nat) -> int
    decreases i,
{
    if i == 0 {
        0
    } else {
        prefix_sum(rs, (i - 1) as nat) + rs[i - 1] as int
    }
}

/// Point `i` of the untilted path: `open` followed by the log-returns.
pub open spec fn trial_point(open: int, rs: Seq<i64>, i: nat) -> int {
    open + prefix_sum(rs, i)
}

/// How far the untilted path ends from `close`.
pub open spec fn shortfall(open: int, close: int, rs: Seq<i64>) -> int {
    close - trial_point(open, rs, rs.len())
}

/// Point `i` of the tilted path: the shortfall is spread uniformly over the
/// steps, rounded down to a whole unit at each point.
pub open spec fn bridge_point(open: int, close: int, rs: Seq<i64>, i: nat) -> int {
    trial_point(open, rs, i) + (i * shortfall(open, close, rs)) / (rs.len() as int)
}

/// The path that `bridge` returns for `n_steps` points and the log-returns `rs`.
pub open spec fn bridge_path(open: int, close: int, n_steps: nat, rs: Seq<i64>) -> Seq<int> {
    if n_steps < 2 {
        seq![open, close]
    } else {
        Seq::new(n_steps, |i: int| bridge_point(open, close, rs, i as nat))
    }
}

/// Whether every point of both the untilted and the tilted path stands for a
/// representable price.
pub open spec fn bridge_in_range(open: int, close: int, rs: Seq<i64>) -> bool {
    &&& forall|i: nat| i <= rs.len() ==> in_range(#[trigger] trial_point(open, rs, i))
    &&& forall|i: nat| i <= rs.len() ==> in_range(#[trigger] bridge_point(open, close, rs, i))
}

/// Whether `x` is the largest element of `s`.
pub open spec fn is_max_of(s: Seq<int>, x: int) -> bool {
    &&& forall|i: int| 0 <= i < s.len() ==> s[i] <= x
    &&& exists|i: int| 0 <= i < s.len() && s[i] == x
}

/// Whether `x` is the smallest element of `s`.
pub open spec fn is_min_of(s: Seq<int>, x: int) -> bool {
    &&& forall|i: int| 0 <= i < s.len() ==> x <= s[i]
    &&& exists|i: int| 0 <= i < s.len() && s[i] == x
}

/// A tilted path of two or more points starts exactly at the open and ends
/// exactly at the close, whatever the log-returns.
pub proof fn lemma_bridge_endpoints(open: int, close: int, n_steps: nat, rs: Seq<i64>)
    requires
        n_steps >= 2,
        rs.len() + 1 == n_steps,
    ensures
        bridge_path(open, close, n_steps, rs)[0] == open,
        bridge_path(open, close, n_steps, rs)[n_steps - 1] == close,
{
    let m = rs.len() as int;
    let s = shortfall(open, close, rs);
    assert(prefix_sum(rs, 0) == 0);
    assert((0 * s) / m == 0) by (nonlinear_arith)
        requires m > 0;
    assert((m * s) / m == s) by (nonlinear_arith)
        requires m > 0;
    assert(bridge_point(open, close, rs, 0) == open);
    assert(bridge_point(open, close, rs, rs.len()) == close);
}

/// The highest point of every path that `bridge` describes is at least the open
/// and the close, and the lowest is at most both.
pub proof fn lemma_extremes_bound_endpoints(
    open: int,
    close: int,
    n_steps: nat,
    rs: Seq<i64>,
    high: int,
    low: int,
)
    requires
        n_steps < 2 || rs.len() + 1 == n_steps,
        is_max_of(bridge_path(open, close, n_steps, rs), high),
        is_min_of(bridge_path(open, close, n_steps, rs), low),
    ensures
        low <= open,
        low <= close,
        open <= high,
        close <= high,
{
    let p = bridge_path(open, close, n_steps, rs);
    if n_steps < 2 {
        assert(p[0] == open && p[1] == close);
    } else {
        lemma_bridge_endpoints(open, close, n_steps, rs);
    }
    let last = p.len() - 1;
    assert(p[0] <= high && low <= p[0]);
    assert(p[last] <= high && low <= p[last]);
}

/// Builds the intraday log-price path of one day from `open` to `close` with
/// `n_steps` points, from the `n_steps - 1` log-returns `rs`.
///
/// The caller draws `rs` independently from a normal distribution with mean 0
/// and standard deviation `sigma / sqrt(n_steps)`, `sigma` being the daily
/// volatility. With fewer than two steps the path is `[open, close]`, whatever
/// `rs` holds.
/// Otherwise it fails with `InvalidParameter` when the open or the close is out
/// of range, with `ShapeMismatch` when `rs` has the wrong length, and with
/// `NumericDegeneracy` when the untilted or the tilted path leaves the range.
pub fn bridge(open: i64, close: i64, n_steps: usize, rs: &Vec<i64>) -> (r: Result<Vec<i64>, SynthError>)
    ensures
        n_steps < 2 ==> r is Ok && r->Ok_0@ == seq![open, close],
        n_steps >= 2 && !(in_range(open as int) && in_range(close as int)) ==> r == Err::<
            Vec<i64>,
            SynthError,
        >(SynthError::InvalidParameter),
        n_steps >= 2 && in_range(open as int) && in_range(close as int) && rs@.len() + 1 != n_steps
            ==> r == Err::<Vec<i64>, SynthError>(SynthError::ShapeMismatch),
        n_steps >= 2 && in_range(open as int) && in_range(close as int) && rs@.len() + 1 == n_steps
            ==> {
            &&& r is Ok <==> bridge_in_range(open as int, close as int, rs@)
            &&& r is Err ==> r == Err::<Vec<i64>, SynthError>(SynthError::NumericDegeneracy)
        },
        r is Ok ==> {
            let p = bridge_path(open as int, close as int, n_steps as nat, rs@);
            &&& r->Ok_0@.len() == p.len()
            &&& forall|i: int| 0 <= i < p.len() ==> r->Ok_0@[i] as int == p[i]
        },
        r is Ok && n_steps >= 2 ==> r->Ok_0@[0] == open && r->Ok_0@[n_steps - 1] == close,
{
    if n_steps < 2 {
        let mut two: Vec<i64> = Vec::new();
        two.push(open);
        two.push(close);
        return Ok(two);
    }
    if !(-LOG_LIMIT <= open && open <= LOG_LIMIT && -LOG_LIMIT <= close && close <= LOG_LIMIT) {
        return Err(SynthError::InvalidParameter);
    }
    if rs.len() != n_steps - 1 {
        return Err(SynthError::ShapeMismatch);
    }
    let m: usize = n_steps - 1;
    // The untilted path, checked point by point.
    let mut cur: i64 = open;
    let mut i: usize = 0;
    while i < m
        invariant
            i <= m,
            m == rs@.len(),
            n_steps == m + 1,
            m >= 1,
            in_range(open as int),
            in_range(close as int),
            cur as int == trial_point(open as int, rs@, i as nat),
            forall|j: nat| j <= i ==> in_range(#[trigger] trial_point(open as int, rs@, j)),
        decreases m - i,
    {
        let next: i128 = cur as i128 + rs[i] as i128;
        assert(next == trial_point(open as int, rs@, (i + 1) as nat));
        if next < -(LOG_LIMIT as i128) || next > LOG_LIMIT as i128 {
            return Err(SynthError::NumericDegeneracy);
        }
        cur = next as i64;
        i = i + 1;
    }
    let short: i128 = close as i128 - cur as i128;
    assert(short == shortfall(open as int, close as int, rs@));
    proof {
        lemma_bridge_endpoints(open as int, close as int, n_steps as nat, rs@);
    }
    // The tilted path.
    let mut path: Vec<i64> = Vec::new();
    path.push(open);
    let mut tr: i64 = open;
    let mut k: usize = 1;
    while k <= m
        invariant
            1 <= k <= m + 1,
            m == rs@.len(),
            m >= 1,
            in_range(open as int),
            in_range(close as int),
            n_steps == m + 1,
            short == shortfall(open as int, close as int, rs@),
            -2 * LOG_LIMIT <= short <= 2 * LOG_LIMIT,
            forall|j: nat| j <= m ==> in_range(#[trigger] trial_point(open as int, rs@, j)),
            tr as int == trial_point(open as int, rs@, (k - 1) as nat),
            path@.len() == k,
            bridge_path(open as int, close as int, n_steps as nat, rs@)[0] == open,
            forall|j: int| 0 <= j < k ==> path@[j] as int == bridge_point(open as int, close as int, rs@, j as nat),
            forall|j: nat| j < k ==> in_range(#[trigger] bridge_point(open as int, close as int, rs@, j)),
        decreases m + 1 - k,
    {
        assert(in_range(trial_point(open as int, rs@, k as nat)));
        tr = tr + rs[k - 1];
        proof {
            assert(-0x1_0000_0000_0000_0000 * 2 * LOG_LIMIT <= k * short <= 0x1_0000_0000_0000_0000 * 2 * LOG_LIMIT)
                by (nonlinear_arith)
                requires 0 <= k < 0x1_0000_0000_0000_0000, -2 * LOG_LIMIT <= short <= 2 * LOG_LIMIT;
        }
        let num: i128 = k as i128 * short;
        let q: i128 = floor_div(num, m as i128);
        proof {
            assert(-0x1_0000_0000_0000_0000 * 2 * LOG_LIMIT <= q <= 0x1_0000_0000_0000_0000 * 2 * LOG_LIMIT)
                by (nonlinear_arith)
                requires q == (num as int) / (m as int), m >= 1,
                    -0x1_0000_0000_0000_0000 * 2 * LOG_LIMIT <= num <= 0x1_0000_0000_0000_0000 * 2 * LOG_LIMIT;
        }
        let point: i128 = tr as i128 + q;
        assert(point == bridge_point(open as int, close as int, rs@, k as nat));
        if point < -(LOG_LIMIT as i128) || point > LOG_LIMIT as i128 {
            return Err(SynthError::NumericDegeneracy);
        }
        path.push(point as i64);
        k = k + 1;
    }
    Ok(path)
}

/// The highest and the lowest point of a non-empty path, in that order.
pub fn extremes(path: &Vec<i64>) -> (r: (i64, i64))
    requires
        path@.len() >= 1,
    ensures
        is_max_of(path@.map_values(|x: i64| x as int), r.0 as int),
        is_min_of(path@.map_values(|x: i64| x as int), r.1 as int),
{
    let mut high: i64 = path[0];
    let mut low: i64 = path[0];
    let ghost mut hi: int = 0;
    let ghost mut lo: int = 0;
    let mut i: usize = 1;
    while i < path.len()
        invariant
            1 <= i <= path@.len(),
            forall|j: int| 0 <= j < i ==> path@[j] <= high,
            forall|j: int| 0 <= j < i ==> low <= path@[j],
            0 <= hi < i && path@[hi] == high,
            0 <= lo < i && path@[lo] == low,
        decreases path@.len() - i,
    {
        if path[i] > high {
            high = path[i];
            proof { hi = i as int; }
        }
        if path[i] < low {
            low = path[i];
            proof { lo = i as int; }
        }
        i = i + 1;
    }
    let ghost s = path@.map_values(|x: i64| x as int);
    assert(forall|j: int| 0 <= j < s.len() ==> s[j] == path@[j] as int);
    assert(s[hi] == high as int);
    assert(s[lo] == low as int);
    (high, low)
}

} // verus!

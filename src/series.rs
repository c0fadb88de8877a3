//! Daily OHLC rows: the closes of the daily simulation, each day opened at the
//! previous close, with its high and low taken from an intraday path.
use vstd::prelude::*;
use crate::bridge::{
    bridge, bridge_in_range, bridge_path, extremes, is_max_of, is_min_of,
    lemma_extremes_bound_endpoints,
};
use crate::gbm::{closes_in_range, log_close, simulate};
use crate::params::{SimulationParams, SynthError};

verus! {

/// One day of the series: a day number (days since 1970-01-01) and four
/// log-prices.
#[derive(Debug, Clone, Copy, PartialEq, Eq, Structural)]
pub struct OhlcRow {
    pub date: i64,
    pub open: i64,
    pub high: i64,
    pub low: i64,
    pub close: i64,
}

impl OhlcRow {
    /// The low is at most the open and the close, and the high at least both.
    pub open spec fn bounded(&self) -> bool {
        &&& self.low <= self.open
        &&& self.low <= self.close
        &&& self.open <= self.high
        &&& self.close <= self.high
    }
}

/// The closing log-price of day `i`.
pub open spec fn day_close(p: SimulationParams, z: Seq<i64>, i: nat) -> int {
    log_close(p.log_start as int, p.mu as int, p.sigma as int, z, i)
}

/// The opening log-price of day `i`: the start for the first day, the previous
/// close after it.
pub open spec fn day_open(p: SimulationParams, z: Seq<i64>, i: nat) -> int {
    if i == 0 {
        p.log_start as int
    } else {
        day_close(p, z, (i - 1) as nat)
    }
}

/// The intraday path of day `i`, drawn from the log-returns `rss[i]`.
pub open spec fn day_path(p: SimulationParams, z: Seq<i64>, rss: Seq<Vec<i64>>, i: nat) -> Seq<int> {
    bridge_path(day_open(p, z, i), day_close(p, z, i), p.n_intra_steps as nat, rss[i as int]@)
}

/// Whether the dates and the draws have the lengths that the parameters ask for.
pub open spec fn shapes_ok(p: SimulationParams, dates: Seq<i64>, z: Seq<i64>, rss: Seq<Vec<i64>>) -> bool {
    &&& dates.len() == p.n_periods
    &&& z.len() + 1 == p.n_periods
    &&& rss.len() == p.n_periods
    &&& p.n_intra_steps >= 2 ==> forall|i: int|
        0 <= i < rss.len() ==> #[trigger] rss[i]@.len() + 1 == p.n_intra_steps
}

/// Whether every daily close and every intraday path stays representable.
pub open spec fn series_in_range(p: SimulationParams, z: Seq<i64>, rss: Seq<Vec<i64>>) -> bool {
    &&& closes_in_range(p.log_start as int, p.mu as int, p.sigma as int, z, p.n_periods as nat)
    &&& p.n_intra_steps >= 2 ==> forall|i: nat|
        i < p.n_periods ==> bridge_in_range(
            day_open(p, z, i),
            day_close(p, z, i),
            #[trigger] rss[i as int]@,
        )
}

/// Whether `rows` is the series that the parameters, dates and draws determine.
pub open spec fn is_series_of(
    p: SimulationParams,
    dates: Seq<i64>,
    z: Seq<i64>,
    rss: Seq<Vec<i64>>,
    rows: Seq<OhlcRow>,
) -> bool {
    &&& rows.len() == p.n_periods
    &&& rows_agree(p, dates, z, rss, rows)
}

/// Whether each row of `rows` is the row of its day (the first days of a series).
pub open spec fn rows_agree(
    p: SimulationParams,
    dates: Seq<i64>,
    z: Seq<i64>,
    rss: Seq<Vec<i64>>,
    rows: Seq<OhlcRow>,
) -> bool {
    forall|i: int|
        0 <= i < rows.len() ==> {
            &&& (#[trigger] rows[i]).date == dates[i]
            &&& rows[i].open == day_open(p, z, i as nat)
            &&& rows[i].close == day_close(p, z, i as nat)
            &&& is_max_of(day_path(p, z, rss, i as nat), rows[i].high as int)
            &&& is_min_of(day_path(p, z, rss, i as nat), rows[i].low as int)
        }
}

/// In every series each day opens at the previous close, the first at the
/// start, and each row's high and low bound its open and its close.
pub proof fn lemma_series_chained_and_bounded(
    p: SimulationParams,
    dates: Seq<i64>,
    z: Seq<i64>,
    rss: Seq<Vec<i64>>,
    rows: Seq<OhlcRow>,
)
    requires
        p.valid(),
        shapes_ok(p, dates, z, rss),
        is_series_of(p, dates, z, rss, rows),
    ensures
        rows[0].open == p.log_start,
        forall|i: int| 0 < i < rows.len() ==> #[trigger] rows[i].open == rows[i - 1].close,
        forall|i: int| 0 <= i < rows.len() ==> (#[trigger] rows[i]).bounded(),
{
    assert(rows[0].open == day_open(p, z, 0));
    assert forall|i: int| 0 < i < rows.len() implies #[trigger] rows[i].open == rows[i - 1].close by {
        assert(rows[i - 1].close == day_close(p, z, (i - 1) as nat));
        assert(rows[i].open == day_open(p, z, i as nat));
    }
    assert forall|i: int| 0 <= i < rows.len() implies (#[trigger] rows[i]).bounded() by {
        lemma_extremes_bound_endpoints(
            day_open(p, z, i as nat),
            day_close(p, z, i as nat),
            p.n_intra_steps as nat,
            rss[i]@,
            rows[i].high as int,
            rows[i].low as int,
        );
    }
}

/// The series is a function of the parameters, the dates and the draws alone:
/// two series built from the same inputs are equal, row for row.
pub proof fn lemma_series_deterministic(
    p: SimulationParams,
    dates: Seq<i64>,
    z: Seq<i64>,
    rss: Seq<Vec<i64>>,
    a: Seq<OhlcRow>,
    b: Seq<OhlcRow>,
)
    requires
        is_series_of(p, dates, z, rss, a),
        is_series_of(p, dates, z, rss, b),
    ensures
        a == b,
{
    assert forall|i: int| 0 <= i < a.len() implies a[i] == b[i] by {
        let s = day_path(p, z, rss, i as nat);
        assert(is_max_of(s, a[i].high as int) && is_max_of(s, b[i].high as int));
        let (ja, jb) = (choose|j: int| 0 <= j < s.len() && s[j] == a[i].high,
            choose|j: int| 0 <= j < s.len() && s[j] == b[i].high);
        assert(s[ja] <= b[i].high && s[jb] <= a[i].high);
        assert(is_min_of(s, a[i].low as int) && is_min_of(s, b[i].low as int));
        let (ka, kb) = (choose|j: int| 0 <= j < s.len() && s[j] == a[i].low,
            choose|j: int| 0 <= j < s.len() && s[j] == b[i].low);
        assert(b[i].low <= s[ka] && a[i].low <= s[kb]);
    }
    assert(a =~= b);
}

/// Builds the series of `params.n_periods` rows for the day numbers `dates`,
/// from the daily standard normal draws `z` and the intraday log-returns
/// `intraday[i]` of each day `i`.
pub fn build(
    params: &SimulationParams,
    dates: &Vec<i64>,
    z: &Vec<i64>,
    intraday: &Vec<Vec<i64>>,
) -> (r: Result<Vec<OhlcRow>, SynthError>)
    ensures
        !params.valid() ==> r == Err::<Vec<OhlcRow>, SynthError>(SynthError::InvalidParameter),
        params.valid() && !shapes_ok(*params, dates@, z@, intraday@) ==> r == Err::<
            Vec<OhlcRow>,
            SynthError,
        >(SynthError::ShapeMismatch),
        params.valid() && shapes_ok(*params, dates@, z@, intraday@) ==> {
            &&& r is Ok <==> series_in_range(*params, z@, intraday@)
            &&& r is Err ==> r == Err::<Vec<OhlcRow>, SynthError>(SynthError::NumericDegeneracy)
        },
        r is Ok ==> is_series_of(*params, dates@, z@, intraday@, r->Ok_0@),
        r is Ok ==> {
            let rows = r->Ok_0@;
            &&& rows[0].open == params.log_start
            &&& forall|i: int| 0 < i < rows.len() ==> #[trigger] rows[i].open == rows[i - 1].close
            &&& forall|i: int| 0 <= i < rows.len() ==> (#[trigger] rows[i]).bounded()
        },
        r is Ok && params.n_intra_steps < 2 ==> forall|i: int|
            0 <= i < r->Ok_0@.len() ==> {
                let row = #[trigger] r->Ok_0@[i];
                &&& row.high == if row.open >= row.close { row.open } else { row.close }
                &&& row.low == if row.open <= row.close { row.open } else { row.close }
            },
{
    if params.validate().is_err() {
        return Err(SynthError::InvalidParameter);
    }
    let n = params.n_periods;
    if dates.len() != n || z.len() != n - 1 || intraday.len() != n {
        return Err(SynthError::ShapeMismatch);
    }
    if params.n_intra_steps >= 2 {
        let mut j: usize = 0;
        while j < n
            invariant
                j <= n,
                params.valid(),
                params.n_intra_steps >= 2,
                n == params.n_periods,
                intraday@.len() == n,
                forall|i: int| 0 <= i < j ==> #[trigger] intraday@[i]@.len() + 1 == params.n_intra_steps,
            decreases n - j,
        {
            if intraday[j].len() != params.n_intra_steps - 1 {
                return Err(SynthError::ShapeMismatch);
            }
            j = j + 1;
        }
    }
    assert(shapes_ok(*params, dates@, z@, intraday@));
    let closes = match simulate(params.log_start, params.mu, params.sigma, n, z) {
        Ok(c) => c,
        Err(e) => {
            return Err(e);
        },
    };
    let mut rows: Vec<OhlcRow> = Vec::new();
    let mut prev: i64 = params.log_start;
    let mut i: usize = 0;
    while i < n
        invariant
            params.valid(),
            n == params.n_periods,
            shapes_ok(*params, dates@, z@, intraday@),
            closes_in_range(params.log_start as int, params.mu as int, params.sigma as int, z@, n as nat),
            closes@.len() == n,
            forall|t: int| 0 <= t < n ==> closes@[t] == day_close(*params, z@, t as nat),
            i <= n,
            prev == day_open(*params, z@, i as nat),
            params.n_intra_steps >= 2 ==> forall|t: nat|
                t < i ==> bridge_in_range(
                    day_open(*params, z@, t),
                    day_close(*params, z@, t),
                    #[trigger] intraday@[t as int]@,
                ),
            rows@.len() == i,
            rows_agree(*params, dates@, z@, intraday@, rows@),
            rows@.len() == 0 || rows@[0].open == params.log_start,
            forall|t: int| 0 < t < rows@.len() ==> #[trigger] rows@[t].open == rows@[t - 1].close,
            forall|t: int| 0 <= t < rows@.len() ==> (#[trigger] rows@[t]).bounded(),
            params.n_intra_steps < 2 ==> forall|t: int|
                0 <= t < rows@.len() ==> {
                    let row = #[trigger] rows@[t];
                    &&& row.high == if row.open >= row.close { row.open } else { row.close }
                    &&& row.low == if row.open <= row.close { row.open } else { row.close }
                },
        decreases n - i,
    {
        let open = prev;
        let close = closes[i];
        assert(close == day_close(*params, z@, i as nat));
        assert(crate::params::in_range(close as int));
        let path = match bridge(open, close, params.n_intra_steps, &intraday[i]) {
            Ok(p) => p,
            Err(e) => {
                return Err(e);
            },
        };
        let (high, low) = extremes(&path);
        let ghost dp = day_path(*params, z@, intraday@, i as nat);
        assert(path@.map_values(|x: i64| x as int) =~= dp);
        proof {
            lemma_extremes_bound_endpoints(
                open as int,
                close as int,
                params.n_intra_steps as nat,
                intraday@[i as int]@,
                high as int,
                low as int,
            );
        }
        proof {
            if i > 0 {
                assert(rows@[i - 1].close == day_close(*params, z@, (i - 1) as nat));
            }
        }
        let row = OhlcRow { date: dates[i], open, high, low, close };
        rows.push(row);
        prev = close;
        i = i + 1;
    }
    Ok(rows)
}

} // verus!

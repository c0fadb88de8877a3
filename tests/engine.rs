use ohlc_synth::{
    bridge, build, days_ending_on, extremes, simulate, trailing_days, OhlcRow, SimulationParams,
    SynthError, LOG_LIMIT, NEPER,
};

fn log_of(price: f64) -> i64 {
    (price.ln() * NEPER as f64).round() as i64
}

fn price_of(log_price: i64) -> f64 {
    (log_price as f64 / NEPER as f64).exp()
}

fn params(log_start: i64, mu: i64, sigma: i64, n_periods: usize, n_intra_steps: usize) -> SimulationParams {
    SimulationParams { log_start, mu, sigma, n_periods, n_intra_steps }
}

#[test]
fn validate_accepts_and_rejects() {
    assert_eq!(params(0, 0, 0, 1, 0).validate(), Ok(()));
    assert_eq!(params(0, 0, -1, 1, 0).validate(), Err(SynthError::InvalidParameter));
    assert_eq!(params(0, 0, 0, 0, 0).validate(), Err(SynthError::InvalidParameter));
    assert_eq!(params(LOG_LIMIT + 1, 0, 0, 1, 0).validate(), Err(SynthError::InvalidParameter));
    assert_eq!(params(-LOG_LIMIT, 0, 0, 1, 0).validate(), Ok(()));
}

#[test]
fn simulate_starts_at_start_price() {
    let start = log_of(100.0);
    let closes = simulate(start, 3, 7, 4, &vec![NEPER, -NEPER, 5]).unwrap();
    assert_eq!(closes.len(), 4);
    assert_eq!(closes[0], start);
}

#[test]
fn simulate_zero_volatility_is_pure_drift() {
    assert_eq!(simulate(10, 5, 0, 3, &vec![NEPER, -NEPER]), Ok(vec![10, 15, 20]));
}

#[test]
fn simulate_applies_ito_correction_and_shock() {
    // sigma = 1: drift = -1/2, shock = z.
    let closes = simulate(0, 0, NEPER, 2, &vec![NEPER]).unwrap();
    assert_eq!(closes, vec![0, NEPER / 2]);
    // A shock of -3e-12 nepers rounds down to -1 unit.
    assert_eq!(simulate(0, 0, 3, 2, &vec![-1]).unwrap(), vec![0, -1]);
}

#[test]
fn simulate_reports_errors() {
    assert_eq!(simulate(0, 0, -1, 2, &vec![0]), Err(SynthError::InvalidParameter));
    assert_eq!(simulate(0, 0, 0, 0, &vec![]), Err(SynthError::InvalidParameter));
    assert_eq!(simulate(0, 0, 0, 3, &vec![0]), Err(SynthError::ShapeMismatch));
    assert_eq!(simulate(0, LOG_LIMIT, 0, 3, &vec![0, 0]), Err(SynthError::NumericDegeneracy));
    assert_eq!(simulate(0, -LOG_LIMIT - 1, 0, 2, &vec![0]), Err(SynthError::NumericDegeneracy));
}

#[test]
fn bridge_short_path_is_open_then_close() {
    assert_eq!(bridge(3, 9, 0, &vec![]), Ok(vec![3, 9]));
    assert_eq!(bridge(3, 9, 1, &vec![1, 2, 3]), Ok(vec![3, 9]));
    assert_eq!(bridge(LOG_LIMIT + 5, 9, 1, &vec![]), Ok(vec![LOG_LIMIT + 5, 9]));
}

#[test]
fn bridge_spreads_shortfall_uniformly() {
    // Untilted path 0, 4, 8; shortfall 2 spread as 1 per step.
    assert_eq!(bridge(0, 10, 3, &vec![4, 4]), Ok(vec![0, 5, 10]));
    // Untilted path 0, 1, 2, 3; shortfall -3.
    assert_eq!(bridge(0, 0, 4, &vec![1, 1, 1]), Ok(vec![0, 0, 0, 0]));
    // Untilted path 0, 1, 1; shortfall -1 rounds down at the middle point.
    assert_eq!(bridge(0, 0, 3, &vec![1, 0]), Ok(vec![0, 0, 0]));
    assert_eq!(bridge(7, -2, 2, &vec![100]), Ok(vec![7, -2]));
}

#[test]
fn bridge_pins_both_endpoints() {
    let open = log_of(101.5);
    let close = log_of(99.25);
    let rs = vec![NEPER / 50, -NEPER / 70, NEPER / 30, 12345, -NEPER / 10];
    let path = bridge(open, close, 6, &rs).unwrap();
    assert_eq!(path.len(), 6);
    assert_eq!(path[0], open);
    assert_eq!(path[5], close);
    assert!((price_of(path[5]) - 99.25).abs() <= 1e-9 * 99.25);
}

#[test]
fn bridge_extremes_bound_endpoints() {
    let (open, close) = (500, -300);
    let path = bridge(open, close, 5, &vec![-2000, 4000, -10, 7]).unwrap();
    let (high, low) = extremes(&path);
    assert!(low <= open && low <= close);
    assert!(high >= open && high >= close);
}

#[test]
fn bridge_reports_errors() {
    assert_eq!(bridge(LOG_LIMIT + 1, 0, 3, &vec![0, 0]), Err(SynthError::InvalidParameter));
    assert_eq!(bridge(0, -LOG_LIMIT - 1, 3, &vec![0, 0]), Err(SynthError::InvalidParameter));
    assert_eq!(bridge(0, 0, 3, &vec![0]), Err(SynthError::ShapeMismatch));
    assert_eq!(bridge(0, 0, 3, &vec![LOG_LIMIT + 1, 0]), Err(SynthError::NumericDegeneracy));
    // The untilted path stays in range, the tilted one does not.
    assert_eq!(
        bridge(LOG_LIMIT, LOG_LIMIT, 3, &vec![0, -2 * LOG_LIMIT]),
        Err(SynthError::NumericDegeneracy)
    );
}

#[test]
fn extremes_of_path() {
    assert_eq!(extremes(&vec![4]), (4, 4));
    assert_eq!(extremes(&vec![3, -1, 8, 8, 2]), (8, -1));
}

#[test]
fn flat_series_from_zero_volatility() {
    let start = log_of(100.0);
    let p = params(start, 0, 0, 3, 2);
    let rows = build(&p, &vec![1, 2, 3], &vec![NEPER, -NEPER], &vec![vec![0], vec![0], vec![0]]).unwrap();
    assert_eq!(rows.len(), 3);
    for (i, row) in rows.iter().enumerate() {
        assert_eq!(*row, OhlcRow { date: i as i64 + 1, open: start, high: start, low: start, close: start });
        assert!((price_of(row.close) - 100.0).abs() < 1e-9);
    }
}

#[test]
fn single_intraday_step_uses_open_and_close() {
    let p = params(0, 0, NEPER / 10, 3, 1);
    let z = vec![NEPER, -2 * NEPER];
    let closes = simulate(0, 0, NEPER / 10, 3, &z).unwrap();
    let rows = build(&p, &vec![10, 11, 12], &z, &vec![vec![], vec![], vec![]]).unwrap();
    let mut prev = 0;
    for (i, row) in rows.iter().enumerate() {
        assert_eq!(row.open, prev);
        assert_eq!(row.close, closes[i]);
        assert_eq!(row.high, row.open.max(row.close));
        assert_eq!(row.low, row.open.min(row.close));
        prev = row.close;
    }
    assert_ne!(rows[1].open, rows[1].close);
}

#[test]
fn series_chains_close_to_open_and_bounds_rows() {
    let p = params(log_of(50.0), NEPER / 200, NEPER / 12, 4, 4);
    let z = vec![NEPER / 3, -NEPER, 2 * NEPER];
    let rss = vec![
        vec![NEPER / 40, -NEPER / 40, NEPER / 20],
        vec![-NEPER / 25, NEPER / 30, 0],
        vec![NEPER / 10, NEPER / 10, -NEPER / 5],
        vec![1, -1, 1],
    ];
    let rows = build(&p, &vec![100, 101, 102, 103], &z, &rss).unwrap();
    assert_eq!(rows.len(), 4);
    assert_eq!(rows[0].open, p.log_start);
    assert_eq!(rows[0].close, p.log_start);
    for i in 1..rows.len() {
        assert_eq!(rows[i].open, rows[i - 1].close);
    }
    for row in &rows {
        assert!(row.low <= row.open && row.low <= row.close);
        assert!(row.high >= row.open && row.high >= row.close);
        assert!(price_of(row.low) <= price_of(row.open) && price_of(row.high) >= price_of(row.close));
    }
    // Day 2 rises above both its open and its close along the way.
    assert!(rows[2].high > rows[2].open.max(rows[2].close));
}

#[test]
fn series_is_deterministic_for_fixed_draws() {
    let p = params(log_of(100.0), NEPER / 1000, NEPER / 20, 3, 3);
    let z = vec![NEPER / 7, -NEPER / 3];
    let rss = vec![vec![11, -22], vec![NEPER / 50, -NEPER / 60], vec![-5, 5]];
    let dates = vec![7, 8, 9];
    assert_eq!(build(&p, &dates, &z, &rss), build(&p, &dates, &z, &rss));
}

#[test]
fn series_reports_errors() {
    let ok = params(0, 0, 0, 2, 2);
    let rss = vec![vec![0], vec![0]];
    assert_eq!(build(&params(0, 0, -1, 2, 2), &vec![1, 2], &vec![0], &rss), Err(SynthError::InvalidParameter));
    assert_eq!(build(&ok, &vec![1], &vec![0], &rss), Err(SynthError::ShapeMismatch));
    assert_eq!(build(&ok, &vec![1, 2, 3], &vec![0], &rss), Err(SynthError::ShapeMismatch));
    assert_eq!(build(&ok, &vec![1, 2], &vec![], &rss), Err(SynthError::ShapeMismatch));
    assert_eq!(build(&ok, &vec![1, 2], &vec![0], &vec![vec![0], vec![0, 0]]), Err(SynthError::ShapeMismatch));
    assert_eq!(
        build(&params(0, LOG_LIMIT, 0, 3, 2), &vec![1, 2, 3], &vec![0, 0], &vec![vec![0], vec![0], vec![0]]),
        Err(SynthError::NumericDegeneracy)
    );
    assert_eq!(
        build(&ok, &vec![1, 2], &vec![0], &vec![vec![0], vec![LOG_LIMIT + 1]]),
        Err(SynthError::NumericDegeneracy)
    );
}

#[test]
fn trailing_days_end_on_last() {
    assert_eq!(trailing_days(10, 3), vec![8, 9, 10]);
    assert_eq!(trailing_days(10, 0), Vec::<i64>::new());
}

#[test]
fn days_ending_on_calendar_date() {
    assert_eq!(days_ending_on(2024, 12, 31, 3), Some(vec![20086, 20087, 20088]));
    assert_eq!(days_ending_on(1970, 1, 1, 1), Some(vec![0]));
    assert_eq!(days_ending_on(2024, 2, 29, 1), Some(vec![19782]));
    assert_eq!(days_ending_on(1, 1, 1, 2), Some(vec![-719163, -719162]));
    assert_eq!(days_ending_on(0, 3, 1, 1), Some(vec![-719468]));
    assert_eq!(days_ending_on(2023, 2, 29, 1), None);
    assert_eq!(days_ending_on(2024, 13, 1, 1), None);
}

use statrs::distribution::{ContinuousCDF, StudentsT};
use trading23::aggregate::{
    bucket_report, bucket_returns, BucketKey, BucketMoments, BucketReport, CompressionBands,
};
use trading23::bar::Ohlc;
use trading23::classifier::{
    classify, classify_status, standardized_range_diff, BreakoutEvent, LongShortControl, Status,
};
use trading23::driver::{
    backtest_instrument, backtest_range, BacktestAnalyzer, BacktestRecord, LOOKBACK,
};
use trading23::regime::{RegimeLabel, TopixDailyWindowList2};
use trading23::simulator::{simulate, simulate_event, SimulatedOutcome, FORWARD_BARS};
use trading23::window::{make_window, AnchorWindow, BacktestError};

fn bar(date: i32, open: u32, high: u32, low: u32, close: u32) -> Ohlc {
    Ohlc::from_day_number(date, open, high, low, close).unwrap()
}

fn flat(date: i32, price: u32) -> Ohlc {
    bar(date, price, price, price, price)
}

/// 59 flat bars at `price`, then an anchor opening at `price` and closing at `close`.
fn breakout_history(price: u32, close: u32) -> Vec<Ohlc> {
    let mut h: Vec<Ohlc> = (0..59).map(|d| flat(d, price)).collect();
    let (high, low) = if close >= price { (close, price) } else { (price, close) };
    h.push(bar(59, price, high, low, close));
    h
}

fn cdf_milli(values: &[i64]) -> u32 {
    let xs: Vec<f64> = values.iter().map(|v| *v as f64 / 100.0).collect();
    let n = xs.len() as f64;
    let mean = xs.iter().sum::<f64>() / n;
    let var = xs.iter().map(|x| (x - mean) * (x - mean)).sum::<f64>() / (n - 1.0);
    let t = mean / (var / n).sqrt();
    let dist = StudentsT::new(0.0, 1.0, n - 1.0).unwrap();
    (dist.cdf(t) * 1000.0).round() as u32
}

#[test]
fn window_boundary_at_sixty_bars() {
    let series: Vec<Ohlc> = (0..100).map(|d| flat(d, 100)).collect();
    // exactly 59 bars before the anchor: not enough history
    let short = make_window(&series, 59, LOOKBACK, FORWARD_BARS);
    assert!(matches!(short, Err(BacktestError::InsufficientHistory)));
    // exactly 60 bars before it: the window is the 60 bars ending with the anchor
    let w = make_window(&series, 60, LOOKBACK, FORWARD_BARS).unwrap();
    assert_eq!(w.history.len(), 60);
    assert_eq!(w.history[0].date, 1);
    assert_eq!(w.history[59].date, 60);
    assert_eq!(w.forward.len(), 21);
    assert_eq!(w.forward[0].date, 61);
}

#[test]
fn window_without_enough_future() {
    let series: Vec<Ohlc> = (0..81).map(|d| flat(d, 100)).collect();
    assert!(matches!(
        make_window(&series, 60, LOOKBACK, FORWARD_BARS),
        Err(BacktestError::InsufficientFuture)
    ));
    let series: Vec<Ohlc> = (0..82).map(|d| flat(d, 100)).collect();
    assert!(make_window(&series, 60, LOOKBACK, FORWARD_BARS).is_ok());
    assert!(matches!(
        make_window(&series, 200, LOOKBACK, FORWARD_BARS),
        Err(BacktestError::InsufficientFuture)
    ));
}

#[test]
fn flat_bars_then_breakout_is_long() {
    let history = breakout_history(100, 110);
    assert_eq!(classify(&history), LongShortControl::Long);
    let window = AnchorWindow { history, forward: vec![] };
    let event = BreakoutEvent::from_window(&window).unwrap();
    assert_eq!(event.direction, LongShortControl::Long);
    assert_eq!(event.anchor_date, 59);
    // (110 - 100) * 0.38 = 3.8 ticks, in hundredths of a tick
    assert_eq!(event.stop_distance_38, 380);
    assert_eq!(event.stop_distance_50, 500);
    assert_eq!(event.stop_distance_62, 620);
    // mean range 10 / 60 over a range of 10: 0.016 truncated
    assert_eq!(event.standardized_range_diff, 16);
}

#[test]
fn breakdown_is_short() {
    let history = breakout_history(100, 90);
    assert_eq!(classify(&history), LongShortControl::Short);
    let event = BreakoutEvent::from_window(&AnchorWindow { history, forward: vec![] }).unwrap();
    assert_eq!(event.direction, LongShortControl::Short);
    assert_eq!(event.stop_distance_50, 500);
}

#[test]
fn flat_control_window_reports_zero_stop_distance() {
    let history: Vec<Ohlc> = (0..60).map(|d| flat(d, 100)).collect();
    assert_eq!(classify(&history), LongShortControl::Control);
    let r = BreakoutEvent::from_window(&AnchorWindow { history, forward: vec![] });
    assert_eq!(r, Err(BacktestError::ZeroStopDistance));
}

#[test]
fn short_history_cannot_be_classified() {
    let history: Vec<Ohlc> = (0..19).map(|d| flat(d, 100)).collect();
    let r = BreakoutEvent::from_window(&AnchorWindow { history, forward: vec![] });
    assert_eq!(r, Err(BacktestError::InsufficientHistory));
}

#[test]
fn gap_adjustment_widens_the_range() {
    // The second bar gaps up: its adjusted low reaches down to the prior close.
    let bars = vec![bar(0, 100, 100, 100, 100), bar(1, 120, 120, 120, 120)];
    // ranges 0 and 20 over a whole range of 20, over two bars: 0.5
    assert_eq!(standardized_range_diff(&bars), Some(500));
    let flat_bars = vec![flat(0, 100), flat(1, 100)];
    assert_eq!(standardized_range_diff(&flat_bars), None);
}

#[test]
fn failed_breakouts_are_told_apart() {
    let mut h: Vec<Ohlc> = (0..19).map(|d| bar(d, 100, 110, 90, 100)).collect();
    h.push(bar(19, 100, 115, 95, 105));
    assert_eq!(classify_status(&h), Status::FailedBreakoutResistance);
    h[19] = bar(19, 100, 105, 85, 95);
    assert_eq!(classify_status(&h), Status::FailedBreakoutSupport);
    h[19] = bar(19, 100, 115, 95, 112);
    assert_eq!(classify_status(&h), Status::BreakoutResistance);
    h[19] = bar(19, 100, 105, 80, 88);
    assert_eq!(classify_status(&h), Status::BreakoutSupport);
    h[19] = bar(19, 100, 105, 95, 100);
    assert_eq!(classify_status(&h), Status::NoChange);
}

/// Forward bars opening at 11000; day 2 dips to `dip`; day 5 closes at `close5`.
fn forward_path(dip: u32, close5: u32) -> Vec<Ohlc> {
    (0..21)
        .map(|i| match i {
            2 => bar(100 + i, 11000, 11000, dip, 11000),
            5 => bar(100 + i, 11000, close5.max(11000), 11000.min(close5), close5),
            _ => flat(100 + i, 11000),
        })
        .collect()
}

#[test]
fn stop_breach_gives_minus_one_whatever_the_close() {
    // stop distance 380 ticks (38000 hundredths); day 2's low is 500 ticks under the open
    let fwd = forward_path(10500, 13000);
    assert_eq!(simulate(LongShortControl::Long, &fwd, 38000, 5), Some(-100));
    assert_eq!(simulate(LongShortControl::Long, &fwd, 38000, 20), Some(-100));
}

#[test]
fn close_based_return_is_rounded() {
    // no breach: (11190 - 11000) / 380 = 0.5
    let fwd = forward_path(10700, 11190);
    assert_eq!(simulate(LongShortControl::Long, &fwd, 38000, 5), Some(50));
    // a short gains when the price falls: (10810 - 11000) / 380 = -0.5, flipped
    let fwd = forward_path(11000, 10810);
    assert_eq!(simulate(LongShortControl::Short, &fwd, 38000, 5), Some(50));
    // half a hundredth rounds away from zero: 2 / 400 = 0.005
    let fwd = forward_path(11000, 11002);
    assert_eq!(simulate(LongShortControl::Long, &fwd, 40000, 5), Some(1));
    // a path too short for the horizon has no outcome
    assert_eq!(simulate(LongShortControl::Long, &fwd[..5].to_vec(), 40000, 5), None);
}

#[test]
fn stop_exactly_at_the_distance_is_not_breached() {
    // low exactly 380 ticks under the open: ratio -1.0, not below it
    let fwd = forward_path(10620, 11000);
    assert_eq!(simulate(LongShortControl::Long, &fwd, 38000, 5), Some(0));
}

#[test]
fn event_outcomes_cover_the_grid() {
    let event = BreakoutEvent {
        anchor_date: 99,
        direction: LongShortControl::Long,
        stop_distance_38: 38000,
        stop_distance_50: 50000,
        stop_distance_62: 62000,
        standardized_range_diff: 100,
    };
    let fwd = forward_path(10700, 11190);
    let outs = simulate_event(&event, &fwd);
    assert_eq!(outs.len(), 9);
    let keys: Vec<(usize, u32)> = outs.iter().map(|o| (o.horizon, o.stop_fraction)).collect();
    assert_eq!(
        keys,
        vec![(5, 38), (5, 50), (5, 62), (10, 38), (10, 50), (10, 62), (20, 38), (20, 50), (20, 62)]
    );
    assert_eq!(outs[0].normalized_return, 50);
    // 190 / 500 = 0.38
    assert_eq!(outs[1].normalized_return, 38);
    // with 12 forward bars only horizons 5 and 10 are defined
    assert_eq!(simulate_event(&event, &fwd[..12].to_vec()).len(), 6);
}

/// A series: 60 flat bars, a breakout on day 60, then 30 bars at its close.
fn instrument(close: u32) -> Vec<Ohlc> {
    let mut bars: Vec<Ohlc> = (0..60).map(|d| flat(d, 10000)).collect();
    bars.push(bar(60, 10000, close.max(10000), close.min(10000), close));
    for d in 61..91 {
        bars.push(flat(d, close));
    }
    bars
}

#[test]
fn driver_keeps_only_breakouts_in_range() {
    let bars = instrument(11000);
    let run = backtest_range(&bars, 0, 1000);
    let records = run.records;
    assert_eq!(records.len(), 1);
    assert_eq!(records[0].event.anchor_date, 60);
    assert_eq!(records[0].event.direction, LongShortControl::Long);
    assert_eq!(records[0].outcomes.len(), 9);
    // after the breakout the series goes flat: once the last 20 bars are all at one
    // price (anchors 80 on, up to 84, the last with six forward bars), the control
    // day's stop range is zero and the day is reported
    assert_eq!(run.flat_days, vec![80, 81, 82, 83, 84]);
    assert!(backtest_range(&bars, 61, 79).records.is_empty());
    assert!(backtest_range(&bars, 61, 79).flat_days.is_empty());
    let flat = backtest_range(&instrument(10000), 0, 1000);
    assert!(flat.records.is_empty());
    assert_eq!(flat.flat_days, (60..=84).collect::<Vec<i32>>());
}

#[test]
fn short_forward_path_keeps_the_defined_horizons() {
    // ten bars after the breakout: horizon 5 is defined, 10 and 20 are not
    let bars: Vec<Ohlc> = instrument(11000)[..71].to_vec();
    let run = backtest_range(&bars, 0, 1000);
    assert_eq!(run.records.len(), 1);
    assert_eq!(run.records[0].outcomes.len(), 3);
    assert!(run.records[0].outcomes.iter().all(|o| o.horizon == 5));
    // five bars after it: not even the shortest horizon
    let bars: Vec<Ohlc> = instrument(11000)[..66].to_vec();
    assert!(backtest_range(&bars, 0, 1000).records.is_empty());
}

#[test]
fn driver_reads_dates_as_text() {
    let bars = instrument(9000);
    assert!(backtest_instrument(&bars, "2024-13-01", "2024-12-31").is_none());
    // day numbers from the start of the common era: 0001-01-01 is day 1
    let march_first = Ohlc::new("0001-03-01", 1, 1, 1, 1).unwrap().date;
    assert_eq!(march_first, 60);
    let r = backtest_instrument(&bars, "0001-01-01", "0001-12-31").unwrap().records;
    assert_eq!(r.len(), 1);
    assert_eq!(r[0].event.direction, LongShortControl::Short);
}

#[test]
fn bars_out_of_order_are_refused() {
    assert!(Ohlc::from_day_number(0, 100, 90, 80, 85).is_none());
    assert!(Ohlc::from_day_number(0, 100, 110, 90, 120).is_none());
    assert!(Ohlc::new("2024-02-30", 100, 110, 90, 100).is_none());
    let b = Ohlc::new("2024-01-02", 100, 110, 90, 105).unwrap();
    assert_eq!(b.get_close(), 105);
}

#[test]
fn repeated_runs_are_identical() {
    let bars = instrument(11000);
    let a = backtest_range(&bars, 0, 1000).records;
    let b = backtest_range(&bars, 0, 1000).records;
    assert_eq!(a.len(), b.len());
    for (x, y) in a.iter().zip(b.iter()) {
        assert_eq!(x.event, y.event);
        assert_eq!(x.outcomes, y.outcomes);
    }
}

/// A small linear congruential generator for synthetic windows.
struct Lcg(u64);

impl Lcg {
    fn next(&mut self, bound: u32) -> u32 {
        self.0 = self.0.wrapping_mul(6364136223846793005).wrapping_add(1442695040888963407);
        ((self.0 >> 33) % bound as u64) as u32
    }
    fn bar(&mut self, date: i32) -> Ohlc {
        let low = 1000 + self.next(500);
        let high = low + self.next(300);
        let open = low + self.next(high - low + 1);
        let close = low + self.next(high - low + 1);
        bar(date, open, high, low, close)
    }
}

#[test]
fn random_windows_have_exactly_one_direction() {
    let mut g = Lcg(7);
    for _ in 0..500 {
        let h: Vec<Ohlc> = (0..60).map(|d| g.bar(d)).collect();
        let prior_high = h[40..59].iter().map(|b| b.high).max().unwrap();
        let prior_low = h[40..59].iter().map(|b| b.low).min().unwrap();
        let close = h[59].close;
        assert!(!(close > prior_high && close < prior_low));
        let expected = if close > prior_high {
            LongShortControl::Long
        } else if close < prior_low {
            LongShortControl::Short
        } else {
            LongShortControl::Control
        };
        assert_eq!(classify(&h), expected);
    }
}

#[test]
fn random_outcomes_respect_the_stop_floor() {
    let mut g = Lcg(11);
    for _ in 0..300 {
        let fwd: Vec<Ohlc> = (0..21).map(|d| g.bar(d)).collect();
        let dist = 100 + g.next(40000) as u64;
        for dir in [LongShortControl::Long, LongShortControl::Short, LongShortControl::Control] {
            for h in [5usize, 10, 20] {
                assert!(simulate(dir, &fwd, dist, h).unwrap() >= -100);
            }
        }
    }
}

#[test]
fn constant_bucket_has_no_t_statistic() {
    let m = BucketMoments::from_values(&vec![10, 10, 10]);
    assert_eq!(m.n, 3);
    assert!(m.constant);
    assert_eq!(bucket_report(&m, 0), BucketReport::Undefined { n: 3, mean_milli: 100 });
}

#[test]
fn empty_bucket_reports_no_data() {
    let m = BucketMoments::from_values(&vec![]);
    assert_eq!(m.mean_milli(), None);
    assert_eq!(bucket_report(&m, 500), BucketReport::NoData);
    // a bucket whose mean is exactly zero is still tested
    let z = BucketMoments::from_values(&vec![10, -10]);
    assert_eq!(z.mean_milli(), Some(0));
    assert!(matches!(bucket_report(&z, 500), BucketReport::Tested { mean_milli: 0, .. }));
}

#[test]
fn bucket_of_five_returns() {
    let values = vec![-50, 30, 20, -10, 40];
    let m = BucketMoments::from_values(&values);
    assert_eq!(m.sum, 30);
    assert_eq!(m.mean_milli(), Some(60));
    let cdf = cdf_milli(&values);
    assert_eq!(cdf, 634);
    assert_eq!(
        bucket_report(&m, cdf),
        BucketReport::Tested { n: 5, mean_milli: 60, p_value_milli: 366, significant: false }
    );
}

#[test]
fn p_value_follows_the_sign_of_the_mean() {
    let up = BucketMoments::from_values(&vec![100, 120, 90, 110]);
    assert_eq!(
        bucket_report(&up, 996),
        BucketReport::Tested { n: 4, mean_milli: 1050, p_value_milli: 4, significant: true }
    );
    let down = BucketMoments::from_values(&vec![-100, -120, -90, -110]);
    assert_eq!(
        bucket_report(&down, 44),
        BucketReport::Tested { n: 4, mean_milli: -1050, p_value_milli: 44, significant: true }
    );
    // 0.047 is below 0.05, though it prints as 0.05
    assert_eq!(
        bucket_report(&down, 47),
        BucketReport::Tested { n: 4, mean_milli: -1050, p_value_milli: 47, significant: true }
    );
    // 0.050 is not below 0.05
    assert_eq!(
        bucket_report(&down, 50),
        BucketReport::Tested { n: 4, mean_milli: -1050, p_value_milli: 50, significant: false }
    );
    // the mean rounds half away from zero: -0.0125 -> -0.013
    let neg = BucketMoments::from_values(&vec![-1, -2, -1, -1]);
    assert_eq!(neg.mean_milli(), Some(-13));
}

fn record(date: i32, dir: LongShortControl, diff: u32, ret: i64) -> BacktestRecord {
    BacktestRecord {
        event: BreakoutEvent {
            anchor_date: date,
            direction: dir,
            stop_distance_38: 38,
            stop_distance_50: 50,
            stop_distance_62: 62,
            standardized_range_diff: diff,
        },
        outcomes: vec![SimulatedOutcome { horizon: 5, stop_fraction: 38, normalized_return: ret }],
    }
}

#[test]
fn records_are_routed_to_their_bucket() {
    let regimes = TopixDailyWindowList2::from_lists(
        vec![1, 2],
        vec![3],
        vec![],
        vec![4],
        vec![],
        vec![5],
    );
    let records = vec![
        record(1, LongShortControl::Long, 50, 10),
        record(2, LongShortControl::Long, 100, 20),
        record(2, LongShortControl::Short, 50, 30),
        record(3, LongShortControl::Long, 50, 40),
        record(1, LongShortControl::Long, 200, 50),
        record(2, LongShortControl::Long, 89, 60),
    ];
    let bands = CompressionBands::standard();
    assert_eq!(bands.band(89), 0);
    assert_eq!(bands.band(90), 1);
    assert_eq!(bands.band(115), 2);
    let key = BucketKey {
        direction: LongShortControl::Long,
        regime: RegimeLabel::StrongPositive,
        band: 0,
        horizon: 5,
        stop_fraction: 38,
    };
    assert_eq!(bucket_returns(&records, &regimes, &bands, &key), vec![10, 60]);
    let other = BucketKey { stop_fraction: 50, ..key };
    assert!(bucket_returns(&records, &regimes, &bands, &other).is_empty());
}

#[test]
fn bucket_report_text() {
    let five = BucketReport::Tested { n: 5, mean_milli: 60, p_value_milli: 366, significant: false };
    assert_eq!(five.to_text(), "mean: 0.06, p: 0.37");
    let strong = BucketReport::Tested { n: 4, mean_milli: 1050, p_value_milli: 4, significant: true };
    assert_eq!(strong.to_text(), "mean: 1.05, p: 0 ... sig. diff. (95%)");
    let flat = BucketReport::Undefined { n: 3, mean_milli: 100 };
    assert_eq!(flat.to_text(), "mean: 0.1, p: undefined");
    assert_eq!(BucketReport::NoData.to_text(), "no data");
}

#[test]
fn analyzer_of_one_anchor() {
    // day 1: the anchor is day 60, with the 60 bars 1..61 as history
    let bars = instrument(11000);
    let a = BacktestAnalyzer::new(&bars, 1).unwrap();
    assert_eq!(a.date, 60);
    assert_eq!(a.long_or_short_or_control, LongShortControl::Long);
    assert_eq!(a.outcomes.len(), 9);
    assert!(a.outcomes.iter().all(|o| o.normalized_return >= -100));
    let b = BacktestAnalyzer::new(&bars, 1).unwrap();
    assert_eq!(a.outcomes, b.outcomes);
    // day 0: only 59 bars precede the anchor
    assert!(matches!(BacktestAnalyzer::new(&bars, 0), Err(BacktestError::InsufficientHistory)));
    // anchor 65 is a control day with a range: an event, not an error
    assert_eq!(BacktestAnalyzer::new(&bars, 6).unwrap().long_or_short_or_control, LongShortControl::Control);
    // anchor 79 has 11 bars after it: the 5- and 10-day outcomes, not the 20-day ones
    let short = BacktestAnalyzer::new(&bars, 20).unwrap();
    assert_eq!(short.outcomes.len(), 6);
    assert!(short.outcomes.iter().all(|o| o.horizon <= 10));
    // anchor 85 has 5 bars after it: not even the shortest horizon
    assert!(matches!(BacktestAnalyzer::new(&bars, 26), Err(BacktestError::InsufficientFuture)));
    // flat history: a control day whose stop range is zero
    assert!(matches!(
        BacktestAnalyzer::new(&instrument(10000), 1),
        Err(BacktestError::ZeroStopDistance)
    ));
}

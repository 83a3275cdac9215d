use trading23::aggregate::CompressionBands;
use trading23::bar::Ohlc;
use trading23::classifier::Status;
use trading23::daytrading::{OhlcPremium, ResultKind, StocksDaytrading, StocksDaytradingList};
use trading23::live::{to_monthly_ohlc, OhlcAnalyzer};
use trading23::market::{BullBear, LongOrShort, OhlcSource, Symbol};
use trading23::regime::{RegimeLabel, TopixDailyWindowList2};
use trading23::resistance::{MoveStatus, Session, StocksAfternoon, StocksWindow, StocksWindowList};
use trading23::window::BacktestError;

fn bar(date: i32, open: u32, high: u32, low: u32, close: u32) -> Ohlc {
    Ohlc::from_day_number(date, open, high, low, close).unwrap()
}

fn premium(b: Ohlc, morning_close: u32, afternoon_open: u32) -> OhlcPremium {
    OhlcPremium::new(b, morning_close, afternoon_open).unwrap()
}

/// 60 quiet bars (range 20), a breakout on day 60, and the next day.
fn series() -> Vec<OhlcPremium> {
    let mut s: Vec<OhlcPremium> =
        (0..60).map(|d| premium(bar(d, 1000, 1010, 990, 1000), 1000, 1000)).collect();
    s.push(premium(bar(60, 1000, 1050, 1000, 1040), 1040, 1000));
    s.push(premium(bar(61, 1040, 1080, 1030, 1070), 1060, 1050));
    s
}

/// The same with one wide bar on day 30.
fn series_with_wide_day() -> Vec<OhlcPremium> {
    let mut s = series();
    s[30] = premium(bar(30, 1000, 1100, 980, 1000), 1000, 1000);
    s
}

#[test]
fn premium_prices_must_lie_in_the_range() {
    assert!(OhlcPremium::new(bar(0, 10, 12, 9, 11), 13, 10).is_none());
    assert!(OhlcPremium::new(bar(0, 10, 12, 9, 11), 10, 8).is_none());
}

#[test]
fn daytrading_view_of_a_breakout() {
    let d = StocksDaytrading::from_index(&series(), 60, 7203, 100_000).unwrap();
    assert_eq!(d.code, 7203);
    assert_eq!(d.status, Status::BreakoutResistance);
    // 100000 ticks of capital over an average range of 26.0 ticks: 3846 units, which
    // cost 100000 / 26 * 1040 ticks at the close
    assert_eq!(d.unit, 3846);
    assert_eq!(d.required_amount, 4_000_000);
    // mean range of the last five bars: (4 * 20 + 50) / 5 = 26.0 ticks
    assert_eq!(d.atr, 260);
    // 1230 / 60 over a range of 60: 0.341
    assert_eq!(d.standardized_diff, 341);
    // next day from its open of 1040: morning close +20, afternoon open +10, close +30
    assert_eq!(d.result_morning_close, Some(77));
    assert_eq!(d.result_afternoon_open, Some(38));
    assert_eq!(d.result_close, Some(115));
    assert_eq!(d.result_push_close, Some(38));
    assert_eq!(d.analyzed_at, 60);
    assert_eq!(StocksDaytrading::from_vec(&series(), 7203, 100_000, 60), Ok(d));
    assert_eq!(StocksDaytrading::from_vec(&series(), 7203, 100_000, 100), Err(BacktestError::NoSuchDate));
    // exactly 59 bars before the anchor: not enough history
    assert_eq!(StocksDaytrading::from_vec(&series(), 7203, 100_000, 59), Err(BacktestError::InsufficientHistory));
}

#[test]
fn daytrading_flat_bars_have_no_average_range() {
    let s: Vec<OhlcPremium> = (0..62).map(|d| premium(bar(d, 100, 100, 100, 100), 100, 100)).collect();
    assert_eq!(StocksDaytrading::from_index(&s, 60, 1, 100), Err(BacktestError::ZeroStopDistance));
    let mut list = StocksDaytradingList::new();
    assert_eq!(list.push_2(&s, 1, 100, 0, 100), vec![60, 61]);
    assert!(list.data.is_empty());
}

#[test]
fn daytrading_list_gathers_and_buckets() {
    let mut list = StocksDaytradingList::new();
    let skipped = list.push_2(&series(), 7203, 100_000, 0, 100);
    assert!(skipped.is_empty());
    assert_eq!(list.data.len(), 2);
    assert_eq!(list.data[1].analyzed_at, 61);
    assert_eq!(list.data[1].atr, 320);
    assert_eq!(list.data[1].result_close, None);
    // the last view has no next day: its result is left out, not counted as zero
    assert_eq!(list.results(ResultKind::MorningClose), vec![77]);
    let mut other = StocksDaytradingList::new();
    other.push_2(&series(), 7203, 100_000, 61, 61);
    list.append(other);
    assert_eq!(list.data.len(), 3);
    let regimes = TopixDailyWindowList2::from_lists(vec![60], vec![], vec![], vec![], vec![], vec![]);
    let bands = CompressionBands::standard();
    let r = list.bucket_results(
        Status::BreakoutResistance,
        &regimes,
        RegimeLabel::StrongPositive,
        &bands,
        2,
        ResultKind::Close,
    );
    assert_eq!(r, vec![115]);
    let unknown_day =
        TopixDailyWindowList2::from_lists(vec![61], vec![], vec![], vec![], vec![], vec![]);
    let none = list.bucket_results(
        Status::BreakoutResistance,
        &unknown_day,
        RegimeLabel::StrongPositive,
        &bands,
        2,
        ResultKind::Close,
    );
    assert!(none.is_empty());
}

fn shorter() -> Vec<Ohlc> {
    series().iter().skip(1).take(60).map(|p| p.bar).collect()
}

#[test]
fn live_long_breakout_on_fx() {
    let a = OhlcAnalyzer::from_gmo_coin_fx(Symbol::UsdJpy, &shorter(), &shorter(), None);
    assert!(a.get_position().is_none());
    let r = a.analyze_last20(0);
    assert!(r.break_or_not);
    assert_eq!(r.long_or_short, Some(LongOrShort::Long));
    // 1050 - 0.38 * 60 = 1027.2, placed at a whole pip
    assert_eq!(r.stop_loss_order, Some(102700));
    // 3000 over 13 pips of the quote currency
    assert_eq!(r.units, Some(23077));
    // the last bar spans 50 of the 60 ticks of the move
    assert_eq!(r.is_too_strong_to_entry, Some(true));
    assert_eq!(r.analyzed_at, 60);
}

#[test]
fn live_stock_orders_and_monthly_bars() {
    let a = OhlcAnalyzer::from_jquants(&shorter());
    assert_eq!(a.source, OhlcSource::Jquants);
    let r = a.analyze_last20(1_000_000);
    assert_eq!(r.stop_loss_order, Some(102720));
    // capital over the 12.8 ticks at risk
    assert_eq!(r.units, Some(78125));
    // days 1 to 31 are January of year 1, 32 to 59 February, 60 the first of March
    assert_eq!(a.longer_ohlc.len(), 3);
    assert_eq!(a.longer_ohlc[1], bar(32, 1000, 1010, 990, 1000));
    assert_eq!(a.longer_ohlc[2], bar(60, 1000, 1050, 1000, 1040));
    assert_eq!(to_monthly_ohlc(&vec![]).len(), 0);
    assert_eq!(a.get_shorter_ohlc_standardized_diff(), Some(341));
    // three monthly bars: ranges 20 + 20 + 50 over a range of 60
    assert_eq!(a.get_longer_ohlc_standardized_diff_and_trend(), (Some(500), BullBear::NoTrend));
}

#[test]
fn live_position_and_trend() {
    let mut a = OhlcAnalyzer::from_jquants(&shorter());
    a.position = Some(LongOrShort::Short);
    // 990 + 0.38 * 60 = 1012.8
    assert_eq!(a.position_follow(), 101280);
    let longer = vec![bar(0, 100, 101, 99, 100), bar(31, 150, 151, 149, 150), bar(59, 200, 201, 199, 200)];
    let b = OhlcAnalyzer::from_gmo_coin_fx(Symbol::EurUsd, &shorter(), &longer, Some(LongOrShort::Long));
    assert_eq!(b.get_longer_ohlc_standardized_diff_and_trend(), (Some(19), BullBear::Bull));
    let quiet: Vec<Ohlc> = (0..20).map(|d| bar(d, 100, 101, 99, 100)).collect();
    let c = OhlcAnalyzer::from_gmo_coin_fx(Symbol::EurUsd, &quiet, &quiet, None);
    let r = c.analyze_last20(0);
    assert!(!r.break_or_not);
    assert_eq!(r.stop_loss_order, None);
}

#[test]
fn resistance_view_counts_and_bands() {
    let w = StocksWindow::from_vec(&series_with_wide_day(), 7203, 100_000, 60).unwrap();
    assert_eq!(w.code, 7203);
    assert_eq!(w.atr, 260);
    assert_eq!((w.unit, w.required_amount), (3846, 4_000_000));
    // the day moved 40 ticks against the 20-tick range of the day before
    assert_eq!(w.latest_move, Some(200));
    // 1330 / 60 over a range of 120
    assert_eq!(w.standardized_diff, Some(184));
    assert_eq!(w.current_price, 1040);
    assert_eq!(w.number_of_resistance_candles, 1);
    assert_eq!(w.number_of_support_candles, 1);
    // most prices sit in the lowest fifth of 980..1100
    assert_eq!((w.lower_bound, w.upper_bound), (98000, 100400));
    assert_eq!(w.status, MoveStatus::Rise);
    assert_eq!(w.status.name(), "Rise");
    assert_eq!(w.result_morning, Some(77));
    assert_eq!(w.result_afternoon, Some(77));
    assert_eq!(w.result_allday, Some(115));
    assert_eq!(w.nextday_morning_close, Some(1060));
    assert_eq!(w.result_at, Some(61));
    assert_eq!(StocksWindow::from_index(&series_with_wide_day(), 60, 7203, 100_000), Ok(w));
    assert_eq!(
        StocksWindow::from_vec(&series_with_wide_day(), 7203, 100_000, 59),
        Err(BacktestError::InsufficientHistory)
    );
    assert_eq!(
        StocksWindow::from_vec(&series_with_wide_day(), 7203, 100_000, 99),
        Err(BacktestError::NoSuchDate)
    );
}

#[test]
fn resistance_list_filters() {
    let mut list = StocksWindowList::new();
    list.push(&series_with_wide_day(), 7203, 100_000, 0, 100);
    assert_eq!(list.data.len(), 2);
    assert_eq!(list.number_of_gainers(Session::Morning), 1);
    assert_eq!(list.number_of_gainers(Session::Allday), 1);
    let mut by_diff = list.clone();
    by_diff.filter_by_standardized_diff(185);
    assert_eq!(by_diff.data.len(), 1);
    assert_eq!(by_diff.data[0].analyzed_at, 60);
    let mut by_move = list.clone();
    by_move.filter_by_latest_move(100);
    assert_eq!(by_move.data.len(), 1);
    assert_eq!(by_move.data[0].analyzed_at, 61);
    let mut both = StocksWindowList::new();
    both.append(list);
    assert_eq!(both.data.len(), 2);
}

#[test]
fn afternoon_view_against_the_morning_session() {
    let mut daily: Vec<Ohlc> = (0..61).map(|d| bar(d, 1000, 1010, 990, 1000)).collect();
    daily[30] = bar(30, 1000, 1100, 980, 1000);
    daily[60] = bar(60, 1000, 1050, 1000, 1040);
    daily.push(bar(61, 1040, 1060, 1030, 1055));
    let morning = bar(61, 1040, 1060, 1030, 1055);
    let a = StocksAfternoon::from_vec(&daily, &morning, 7203, 100_000, 61).unwrap();
    assert_eq!(a.atr, 260);
    assert_eq!((a.code, a.unit, a.required_amount), (7203, 3846, 4_000_000));
    // the morning moved 15 ticks against the 50-tick range of the last day
    assert_eq!(a.latest_move, Some(30));
    assert_eq!(a.standardized_diff, Some(184));
    assert_eq!(a.number_of_resistance_candles, 1);
    assert_eq!(a.number_of_support_candles, 1);
    assert_eq!(a.status, MoveStatus::Rise);
    assert_eq!(a.yesterday_close, 1000);
    assert_eq!((a.morning_open, a.morning_close, a.analyzed_at), (1040, 1055, 61));
    let short: Vec<Ohlc> = daily[..61].to_vec();
    assert_eq!(StocksAfternoon::from_vec(&short, &morning, 7203, 100_000, 60), Err(BacktestError::InsufficientHistory));
}

fn view(date: i32, resistance: usize, support: usize) -> StocksWindow {
    StocksWindow {
        code: 0,
        atr: 10,
        unit: 0,
        required_amount: 0,
        latest_move: None,
        standardized_diff: None,
        current_price: 100,
        lower_bound: 0,
        upper_bound: 0,
        number_of_resistance_candles: resistance,
        number_of_support_candles: support,
        status: MoveStatus::Stable,
        result_morning: None,
        result_afternoon: None,
        result_allday: None,
        nextday_morning_close: None,
        analyzed_at: date,
        result_at: None,
    }
}

#[test]
fn top_ten_by_candles_keeps_ties_in_order() {
    let counts = [3usize, 7, 7, 1, 9, 0, 2, 7, 5, 4, 6, 8];
    let list = StocksWindowList {
        data: counts.iter().enumerate().map(|(i, c)| view(i as i32, *c, 12 - i)).collect(),
    };
    let top: Vec<i32> = list.get_resistance_candles_top10().data.iter().map(|w| w.analyzed_at).collect();
    assert_eq!(top, vec![4, 11, 1, 2, 7, 10, 8, 9, 0, 6]);
    let sup: Vec<i32> = list.get_support_candles_top10().data.iter().map(|w| w.analyzed_at).collect();
    assert_eq!(sup, vec![0, 1, 2, 3, 4, 5, 6, 7, 8, 9]);
    let few = StocksWindowList { data: vec![view(0, 1, 1), view(1, 2, 2)] };
    let top: Vec<i32> = few.get_resistance_candles_top10().data.iter().map(|w| w.analyzed_at).collect();
    assert_eq!(top, vec![1, 0]);
}

#[test]
fn daytrading_views_sorted_by_range_diff() {
    let mut list = StocksDaytradingList::new();
    for (i, diff) in [120u32, 80, 120, 50].iter().enumerate() {
        list.data.push(StocksDaytrading {
            code: 1,
            status: Status::BreakoutSupport,
            atr: 10,
            unit: 0,
            required_amount: 0,
            standardized_diff: *diff,
            result_push_close: None,
            result_morning_close: None,
            result_afternoon_open: None,
            result_close: None,
            analyzed_at: i as i32,
        });
    }
    list.sort_by_standardized_diff();
    let order: Vec<i32> = list.data.iter().map(|d| d.analyzed_at).collect();
    assert_eq!(order, vec![3, 1, 0, 2]);
}

use trading23::bar::Ohlc;
use trading23::config::GdriveJson;
use trading23::market::{
    Interval, Nikkei225, PriceType, SelectDate, StocksOhlc, Symbol, TradingCalender,
    TradingCalenderInner,
};
use trading23::regime::{BacktestingTopixList, DailyGap, TopixDailyWindowList, TopixDailyWindowList2};
use trading23::report::{decimal, EntryLongOrShort, Markdown, Output};

/// An index series whose gap ratios (next open over close, in thousandths) are `ratios`.
fn index_with_gaps(ratios: &[u32]) -> Vec<Ohlc> {
    let mut opens = vec![1000u32];
    opens.extend_from_slice(ratios);
    opens
        .iter()
        .enumerate()
        .map(|(i, o)| {
            Ohlc::from_day_number(i as i32, *o, (*o).max(1000), (*o).min(1000), 1000).unwrap()
        })
        .collect()
}

const SHUFFLED: [u32; 10] = [1004, 1001, 999, 1006, 997, 1002, 1000, 1005, 998, 1003];

#[test]
fn gaps_are_next_open_over_close() {
    let list = BacktestingTopixList::from_bars(&index_with_gaps(&SHUFFLED));
    assert_eq!(list.data.len(), 10);
    // day 0 is the last day of year 0, a Sunday
    assert_eq!(
        list.data[0],
        DailyGap {
            date: 0,
            open: 1000,
            high: 1000,
            low: 1000,
            close: 1000,
            next_open: 1004,
            window: 4,
            ratio: 1004,
            weekday: 6,
        }
    );
    assert_eq!(
        list.data[9],
        DailyGap {
            date: 9,
            open: 998,
            high: 1000,
            low: 998,
            close: 1000,
            next_open: 1003,
            window: 3,
            ratio: 1003,
            weekday: 1,
        }
    );
    let falling = vec![
        Ohlc::from_day_number(0, 1000, 1000, 1000, 1000).unwrap(),
        Ohlc::from_day_number(1, 990, 990, 990, 990).unwrap(),
    ];
    assert_eq!(BacktestingTopixList::from_bars(&falling).data[0].window, -10);
    // 3001 / 3000 = 1.000333..., rounded to thousandths
    let b = vec![
        Ohlc::from_day_number(0, 3000, 3000, 3000, 3000).unwrap(),
        Ohlc::from_day_number(1, 3001, 3001, 3001, 3001).unwrap(),
        Ohlc::from_day_number(2, 3002, 3002, 3002, 3002).unwrap(),
    ];
    let g = BacktestingTopixList::from_bars(&b);
    assert_eq!(g.data[0].ratio, 1000);
    // 3002 / 3001 = 1.000333...
    assert_eq!(g.data[1].ratio, 1000);
    let up = vec![
        Ohlc::from_day_number(0, 2000, 2000, 2000, 2000).unwrap(),
        Ohlc::from_day_number(1, 2003, 2003, 2003, 2003).unwrap(),
    ];
    // 2003 / 2000 = 1.0015, half rounds up
    assert_eq!(BacktestingTopixList::from_bars(&up).data[0].ratio, 1002);
}

#[test]
fn weekdays_of_day_numbers() {
    let friday = Ohlc::new("2024-01-05", 1, 1, 1, 1).unwrap().date;
    assert_eq!(trading23::regime::weekday(friday), 4);
    assert_eq!(trading23::regime::weekday(friday + 2), 6);
    assert_eq!(trading23::regime::weekday(1), 0);
    assert_eq!(trading23::regime::weekday(-6), 0);
}

#[test]
fn tertile_regimes() {
    let list = BacktestingTopixList::from_bars(&index_with_gaps(&SHUFFLED));
    let t = list.tertiles();
    assert_eq!((t.positive_lower, t.positive_upper), (1003, 1005));
    assert_eq!((t.negative_lower, t.negative_upper), (998, 999));
    let r = TopixDailyWindowList2::new(&list);
    assert_eq!(r.get_strong_positive(), &vec![3]);
    assert_eq!(r.get_moderate_positive(), &vec![0, 7]);
    assert_eq!(r.get_mild_positive(), &vec![1, 5, 9]);
    assert_eq!(r.get_mild_negative(), &vec![2]);
    assert_eq!(r.get_moderate_negative(), &vec![8]);
    assert_eq!(r.get_strong_negative(), &vec![4]);
}

#[test]
fn median_regimes() {
    let list = BacktestingTopixList::from_bars(&index_with_gaps(&SHUFFLED));
    let m = list.medians();
    assert_eq!((m.positive_lower, m.negative_lower), (1004, 998));
    let r = TopixDailyWindowList::new(&list);
    assert_eq!(r.get_strong_positive(), &vec![3, 7]);
    assert_eq!(r.get_mild_positive(), &vec![1, 5, 9]);
    assert_eq!(r.get_mild_negative(), &vec![2]);
    assert_eq!(r.get_strong_negative(), &vec![4]);
    let six = r.as_six_regimes();
    assert_eq!(six.get_strong_positive(), &vec![3, 7]);
    assert!(six.get_moderate_positive().is_empty());
    assert_eq!(six.get_mild_negative(), &vec![2]);
}

#[test]
fn no_gaps_no_regimes() {
    let list = BacktestingTopixList::from_bars(&index_with_gaps(&[1000, 1000]));
    let r = TopixDailyWindowList2::new(&list);
    assert!(r.get_strong_positive().is_empty());
    assert!(r.get_mild_negative().is_empty());
    assert!(BacktestingTopixList::from_bars(&vec![]).data.is_empty());
}

#[test]
fn markdown_lines_and_html() {
    let mut md = Markdown::new();
    md.h1("2024-01-05");
    md.h2("Nextday");
    md.h3("Summary");
    md.body("a");
    md.body("b");
    assert_eq!(md.buffer(), "# 2024-01-05\n## Nextday\n### Summary\na\nb\n");
    let html = md.to_html();
    assert!(html.contains("<h1>2024-01-05</h1>"));
    assert!(html.contains("<h3>Summary</h3>"));
    assert!(html.contains("<p>a<br />"));
}

#[test]
fn decimal_text() {
    assert_eq!(decimal(0), "0");
    assert_eq!(decimal(7), "7");
    assert_eq!(decimal(1234567), "1234567");
    assert_eq!(decimal(u128::MAX), u128::MAX.to_string());
}

#[test]
fn entry_summary() {
    let e = EntryLongOrShort::new("2024-01-05", 3, 12);
    assert_eq!(e.output_entry_long_or_short(), "\nDate: 2024-01-05\nLong: 3, Short: 12");
    let out = Output {
        entry_long_or_short: e,
        long_stocks: "Long\n".to_string(),
        short_stocks: "Short\n".to_string(),
    };
    assert_eq!(out.get_entry_long_or_short(), "\nDate: 2024-01-05\nLong: 3, Short: 12");
    assert_eq!(out.get_long_stocks(), "Long\n");
    assert_eq!(out.get_short_stocks(), "Short\n");
}

#[test]
fn symbols_by_name() {
    for name in ["USD_JPY", "EUR_JPY", "GBP_JPY", "AUD_JPY", "EUR_USD", "GBP_USD", "AUD_USD"] {
        assert_eq!(Symbol::from_name(name).unwrap().name(), name);
    }
    assert!(Symbol::from_name("USD_CHF").is_none());
    assert_eq!(Symbol::UsdJpy.pip_decimals(), 2);
    assert_eq!(Symbol::EurUsd.pip_decimals(), 4);
    assert_eq!(PriceType::Bid.name(), "BID");
    assert_eq!(Interval::M30.name(), "30min");
    assert_eq!(Interval::D1.name(), "1day");
}

#[test]
fn trading_days_from_the_calendar() {
    let cal = TradingCalender {
        trading_calendar: vec![
            TradingCalenderInner { date: "2024-01-04".to_string(), holiday_division: "1".to_string() },
            TradingCalenderInner { date: "2024-01-06".to_string(), holiday_division: "0".to_string() },
        ],
    };
    assert!(cal.is_date_trading_day("2024-01-04"));
    assert!(!cal.is_date_trading_day("2024-01-06"));
    assert!(!cal.is_date_trading_day("2024-01-05"));
}

#[test]
fn small_records() {
    let d = SelectDate::new(2023, 12, 6);
    assert_eq!((d.get_year(), d.get_month(), d.get_day()), (2023, 12, 6));
    let n = Nikkei225 { code: "7203".to_string(), name: "Toyota".to_string(), category: "Auto".to_string() };
    assert_eq!((n.get_code(), n.get_name()), ("7203", "Toyota"));
    let bar = Ohlc::from_day_number(5, 10, 12, 9, 11).unwrap();
    let row = StocksOhlc { id: 1, created_at: "2024-01-05 09:00:00".to_string(), inner: bar };
    assert_eq!(row.get_inner(), bar);
}

#[test]
fn settings_tokens() {
    let mut c = GdriveJson {
        jquants_mail: "m".to_string(),
        jquants_pw: "p".to_string(),
        jquants_refresh_token: "r".to_string(),
        jquants_id_token: "i".to_string(),
        jquants_unit: "100000".to_string(),
        line_token: "l".to_string(),
        gmo_coin_fx_api_key: "k".to_string(),
        gmo_coin_fx_api_secret: "s".to_string(),
    };
    c.set_jquants_refresh_token("r2".to_string());
    c.set_jquants_id_token("i2".to_string());
    assert_eq!(c.jquants_refresh_token(), "r2");
    assert_eq!(c.jquants_id_token(), "i2");
    assert_eq!(c.jquants_mail(), "m");
    assert_eq!(c.jquants_pw(), "p");
    assert_eq!(c.line_token(), "l");
    assert_eq!(c._gmo_coin_fx_api_key(), "k");
    assert_eq!(c._gmo_coin_fx_api_secret(), "s");
}

fn stock(side: &str) -> trading23::report::Stock {
    trading23::report::Stock {
        code: 7203,
        name: "Toyota".to_string(),
        long_or_short: side.to_string(),
        stop_loss_order: None,
        units: None,
        daily_diff: None,
        monthly_diff: None,
        analyzed_at: "2024-01-05".to_string(),
    }
}

#[test]
fn long_and_short_counts() {
    let list = trading23::report::StockList {
        stocks: vec![stock("Long"), stock("Short"), stock("Long"), stock("None")],
    };
    assert_eq!(list.count_long_stocks(), 2);
    assert_eq!(list.count_short_stocks(), 1);
    let e = list.determine_entry_long_or_short("2024-01-05");
    assert_eq!(e.output_entry_long_or_short(), "\nDate: 2024-01-05\nLong: 2, Short: 1");
}

#[test]
fn fixed_point_text() {
    let cases: [(i128, u32, &str); 8] = [
        (60, 3, "0.06"),
        (-1050, 3, "-1.05"),
        (100, 3, "0.1"),
        (2000, 3, "2"),
        (-5, 3, "-0.005"),
        (0, 2, "0"),
        (37, 2, "0.37"),
        (12345, 0, "12345"),
    ];
    for (v, p, text) in cases {
        assert_eq!(trading23::report::fixed_text(v, p), text);
    }
}

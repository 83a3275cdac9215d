use vstd::prelude::*;

use crate::bar::{
    all_wf, lemma_max_high, lemma_min_low, lemma_sum_range_bound, max_high, min_low,
    range_extremes, sum_range, Ohlc,
};
use crate::classifier::{breakout_bars, classify, direction_of, LongShortControl};
use crate::market::{BullBear, LongOrShort, OhlcSource, Symbol};
use crate::simulator::round_div;
use crate::window::copy_range;

verus! {

/// Bars the live analysis keeps of each series.
pub const LIVE_BARS: usize = 60;

/// The calendar year and month (1 to 12) of a day number, or `None` outside chrono's
/// range of dates.
pub uninterp spec fn month_of(day: i32) -> Option<(i32, u32)>;

/// Relies on chrono's `NaiveDate::from_num_days_from_ce_opt` and `Datelike::year` /
/// `Datelike::month`: the result depends on the day number alone.
#[verifier::external_body]
fn month_of_day(day: i32) -> (r: Option<(i32, u32)>)
    ensures
        r == month_of(day),
{
    chrono::NaiveDate::from_num_days_from_ce_opt(day).map(
        |d| (chrono::Datelike::year(&d), chrono::Datelike::month(&d)),
    )
}

/// The calendar year and month (1 to 12) of a day number; `None` outside chrono's
/// range of dates.
pub fn calendar_month(day: i32) -> (r: Option<(i32, u32)>)
    ensures
        r == month_of(day),
{
    month_of_day(day)
}

/// The last `n` bars (all of them where there are fewer).
pub open spec fn last_n(s: Seq<Ohlc>, n: int) -> Seq<Ohlc> {
    if s.len() <= n {
        s
    } else {
        s.subrange(s.len() - n, s.len() as int)
    }
}

fn take_last(v: &Vec<Ohlc>, n: usize) -> (r: Vec<Ohlc>)
    ensures
        r@ == last_n(v@, n as int),
{
    if v.len() <= n {
        copy_range(v, 0, v.len())
    } else {
        copy_range(v, v.len() - n, v.len())
    }
}

/// Two bars of one month merged: the first one's date and open, the later one's
/// close, the wider range.
pub open spec fn merge_bars(m: Ohlc, b: Ohlc) -> Ohlc {
    Ohlc {
        date: m.date,
        open: m.open,
        high: if b.high > m.high {
            b.high
        } else {
            m.high
        },
        low: if b.low < m.low {
            b.low
        } else {
            m.low
        },
        close: b.close,
    }
}

/// The daily bars of a date-ordered series merged into one bar per calendar month.
pub open spec fn monthly(s: Seq<Ohlc>) -> Seq<Ohlc>
    decreases s.len(),
{
    if s.len() == 0 {
        Seq::empty()
    } else {
        let p = monthly(s.drop_last());
        let b = s.last();
        if s.len() >= 2 && month_of(s[s.len() - 2].date) == month_of(b.date) && p.len() > 0 {
            p.update(p.len() - 1, merge_bars(p.last(), b))
        } else {
            p.push(b)
        }
    }
}

/// Merges the daily bars of a date-ordered series into one bar per calendar month.
pub fn to_monthly_ohlc(ohlc_vec: &Vec<Ohlc>) -> (r: Vec<Ohlc>)
    ensures
        r@ == monthly(ohlc_vec@),
{
    let mut r: Vec<Ohlc> = Vec::new();
    let mut i: usize = 0;
    let mut prev_month: Option<(i32, u32)> = None;
    while i < ohlc_vec.len()
        invariant
            0 <= i <= ohlc_vec.len(),
            r@ == monthly(ohlc_vec@.subrange(0, i as int)),
            i > 0 ==> prev_month == month_of(ohlc_vec@[i - 1].date),
            i > 0 ==> r@.len() > 0,
        decreases ohlc_vec.len() - i,
    {
        let ghost s = ohlc_vec@.subrange(0, i + 1);
        assert(s.drop_last() =~= ohlc_vec@.subrange(0, i as int));
        let b = ohlc_vec[i];
        let month = month_of_day(b.date);
        if i > 0 && prev_month == month {
            assert(s[s.len() - 2] == ohlc_vec@[i - 1]);
            let k = r.len() - 1;
            let m = r[k];
            let merged = Ohlc {
                date: m.date,
                open: m.open,
                high: if b.high > m.high {
                    b.high
                } else {
                    m.high
                },
                low: if b.low < m.low {
                    b.low
                } else {
                    m.low
                },
                close: b.close,
            };
            r.set(k, merged);
        } else {
            proof {
                if i > 0 {
                    assert(s[s.len() - 2] == ohlc_vec@[i - 1]);
                }
            }
            r.push(b);
        }
        prev_month = month;
        i = i + 1;
    }
    assert(ohlc_vec@.subrange(0, ohlc_vec.len() as int) =~= ohlc_vec@);
    r
}

/// Mean daily range over the whole range, in thousandths, truncated.
pub open spec fn range_diff_of(s: Seq<Ohlc>) -> int {
    (1000 * sum_range(s)) / (s.len() * (max_high(s) - min_low(s)))
}

/// Mean daily range over the whole range of the bars, in thousandths, truncated;
/// `None` where there are no bars or they are all at one price.
pub fn range_diff(bars: &Vec<Ohlc>) -> (r: Option<u32>)
    requires
        all_wf(bars@),
    ensures
        r == (if bars.len() == 0 || max_high(bars@) == min_low(bars@) {
            None::<u32>
        } else {
            Some(range_diff_of(bars@) as u32)
        }),
        r matches Some(v) ==> v <= 1000 && v == range_diff_of(bars@),
{
    let n = bars.len();
    if n == 0 {
        return None;
    }
    let (high, low) = range_extremes(bars, 0, n);
    assert(bars@.subrange(0, n as int) =~= bars@);
    proof {
        lemma_max_high(bars@);
        lemma_min_low(bars@);
        assert(bars@[0].wf());
    }
    if high == low {
        return None;
    }
    let mut sum: u128 = 0;
    let mut i: usize = 0;
    while i < n
        invariant
            0 <= i <= n == bars.len(),
            all_wf(bars@),
            sum == sum_range(bars@.subrange(0, i as int)),
            sum <= i * 0xffff_ffffu128,
        decreases n - i,
    {
        assert(bars@.subrange(0, i + 1).drop_last() =~= bars@.subrange(0, i as int));
        proof {
            assert(bars@[i as int].wf());
        }
        sum = sum + (bars[i].high - bars[i].low) as u128;
        i = i + 1;
    }
    assert(bars@.subrange(0, n as int) =~= bars@);
    let spread = (high - low) as u128;
    proof {
        lemma_sum_range_bound(bars@);
        assert(n * spread <= 0xffff_ffff_ffff_ffffu128 * 0xffff_ffffu128) by (nonlinear_arith)
            requires
                n <= 0xffff_ffff_ffff_ffffu128,
                spread <= 0xffff_ffffu128,
        ;
        assert(1000 * sum <= 1000 * (n * spread)) by (nonlinear_arith)
            requires
                sum <= n * spread,
        ;
        assert(n * spread > 0) by (nonlinear_arith)
            requires
                n > 0,
                spread > 0,
        ;
        vstd::arithmetic::div_mod::lemma_div_is_ordered(
            1000 * sum as int,
            1000 * (n * spread),
            n * spread,
        );
        vstd::arithmetic::div_mod::lemma_div_by_multiple(1000, n * spread);
        vstd::arithmetic::div_mod::lemma_div_pos_is_pos(1000 * sum as int, n * spread);
    }
    let den: u128 = n as u128 * spread;
    Some(((1000 * sum) / den) as u32)
}

/// The trend of a series: none where its range diff exceeds 0.14; else bearish where
/// the last close lies in the lowest fifth of the range, bullish in the highest fifth.
pub open spec fn trend_of(s: Seq<Ohlc>) -> BullBear {
    let h = max_high(s);
    let l = min_low(s);
    let c = s.last().close as int;
    if s.len() == 0 || h == l || range_diff_of(s) > 140 {
        BullBear::NoTrend
    } else if 5 * (c - l) <= h - l {
        BullBear::Bear
    } else if 5 * (c - l) >= 4 * (h - l) {
        BullBear::Bull
    } else {
        BullBear::NoTrend
    }
}

/// A stop-loss order in hundredths of a tick, 38 percent of the range back from the
/// high (long) or the low (short) of `w`.
pub open spec fn stop_order_of(w: Seq<Ohlc>, side: LongOrShort) -> int {
    let h = max_high(w);
    let l = min_low(w);
    match side {
        LongOrShort::Long => 100 * h - 38 * (h - l),
        LongOrShort::Short => 100 * l + 38 * (h - l),
    }
}

/// The order as placed: on the FX venue rounded to a whole tick (one pip).
pub open spec fn placed_order(order: int, source: OhlcSource) -> int {
    match source {
        OhlcSource::Jquants => order,
        OhlcSource::GmoCoinFx(_) => 100 * round_div(order, 100),
    }
}

/// Units to trade: the capital (in ticks) over the distance from the close to the
/// stop for stocks, truncated; 3000 in the quote currency over that distance for FX,
/// rounded; `None` where the stop is not on the losing side of the close.
pub open spec fn units_of(close: int, stop: int, side: LongOrShort, source: OhlcSource, capital: int) -> Option<
    int,
> {
    let risk = match side {
        LongOrShort::Long => 100 * close - stop,
        LongOrShort::Short => stop - 100 * close,
    };
    if risk <= 0 {
        None
    } else {
        match source {
            OhlcSource::Jquants => Some((100 * capital) / risk),
            OhlcSource::GmoCoinFx(_) => Some(round_div(30_000_000, risk)),
        }
    }
}

/// The analysis of the last bars of a live series.
#[derive(Clone, Copy, Debug, PartialEq, Eq, Structural)]
pub struct Last20Analysis {
    pub break_or_not: bool,
    pub long_or_short: Option<LongOrShort>,
    pub stop_loss_order: Option<u64>,
    pub units: Option<u64>,
    pub is_too_strong_to_entry: Option<bool>,
    pub analyzed_at: i32,
}

/// The live analysis of a breakout window `w` (the last `BREAKOUT_BARS` bars).
pub open spec fn last20_of(w: Seq<Ohlc>, source: OhlcSource, capital: int) -> Last20Analysis {
    let last = w.last();
    let d = direction_of(w);
    if d == LongShortControl::Control {
        Last20Analysis {
            break_or_not: false,
            long_or_short: None,
            stop_loss_order: None,
            units: None,
            is_too_strong_to_entry: None,
            analyzed_at: last.date,
        }
    } else {
        let side = if d == LongShortControl::Long {
            LongOrShort::Long
        } else {
            LongOrShort::Short
        };
        let stop = placed_order(stop_order_of(w, side), source);
        let body = last.high - last.low;
        let reach = if d == LongShortControl::Long {
            last.high - min_low(w)
        } else {
            max_high(w) - last.low
        };
        Last20Analysis {
            break_or_not: true,
            long_or_short: Some(side),
            stop_loss_order: Some(stop as u64),
            units: match units_of(last.close as int, stop, side, source, capital) {
                Some(u) => Some(u as u64),
                None => None,
            },
            is_too_strong_to_entry: Some(4 * body > 3 * reach),
            analyzed_at: last.date,
        }
    }
}

/// Recent bars of one instrument and the open position, if any.
pub struct OhlcAnalyzer {
    pub source: OhlcSource,
    pub shorter_ohlc: Vec<Ohlc>,
    pub longer_ohlc: Vec<Ohlc>,
    pub position: Option<LongOrShort>,
}

impl OhlcAnalyzer {
    /// A stock: the last daily bars, and the monthly bars of the whole series.
    pub fn from_jquants(raw_ohlc: &Vec<Ohlc>) -> (r: OhlcAnalyzer)
        ensures
            r.source == OhlcSource::Jquants,
            r.shorter_ohlc@ == last_n(raw_ohlc@, LIVE_BARS as int),
            r.longer_ohlc@ == monthly(raw_ohlc@),
            r.position is None,
    {
        OhlcAnalyzer {
            source: OhlcSource::Jquants,
            shorter_ohlc: take_last(raw_ohlc, LIVE_BARS),
            longer_ohlc: to_monthly_ohlc(raw_ohlc),
            position: None,
        }
    }

    /// An FX pair: the last bars of a shorter and of a longer interval.
    pub fn from_gmo_coin_fx(
        symbol: Symbol,
        raw_ohlc_shorter: &Vec<Ohlc>,
        raw_ohlc_longer: &Vec<Ohlc>,
        position: Option<LongOrShort>,
    ) -> (r: OhlcAnalyzer)
        ensures
            r.source == OhlcSource::GmoCoinFx(symbol),
            r.shorter_ohlc@ == last_n(raw_ohlc_shorter@, LIVE_BARS as int),
            r.longer_ohlc@ == last_n(raw_ohlc_longer@, LIVE_BARS as int),
            r.position == position,
    {
        OhlcAnalyzer {
            source: OhlcSource::GmoCoinFx(symbol),
            shorter_ohlc: take_last(raw_ohlc_shorter, LIVE_BARS),
            longer_ohlc: take_last(raw_ohlc_longer, LIVE_BARS),
            position,
        }
    }

    pub fn get_position(&self) -> (r: &Option<LongOrShort>)
        ensures
            *r == self.position,
    {
        &self.position
    }

    /// Whether the last bar broke out of the 19 before it, and for a breakout the
    /// stop-loss order, the units to trade with `capital` (in ticks) and whether the
    /// last bar took up more than three quarters of the move.
    pub fn analyze_last20(&self, capital: u64) -> (r: Last20Analysis)
        requires
            self.shorter_ohlc.len() >= crate::classifier::BREAKOUT_BARS,
            all_wf(self.shorter_ohlc@),
        ensures
            r == last20_of(breakout_bars(self.shorter_ohlc@), self.source, capital as int),
    {
        let s = &self.shorter_ohlc;
        let n = s.len();
        let ghost w = breakout_bars(s@);
        let direction = classify(s);
        let last = s[n - 1];
        proof {
            assert(w.last() == s@[n - 1]);
        }
        if direction == LongShortControl::Control {
            return Last20Analysis {
                break_or_not: false,
                long_or_short: None,
                stop_loss_order: None,
                units: None,
                is_too_strong_to_entry: None,
                analyzed_at: last.date,
            };
        }
        let side = if direction == LongShortControl::Long {
            LongOrShort::Long
        } else {
            LongOrShort::Short
        };
        let (high, low) = range_extremes(s, n - 20, n);
        proof {
            lemma_max_high(w);
            lemma_min_low(w);
            assert(w[19] == s@[n - 1]);
            assert(s@[n - 1].wf());
        }
        let stop = self.stop_order(high, low, side);
        let units = units_to_trade(last.close, stop, side, self.source, capital);
        let body = (last.high - last.low) as u64;
        let reach = if direction == LongShortControl::Long {
            (last.high - low) as u64
        } else {
            (high - last.low) as u64
        };
        Last20Analysis {
            break_or_not: true,
            long_or_short: Some(side),
            stop_loss_order: Some(stop),
            units,
            is_too_strong_to_entry: Some(4 * body > 3 * reach),
            analyzed_at: last.date,
        }
    }

    fn stop_order(&self, high: u32, low: u32, side: LongOrShort) -> (r: u64)
        requires
            low <= high,
        ensures
            r <= 0x4_0000_0000_0000,
            r == placed_order(
                match side {
                    LongOrShort::Long => 100 * high - 38 * (high - low),
                    LongOrShort::Short => 100 * low + 38 * (high - low),
                },
                self.source,
            ),
    {
        let order: u64 = match side {
            LongOrShort::Long => 100 * high as u64 - 38 * (high - low) as u64,
            LongOrShort::Short => 100 * low as u64 + 38 * (high - low) as u64,
        };
        proof {
            vstd::arithmetic::div_mod::lemma_div_is_ordered_by_denominator(
                (2 * order + 100) as int,
                1,
                200,
            );
        }
        match self.source {
            OhlcSource::Jquants => order,
            OhlcSource::GmoCoinFx(_) => 100 * ((2 * order + 100) / 200),
        }
    }

    /// The stop-loss order (hundredths of a tick) that follows an open position.
    pub fn position_follow(&self) -> (r: u64)
        requires
            self.shorter_ohlc.len() >= crate::classifier::BREAKOUT_BARS,
            all_wf(self.shorter_ohlc@),
            self.position is Some,
        ensures
            r == placed_order(
                stop_order_of(breakout_bars(self.shorter_ohlc@), self.position->Some_0),
                self.source,
            ),
    {
        let s = &self.shorter_ohlc;
        let n = s.len();
        let (high, low) = range_extremes(s, n - 20, n);
        proof {
            lemma_max_high(breakout_bars(s@));
            lemma_min_low(breakout_bars(s@));
            assert(breakout_bars(s@)[0].wf());
        }
        match self.position {
            Some(side) => self.stop_order(high, low, side),
            None => 0,
        }
    }

    /// The range diff of the shorter series.
    pub fn get_shorter_ohlc_standardized_diff(&self) -> (r: Option<u32>)
        requires
            all_wf(self.shorter_ohlc@),
        ensures
            r == (if self.shorter_ohlc.len() == 0 || max_high(self.shorter_ohlc@) == min_low(
                self.shorter_ohlc@,
            ) {
                None::<u32>
            } else {
                Some(range_diff_of(self.shorter_ohlc@) as u32)
            }),
    {
        range_diff(&self.shorter_ohlc)
    }

    /// The range diff and the trend of the longer series.
    pub fn get_longer_ohlc_standardized_diff_and_trend(&self) -> (r: (Option<u32>, BullBear))
        requires
            all_wf(self.longer_ohlc@),
        ensures
            r.0 == (if self.longer_ohlc.len() == 0 || max_high(self.longer_ohlc@) == min_low(
                self.longer_ohlc@,
            ) {
                None::<u32>
            } else {
                Some(range_diff_of(self.longer_ohlc@) as u32)
            }),
            r.1 == trend_of(self.longer_ohlc@),
    {
        let s = &self.longer_ohlc;
        let diff = range_diff(s);
        let n = s.len();
        match diff {
            None => (None, BullBear::NoTrend),
            Some(d) => {
                let (h, l) = range_extremes(s, 0, n);
                assert(s@.subrange(0, n as int) =~= s@);
                proof {
                    lemma_max_high(s@);
                    lemma_min_low(s@);
                    assert(s@[n - 1].wf());
                    assert(s@[0].wf());
                }
                let c = s[n - 1].close;
                let trend = if d > 140 {
                    BullBear::NoTrend
                } else if 5 * (c as u64 - l as u64) <= (h - l) as u64 {
                    BullBear::Bear
                } else if 5 * (c as u64 - l as u64) >= 4 * (h - l) as u64 {
                    BullBear::Bull
                } else {
                    BullBear::NoTrend
                };
                (diff, trend)
            },
        }
    }
}

fn units_to_trade(close: u32, stop: u64, side: LongOrShort, source: OhlcSource, capital: u64) -> (r:
    Option<u64>)
    requires
        stop <= 0x4_0000_0000_0000,
    ensures
        r == (match units_of(close as int, stop as int, side, source, capital as int) {
            Some(u) => Some(u as u64),
            None => None::<u64>,
        }),
{
    let c = 100 * close as u64;
    let risk: u64 = match side {
        LongOrShort::Long => if c > stop {
            c - stop
        } else {
            0
        },
        LongOrShort::Short => if stop > c {
            stop - c
        } else {
            0
        },
    };
    if risk == 0 {
        return None;
    }
    proof {
        vstd::arithmetic::div_mod::lemma_div_is_ordered_by_denominator(
            100 * capital as int,
            1,
            risk as int,
        );
        crate::simulator::lemma_round_bound(30_000_000, risk as int);
    }
    match source {
        OhlcSource::Jquants => Some(((100 * capital as u128) / risk as u128) as u64),
        OhlcSource::GmoCoinFx(_) => Some((60_000_000 + risk) / (2 * risk)),
    }
}

} // verus!

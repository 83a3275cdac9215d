use vstd::prelude::*;

use crate::bar::{all_wf, lemma_max_high, lemma_min_low, max_high, min_low, range_extremes, Ohlc};
use crate::daytrading::{
    all_premium_wf, atr_of, bars_of, first_index_of, last5_atr, move_in_atr, required_for, sizing, units_for,
    OhlcPremium,
};
use crate::live::{range_diff, range_diff_of};
use crate::simulator::round_div;
use crate::window::{copy_range, BacktestError};

verus! {

/// How the last two days moved: the move from the open of the day before to the last
/// close, and whether the last day itself rose.
#[derive(Clone, Copy, Debug, PartialEq, Eq, Structural)]
pub enum MoveStatus {
    Rise,
    RiseBounded,
    FallBounded,
    Fall,
    Stable,
}

impl MoveStatus {
    pub fn name(&self) -> (r: &'static str)
        ensures
            r@ == (match self {
                MoveStatus::Rise => "Rise"@,
                MoveStatus::RiseBounded => "Rise bounded"@,
                MoveStatus::FallBounded => "Fall bounded"@,
                MoveStatus::Fall => "Fall"@,
                MoveStatus::Stable => "Stable"@,
            }),
    {
        match self {
            MoveStatus::Rise => "Rise",
            MoveStatus::RiseBounded => "Rise bounded",
            MoveStatus::FallBounded => "Fall bounded",
            MoveStatus::Fall => "Fall",
            MoveStatus::Stable => "Stable",
        }
    }
}

pub open spec fn move_status_of(before: Ohlc, last: Ohlc) -> MoveStatus {
    let two_day = last.close - before.open;
    let day_rose = last.close > last.open;
    if two_day > 0 {
        if day_rose {
            MoveStatus::Rise
        } else {
            MoveStatus::RiseBounded
        }
    } else if two_day < 0 {
        if day_rose {
            MoveStatus::FallBounded
        } else {
            MoveStatus::Fall
        }
    } else {
        MoveStatus::Stable
    }
}

/// Bars above the anchor: a high above the anchor's high and a low below its close.
pub open spec fn is_resistance(b: Ohlc, anchor: Ohlc) -> bool {
    b.high > anchor.high && anchor.close > b.low
}

/// Bars below the anchor: a high above its close and a low below the anchor's low.
pub open spec fn is_support(b: Ohlc, anchor: Ohlc) -> bool {
    b.high > anchor.close && anchor.low > b.low
}

pub open spec fn count_where(s: Seq<Ohlc>, anchor: Ohlc, resistance: bool) -> nat
    decreases s.len(),
{
    if s.len() == 0 {
        0
    } else {
        count_where(s.drop_last(), anchor, resistance) + if (resistance && is_resistance(
            s.last(),
            anchor,
        )) || (!resistance && is_support(s.last(), anchor)) {
            1nat
        } else {
            0nat
        }
    }
}

/// The fifth of `[l, h]` a price falls in (0 to 4; 0 for an empty range).
pub open spec fn band_index(v: int, l: int, h: int) -> int {
    if h == l {
        0
    } else {
        let i = (5 * (v - l)) / (h - l);
        if i > 4 {
            4
        } else {
            i
        }
    }
}

/// How many of the open, high, low and close prices of `s` fall in fifth `k`.
pub open spec fn prices_in_band(s: Seq<Ohlc>, l: int, h: int, k: int) -> nat
    decreases s.len(),
{
    if s.len() == 0 {
        0
    } else {
        let b = s.last();
        prices_in_band(s.drop_last(), l, h, k) + (if band_index(b.open as int, l, h) == k {
            1nat
        } else {
            0nat
        }) + (if band_index(b.high as int, l, h) == k {
            1nat
        } else {
            0nat
        }) + (if band_index(b.low as int, l, h) == k {
            1nat
        } else {
            0nat
        }) + (if band_index(b.close as int, l, h) == k {
            1nat
        } else {
            0nat
        })
    }
}

/// The busiest fifth of the range: the highest one among those holding the most prices.
pub open spec fn busiest_band(s: Seq<Ohlc>) -> int {
    let l = min_low(s);
    let h = max_high(s);
    let c = |k: int| prices_in_band(s, l, h, k);
    if c(4) >= c(3) && c(4) >= c(2) && c(4) >= c(1) && c(4) >= c(0) {
        4
    } else if c(3) >= c(2) && c(3) >= c(1) && c(3) >= c(0) {
        3
    } else if c(2) >= c(1) && c(2) >= c(0) {
        2
    } else if c(1) >= c(0) {
        1
    } else {
        0
    }
}

/// The resistance-strategy view of one anchor day of instrument `code`, with the units a
/// capital buys and their cost. Prices are in ticks, the average range in tenths of a tick, band bounds in hundredths of a tick, moves and results in
/// hundredths.
#[derive(Clone, Copy, Debug, PartialEq, Eq, Structural)]
pub struct StocksWindow {
    pub code: i32,
    pub atr: u64,
    pub unit: u128,
    pub required_amount: u128,
    pub latest_move: Option<i64>,
    pub standardized_diff: Option<u32>,
    pub current_price: u32,
    pub lower_bound: u64,
    pub upper_bound: u64,
    pub number_of_resistance_candles: usize,
    pub number_of_support_candles: usize,
    pub status: MoveStatus,
    pub result_morning: Option<i64>,
    pub result_afternoon: Option<i64>,
    pub result_allday: Option<i64>,
    pub nextday_morning_close: Option<u32>,
    pub analyzed_at: i32,
    pub result_at: Option<i32>,
}

/// The view of anchor `pos` of a premium series.
pub open spec fn stocks_window_of(s: Seq<OhlcPremium>, pos: int, code: i32, capital: u64) -> Result<
    StocksWindow,
    BacktestError,
> {
    let bars = bars_of(s);
    let w = bars.subrange(pos - 59, pos + 1);
    let anchor = bars[pos];
    let before = bars[pos - 1];
    let atr = atr_of(bars, pos);
    let l = min_low(w);
    let h = max_high(w);
    let k = busiest_band(w);
    let known = pos + 1 < s.len();
    let next = s[pos + 1];
    if pos < 60 {
        Err(BacktestError::InsufficientHistory)
    } else if atr <= 0 {
        Err(BacktestError::ZeroStopDistance)
    } else {
        Ok(
            StocksWindow {
                code,
                atr: atr as u64,
                unit: units_for(capital as int, atr) as u128,
                required_amount: required_for(capital as int, atr, anchor.close as int) as u128,
                latest_move: if before.high > before.low {
                    Some(
                        (if anchor.close >= anchor.open {
                            round_div(100 * (anchor.close - anchor.open), before.high - before.low)
                        } else {
                            round_div(100 * (anchor.open - anchor.close), before.high - before.low)
                        }) as i64,
                    )
                } else {
                    None
                },
                standardized_diff: if h == l {
                    None
                } else {
                    Some(range_diff_of(w) as u32)
                },
                current_price: anchor.close,
                lower_bound: (100 * l + 20 * (h - l) * k) as u64,
                upper_bound: (100 * l + 20 * (h - l) * (k + 1)) as u64,
                number_of_resistance_candles: count_where(w, anchor, true) as usize,
                number_of_support_candles: count_where(w, anchor, false) as usize,
                status: move_status_of(before, anchor),
                result_morning: if known {
                    Some(move_in_atr(next.bar.open as int, next.morning_close as int, atr) as i64)
                } else {
                    None
                },
                result_afternoon: if known {
                    Some(move_in_atr(next.afternoon_open as int, next.bar.close as int, atr) as i64)
                } else {
                    None
                },
                result_allday: if known {
                    Some(move_in_atr(next.bar.open as int, next.bar.close as int, atr) as i64)
                } else {
                    None
                },
                nextday_morning_close: if known {
                    Some(next.morning_close)
                } else {
                    None
                },
                analyzed_at: anchor.date,
                result_at: if known {
                    Some(next.bar.date)
                } else {
                    None
                },
            },
        )
    }
}

fn band_of_price(v: u32, l: u32, h: u32) -> (r: usize)
    requires
        l <= v <= h,
    ensures
        r == band_index(v as int, l as int, h as int),
        r <= 4,
{
    if h == l {
        return 0;
    }
    proof {
        vstd::arithmetic::div_mod::lemma_div_pos_is_pos(5 * (v - l) as int, (h - l) as int);
    }
    let i = (5 * (v - l) as u64) / (h - l) as u64;
    if i > 4 {
        4
    } else {
        i as usize
    }
}

/// Counts the bars above and below the anchor, and the prices in each fifth of the
/// range, over `w`.
fn tally(w: &Vec<Ohlc>, anchor: Ohlc, l: u32, h: u32) -> (r: (usize, usize, [usize; 5]))
    requires
        all_wf(w@),
        w.len() <= 60,
        forall|i: int| 0 <= i < w@.len() ==> l <= #[trigger] w@[i].low && w@[i].high <= h,
    ensures
        r.0 == count_where(w@, anchor, true),
        r.1 == count_where(w@, anchor, false),
        forall|k: int| 0 <= k < 5 ==> #[trigger] r.2@[k] == prices_in_band(w@, l as int, h as int, k),
{
    let mut res: usize = 0;
    let mut sup: usize = 0;
    let mut counts: [usize; 5] = [0, 0, 0, 0, 0];
    let mut i: usize = 0;
    while i < w.len()
        invariant
            0 <= i <= w.len() <= 60,
            all_wf(w@),
            forall|j: int| 0 <= j < w@.len() ==> l <= #[trigger] w@[j].low && w@[j].high <= h,
            res == count_where(w@.subrange(0, i as int), anchor, true),
            sup == count_where(w@.subrange(0, i as int), anchor, false),
            res <= i && sup <= i,
            forall|k: int| 0 <= k < 5 ==> #[trigger] counts@[k] == prices_in_band(
                w@.subrange(0, i as int),
                l as int,
                h as int,
                k,
            ),
            forall|k: int| 0 <= k < 5 ==> #[trigger] counts@[k] <= 4 * i,
        decreases w.len() - i,
    {
        assert(w@.subrange(0, i + 1).drop_last() =~= w@.subrange(0, i as int));
        let b = w[i];
        proof {
            assert(w@[i as int].wf());
        }
        if b.high > anchor.high && anchor.close > b.low {
            res = res + 1;
        }
        if b.high > anchor.close && anchor.low > b.low {
            sup = sup + 1;
        }
        let ghost before = counts@;
        let bo = band_of_price(b.open, l, h);
        counts[bo] = counts[bo] + 1;
        let bh = band_of_price(b.high, l, h);
        counts[bh] = counts[bh] + 1;
        let bl = band_of_price(b.low, l, h);
        counts[bl] = counts[bl] + 1;
        let bc = band_of_price(b.close, l, h);
        counts[bc] = counts[bc] + 1;
        assert forall|k: int| 0 <= k < 5 implies #[trigger] counts@[k] == prices_in_band(
            w@.subrange(0, i + 1),
            l as int,
            h as int,
            k,
        ) by {
            assert(w@.subrange(0, i + 1).last() == b);
            assert(counts@[k] == before[k] + (if bo == k {
                1int
            } else {
                0
            }) + (if bh == k {
                1int
            } else {
                0
            }) + (if bl == k {
                1int
            } else {
                0
            }) + (if bc == k {
                1int
            } else {
                0
            }));
        }
        i = i + 1;
    }
    assert(w@.subrange(0, w.len() as int) =~= w@);
    (res, sup, counts)
}

impl StocksWindow {
    /// The resistance-strategy view of the first bar dated `date`; `NoSuchDate` where
    /// none is.
    pub fn from_vec(ohlc_vec: &Vec<OhlcPremium>, code: i32, capital: u64, date: i32) -> (r: Result<
        StocksWindow,
        BacktestError,
    >)
        requires
            all_premium_wf(ohlc_vec@),
        ensures
            match first_index_of(ohlc_vec@, date) {
                Some(i) => r == stocks_window_of(ohlc_vec@, i, code, capital),
                None => r == Err::<StocksWindow, BacktestError>(BacktestError::NoSuchDate),
            },
    {
        let mut i: usize = 0;
        while i < ohlc_vec.len()
            invariant
                0 <= i <= ohlc_vec.len(),
                all_premium_wf(ohlc_vec@),
                forall|j: int| 0 <= j < i ==> #[trigger] ohlc_vec@[j].bar.date != date,
            decreases ohlc_vec.len() - i,
        {
            if ohlc_vec[i].bar.date == date {
                assert(ohlc_vec@[i as int].bar.date == date);
                let ghost c = choose|c: int|
                    0 <= c < ohlc_vec@.len() && ohlc_vec@[c].bar.date == date && forall|j: int|
                        0 <= j < c ==> #[trigger] ohlc_vec@[j].bar.date != date;
                assert(c == i) by {
                    if c < i {
                        assert(ohlc_vec@[c].bar.date != date);
                    }
                    if c > i {
                        assert(ohlc_vec@[i as int].bar.date != date);
                    }
                }
                return StocksWindow::from_index(ohlc_vec, i, code, capital);
            }
            i = i + 1;
        }
        Err(BacktestError::NoSuchDate)
    }

    /// The resistance-strategy view of the bar at index `pos`.
    pub fn from_index(ohlc_vec: &Vec<OhlcPremium>, pos: usize, code: i32, capital: u64) -> (r: Result<
        StocksWindow,
        BacktestError,
    >)
        requires
            pos < ohlc_vec.len(),
            all_premium_wf(ohlc_vec@),
        ensures
            r == stocks_window_of(ohlc_vec@, pos as int, code, capital),
    {
        if pos < 60 {
            return Err(BacktestError::InsufficientHistory);
        }
        let mut w: Vec<Ohlc> = Vec::new();
        let mut i: usize = pos - 59;
        let ghost lo: int = pos - 59;
        let ghost src = bars_of(ohlc_vec@);
        assert(src.len() == ohlc_vec@.len());
        while i <= pos
            invariant
                pos >= 59,
                lo == pos - 59,
                lo <= i <= pos + 1,
                pos < ohlc_vec.len(),
                src == bars_of(ohlc_vec@),
                src.len() == ohlc_vec@.len(),
                w@ == src.subrange(lo, i as int),
                all_premium_wf(ohlc_vec@),
            decreases pos + 1 - i,
        {
            let ghost prev = w@;
            w.push(ohlc_vec[i].bar);
            assert(src[i as int] == ohlc_vec@[i as int].bar);
            i = i + 1;
            assert forall|k: int| 0 <= k < w@.len() implies w@[k] == src.subrange(lo, i as int)[k] by {
                if k < prev.len() {
                    assert(w@[k] == prev[k]);
                }
            }
            assert(w@ =~= src.subrange(lo, i as int));
        }
        proof {
            assert forall|j: int| 0 <= j < w@.len() implies #[trigger] w@[j].wf() by {
                assert(w@[j] == ohlc_vec@[lo + j].bar);
                assert(ohlc_vec@[lo + j].wf());
            }
        }
        assert(w@.subrange(55, 60) =~= src.subrange(pos + 1 - 5, pos + 1));
        let atr = last5_atr(&w);
        if atr == 0 {
            return Err(BacktestError::ZeroStopDistance);
        }
        let anchor = w[59];
        let before = w[58];
        assert(anchor == src[pos as int]);
        assert(before == src[pos - 1]);
        proof {
            assert(w@[59].wf());
            assert(w@[58].wf());
        }
        let latest_move = if before.high > before.low {
            let span = (before.high - before.low) as u64;
            let a: u64 = if anchor.close >= anchor.open {
                100 * (anchor.close - anchor.open) as u64
            } else {
                100 * (anchor.open - anchor.close) as u64
            };
            proof {
                crate::simulator::lemma_round_bound(a as int, span as int);
            }
            Some(((2 * a + span) / (2 * span)) as i64)
        } else {
            None
        };
        let (h, l) = range_extremes(&w, 0, 60);
        assert(w@.subrange(0, 60) =~= w@);
        proof {
            lemma_max_high(w@);
            lemma_min_low(w@);
        }
        let (res, sup, counts) = tally(&w, anchor, l, h);
        let c0 = counts[0];
        let c1 = counts[1];
        let c2 = counts[2];
        let c3 = counts[3];
        let c4 = counts[4];
        let best: u64 = if c4 >= c3 && c4 >= c2 && c4 >= c1 && c4 >= c0 {
            4
        } else if c3 >= c2 && c3 >= c1 && c3 >= c0 {
            3
        } else if c2 >= c1 && c2 >= c0 {
            2
        } else if c1 >= c0 {
            1
        } else {
            0
        };
        let spread = (h - l) as u64;
        assert(20 * spread * (best + 1) <= 100 * 0xffff_ffffu64) by (nonlinear_arith)
            requires
                spread <= 0xffff_ffffu64,
                best <= 4,
        ;
        assert(20 * spread * best <= 20 * spread * (best + 1)) by (nonlinear_arith);
        let lower = 100 * l as u64 + 20 * spread * best;
        let upper = 100 * l as u64 + 20 * spread * (best + 1);
        let diff = range_diff(&w);
        let status = if anchor.close > before.open {
            if anchor.close > anchor.open {
                MoveStatus::Rise
            } else {
                MoveStatus::RiseBounded
            }
        } else if anchor.close < before.open {
            if anchor.close > anchor.open {
                MoveStatus::FallBounded
            } else {
                MoveStatus::Fall
            }
        } else {
            MoveStatus::Stable
        };
        let known = pos + 1 < ohlc_vec.len();
        let (morning, afternoon, allday, next_mc, result_at) = if known {
            let next = ohlc_vec[pos + 1];
            (
                Some(move_in(next.bar.open, next.morning_close, atr)),
                Some(move_in(next.afternoon_open, next.bar.close, atr)),
                Some(move_in(next.bar.open, next.bar.close, atr)),
                Some(next.morning_close),
                Some(next.bar.date),
            )
        } else {
            (None, None, None, None, None)
        };
        let (unit, required_amount) = sizing(capital, atr, anchor.close);
        Ok(
            StocksWindow {
                code,
                atr,
                unit,
                required_amount,
                latest_move,
                standardized_diff: diff,
                current_price: anchor.close,
                lower_bound: lower,
                upper_bound: upper,
                number_of_resistance_candles: res,
                number_of_support_candles: sup,
                status,
                result_morning: morning,
                result_afternoon: afternoon,
                result_allday: allday,
                nextday_morning_close: next_mc,
                analyzed_at: anchor.date,
                result_at,
            },
        )
    }
}

/// A move from `from` to `to` in hundredths of an average range (tenths of a tick).
fn move_in(from: u32, to: u32, atr: u64) -> (r: i64)
    requires
        atr > 0,
    ensures
        r == move_in_atr(from as int, to as int, atr as int),
{
    let a: u64 = if to >= from {
        1000 * (to - from) as u64
    } else {
        1000 * (from - to) as u64
    };
    proof {
        crate::simulator::lemma_round_bound(a as int, atr as int);
    }
    let q = ((2 * a as u128 + atr as u128) / (2 * atr as u128)) as i64;
    if to >= from {
        q
    } else {
        -q
    }
}

} // verus!

verus! {

/// The views of the anchors `s[0..n]` dated in `[from, to]`, in order.
pub open spec fn windows_upto(
    s: Seq<OhlcPremium>,
    code: i32,
    capital: u64,
    from: int,
    to: int,
    n: int,
) -> Seq<StocksWindow>
    decreases n,
{
    if n <= 0 {
        Seq::empty()
    } else {
        let prev = windows_upto(s, code, capital, from, to, n - 1);
        if from <= s[n - 1].bar.date <= to {
            match stocks_window_of(s, n - 1, code, capital) {
                Ok(w) => prev.push(w),
                Err(_) => prev,
            }
        } else {
            prev
        }
    }
}

/// The views of `s` kept by a filter: range diff below `limit`, or latest move below it.
pub open spec fn kept(w: StocksWindow, limit: int, by_diff: bool) -> bool {
    if by_diff {
        w.standardized_diff matches Some(d) && d < limit
    } else {
        w.latest_move matches Some(m) && m < limit
    }
}

pub open spec fn filtered(s: Seq<StocksWindow>, limit: int, by_diff: bool) -> Seq<StocksWindow>
    decreases s.len(),
{
    if s.len() == 0 {
        Seq::empty()
    } else {
        let prev = filtered(s.drop_last(), limit, by_diff);
        if kept(s.last(), limit, by_diff) {
            prev.push(s.last())
        } else {
            prev
        }
    }
}

/// Which next-day result counts a gainer.
#[derive(Clone, Copy, Debug, PartialEq, Eq, Structural)]
pub enum Session {
    Morning,
    Afternoon,
    Allday,
}

pub open spec fn gained(w: StocksWindow, session: Session) -> bool {
    let r = match session {
        Session::Morning => w.result_morning,
        Session::Afternoon => w.result_afternoon,
        Session::Allday => w.result_allday,
    };
    r matches Some(v) && v > 0
}

pub open spec fn gainers(s: Seq<StocksWindow>, session: Session) -> nat
    decreases s.len(),
{
    if s.len() == 0 {
        0
    } else {
        gainers(s.drop_last(), session) + if gained(s.last(), session) {
            1nat
        } else {
            0nat
        }
    }
}

/// Resistance-strategy views gathered over instruments and days.
#[derive(Clone, Debug)]
pub struct StocksWindowList {
    pub data: Vec<StocksWindow>,
}

impl StocksWindowList {
    pub fn new() -> (r: StocksWindowList)
        ensures
            r.data@ == Seq::<StocksWindow>::empty(),
    {
        StocksWindowList { data: Vec::new() }
    }

    /// Adds the view (with the position `capital` buys) of every anchor of instrument
    /// `code` dated in `[from, to]`; anchors
    /// without enough history or with a zero average range are skipped.
    pub fn push(&mut self, ohlc_vec: &Vec<OhlcPremium>, code: i32, capital: u64, from: i32, to: i32)
        requires
            all_premium_wf(ohlc_vec@),
        ensures
            final(self).data@ == old(self).data@ + windows_upto(
                ohlc_vec@,
                code,
                capital,
                from as int,
                to as int,
                ohlc_vec.len() as int,
            ),
    {
        let ghost start = self.data@;
        let mut i: usize = 0;
        while i < ohlc_vec.len()
            invariant
                0 <= i <= ohlc_vec.len(),
                all_premium_wf(ohlc_vec@),
                self.data@ == start + windows_upto(ohlc_vec@, code, capital, from as int, to as int, i as int),
            decreases ohlc_vec.len() - i,
        {
            let date = ohlc_vec[i].bar.date;
            if from <= date && date <= to {
                match StocksWindow::from_index(ohlc_vec, i, code, capital) {
                    Ok(w) => self.data.push(w),
                    Err(_) => {},
                }
            }
            proof {
                assert(start + windows_upto(ohlc_vec@, code, capital, from as int, to as int, i + 1) =~= self.data@);
            }
            i = i + 1;
        }
    }

    /// Moves the views of another list to the end of this one.
    pub fn append(&mut self, other: StocksWindowList)
        ensures
            final(self).data@ == old(self).data@ + other.data@,
    {
        let mut other = other;
        self.data.append(&mut other.data);
    }

    fn retain_below(&mut self, limit: i64, by_diff: bool)
        ensures
            final(self).data@ == filtered(old(self).data@, limit as int, by_diff),
    {
        let mut kept_views: Vec<StocksWindow> = Vec::new();
        let mut i: usize = 0;
        while i < self.data.len()
            invariant
                0 <= i <= self.data.len(),
                self.data@ == old(self).data@,
                kept_views@ == filtered(self.data@.subrange(0, i as int), limit as int, by_diff),
            decreases self.data.len() - i,
        {
            assert(self.data@.subrange(0, i + 1).drop_last() =~= self.data@.subrange(0, i as int));
            let w = self.data[i];
            let keep = if by_diff {
                match w.standardized_diff {
                    Some(d) => (d as i64) < limit,
                    None => false,
                }
            } else {
                match w.latest_move {
                    Some(m) => m < limit,
                    None => false,
                }
            };
            if keep {
                kept_views.push(w);
            }
            i = i + 1;
        }
        assert(self.data@.subrange(0, self.data.len() as int) =~= self.data@);
        self.data = kept_views;
    }

    /// Keeps the views whose range diff (thousandths) is below `diff`.
    pub fn filter_by_standardized_diff(&mut self, diff: u32)
        ensures
            final(self).data@ == filtered(old(self).data@, diff as int, true),
    {
        self.retain_below(diff as i64, true);
    }

    /// Keeps the views whose latest move (hundredths) is below `latest_move`.
    pub fn filter_by_latest_move(&mut self, latest_move: i64)
        ensures
            final(self).data@ == filtered(old(self).data@, latest_move as int, false),
    {
        self.retain_below(latest_move, false);
    }

    /// How many views gained in a session of the next day.
    pub fn number_of_gainers(&self, session: Session) -> (r: usize)
        ensures
            r == gainers(self.data@, session),
    {
        let mut n: usize = 0;
        let mut i: usize = 0;
        while i < self.data.len()
            invariant
                0 <= i <= self.data.len(),
                n == gainers(self.data@.subrange(0, i as int), session),
                n <= i,
            decreases self.data.len() - i,
        {
            assert(self.data@.subrange(0, i + 1).drop_last() =~= self.data@.subrange(0, i as int));
            let w = &self.data[i];
            let r = match session {
                Session::Morning => w.result_morning,
                Session::Afternoon => w.result_afternoon,
                Session::Allday => w.result_allday,
            };
            match r {
                Some(v) => if v > 0 {
                    n = n + 1;
                },
                None => {},
            }
            i = i + 1;
        }
        assert(self.data@.subrange(0, self.data.len() as int) =~= self.data@);
        n
    }
}

} // verus!

verus! {

/// The index of the last completed day: the one before the last bar where the last
/// bar is dated `date` (today's bar already in), else the last bar.
pub open spec fn afternoon_position(s: Seq<Ohlc>, date: i32) -> int {
    if s.last().date == date {
        s.len() - 2
    } else {
        s.len() - 1
    }
}

/// The midday view of a stock: the last completed day's bars against this morning's
/// session, with the units a capital buys and their cost. Prices in ticks, the average range in tenths of a tick, the move in
/// hundredths of the last day's range.
#[derive(Clone, Copy, Debug, PartialEq, Eq, Structural)]
pub struct StocksAfternoon {
    pub code: i32,
    pub atr: u64,
    pub unit: u128,
    pub required_amount: u128,
    pub latest_move: Option<i64>,
    pub standardized_diff: Option<u32>,
    pub number_of_resistance_candles: usize,
    pub number_of_support_candles: usize,
    pub status: MoveStatus,
    pub yesterday_close: u32,
    pub morning_open: u32,
    pub morning_close: u32,
    pub analyzed_at: i32,
}

/// The midday view, or why there is none.
pub open spec fn afternoon_of(s: Seq<Ohlc>, morning: Ohlc, code: i32, capital: u64, date: i32) -> Result<
    StocksAfternoon,
    BacktestError,
> {
    let pos = afternoon_position(s, date);
    let w = s.subrange(pos - 59, pos + 1);
    let last = s[pos];
    let atr = round_div(10 * crate::bar::sum_range(w.subrange(55, 60)), 5);
    let span = last.high - last.low;
    let moved = morning.close - morning.open;
    if s.len() == 0 || pos < 60 {
        Err(BacktestError::InsufficientHistory)
    } else if atr <= 0 {
        Err(BacktestError::ZeroStopDistance)
    } else {
        Ok(
            StocksAfternoon {
                code,
                atr: atr as u64,
                unit: units_for(capital as int, atr) as u128,
                required_amount: required_for(capital as int, atr, last.close as int) as u128,
                latest_move: if span > 0 {
                    Some(
                        (if moved >= 0 {
                            round_div(100 * moved, span)
                        } else {
                            round_div(-100 * moved, span)
                        }) as i64,
                    )
                } else {
                    None
                },
                standardized_diff: if max_high(w) == min_low(w) {
                    None
                } else {
                    Some(range_diff_of(w) as u32)
                },
                number_of_resistance_candles: count_where(w, morning, true) as usize,
                number_of_support_candles: count_where(w, morning, false) as usize,
                status: if morning.close > last.open {
                    MoveStatus::Rise
                } else if morning.close < last.open {
                    MoveStatus::Fall
                } else {
                    MoveStatus::Stable
                },
                yesterday_close: s[pos - 1].close,
                morning_open: morning.open,
                morning_close: morning.close,
                analyzed_at: date,
            },
        )
    }
}

impl StocksAfternoon {
    /// The midday view of a stock on `date`, given its daily bars and this morning's
    /// session as a bar. Fails where fewer than 61 completed days are at hand, or their
    /// last five bars are flat.
    pub fn from_vec(
        ohlc_vec: &Vec<Ohlc>,
        prices_am: &Ohlc,
        code: i32,
        capital: u64,
        date: i32,
    ) -> (r: Result<
        StocksAfternoon,
        BacktestError,
    >)
        requires
            all_wf(ohlc_vec@),
            prices_am.wf(),
        ensures
            r == afternoon_of(ohlc_vec@, *prices_am, code, capital, date),
    {
        let n = ohlc_vec.len();
        if n == 0 {
            return Err(BacktestError::InsufficientHistory);
        }
        let pos = if ohlc_vec[n - 1].date == date {
            if n < 2 {
                return Err(BacktestError::InsufficientHistory);
            }
            n - 2
        } else {
            n - 1
        };
        if pos < 60 {
            return Err(BacktestError::InsufficientHistory);
        }
        let w = copy_range(ohlc_vec, pos - 59, pos + 1);
        proof {
            assert forall|j: int| 0 <= j < w@.len() implies #[trigger] w@[j].wf() by {
                assert(w@[j] == ohlc_vec@[pos - 59 + j]);
            }
        }
        let atr = last5_atr(&w);
        if atr == 0 {
            return Err(BacktestError::ZeroStopDistance);
        }
        let last = w[59];
        assert(last == ohlc_vec@[pos as int]);
        proof {
            assert(w@[59].wf());
        }
        let m = *prices_am;
        let latest_move = if last.high > last.low {
            let span = (last.high - last.low) as u64;
            let a: u64 = if m.close >= m.open {
                100 * (m.close - m.open) as u64
            } else {
                100 * (m.open - m.close) as u64
            };
            proof {
                crate::simulator::lemma_round_bound(a as int, span as int);
            }
            Some(((2 * a + span) / (2 * span)) as i64)
        } else {
            None
        };
        let (h, l) = range_extremes(&w, 0, 60);
        assert(w@.subrange(0, 60) =~= w@);
        proof {
            lemma_max_high(w@);
            lemma_min_low(w@);
        }
        let (res, sup, _) = tally(&w, m, l, h);
        let status = if m.close > last.open {
            MoveStatus::Rise
        } else if m.close < last.open {
            MoveStatus::Fall
        } else {
            MoveStatus::Stable
        };
        let (unit, required_amount) = sizing(capital, atr, last.close);
        Ok(
            StocksAfternoon {
                code,
                atr,
                unit,
                required_amount,
                latest_move,
                standardized_diff: range_diff(&w),
                number_of_resistance_candles: res,
                number_of_support_candles: sup,
                status,
                yesterday_close: ohlc_vec[pos - 1].close,
                morning_open: m.open,
                morning_close: m.close,
                analyzed_at: date,
            },
        )
    }
}

} // verus!

verus! {

/// The sort key of item `i` with count `c`: larger counts first, then earlier items.
pub open spec fn rank_key(c: int, i: int) -> u64 {
    ((0xffff_ffff - c) * 0x1_0000_0000 + i) as u64
}

pub open spec fn rank_keys(counts: Seq<usize>) -> Seq<u64> {
    Seq::new(counts.len(), |i: int| rank_key(counts[i] as int, i))
}

/// The first `k` items of `data` ranked by `counts`, most first, ties in order.
pub open spec fn top_by(data: Seq<StocksWindow>, counts: Seq<usize>, k: int) -> Seq<StocksWindow> {
    let ranked = crate::regime::ascending(rank_keys(counts));
    let m = if ranked.len() < k {
        ranked.len() as int
    } else {
        k
    };
    Seq::new(m as nat, |j: int| data[(ranked[j] % 0x1_0000_0000) as int])
}

pub open spec fn candle_counts(data: Seq<StocksWindow>, resistance: bool) -> Seq<usize> {
    Seq::new(
        data.len(),
        |i: int|
            if resistance {
                data[i].number_of_resistance_candles
            } else {
                data[i].number_of_support_candles
            },
    )
}

impl StocksWindowList {
    fn top10(&self, resistance: bool) -> (r: StocksWindowList)
        requires
            self.data.len() <= 0xffff_ffff,
            forall|i: int|
                0 <= i < self.data@.len() ==> #[trigger] self.data@[i].number_of_resistance_candles
                    <= 0xffff_ffff && self.data@[i].number_of_support_candles <= 0xffff_ffff,
        ensures
            r.data@ == top_by(self.data@, candle_counts(self.data@, resistance), 10),
    {
        let ghost counts = candle_counts(self.data@, resistance);
        let mut keys: Vec<u64> = Vec::new();
        let mut i: usize = 0;
        while i < self.data.len()
            invariant
                0 <= i <= self.data.len() <= 0xffff_ffff,
                counts == candle_counts(self.data@, resistance),
                forall|j: int|
                    0 <= j < self.data@.len() ==> #[trigger] self.data@[j].number_of_resistance_candles
                        <= 0xffff_ffff && self.data@[j].number_of_support_candles <= 0xffff_ffff,
                keys@ == rank_keys(counts).subrange(0, i as int),
            decreases self.data.len() - i,
        {
            let c = if resistance {
                self.data[i].number_of_resistance_candles
            } else {
                self.data[i].number_of_support_candles
            };
            assert(c == counts[i as int]);
            assert(self.data@[i as int].number_of_resistance_candles <= 0xffff_ffff);
            assert((0xffff_ffff - c) * 0x1_0000_0000 + i <= 0xffff_ffff_ffff_ffff) by (nonlinear_arith)
                requires
                    c <= 0xffff_ffff,
                    i <= 0xffff_ffff,
            ;
            let key: u64 = (0xffff_ffff - c as u64) * 0x1_0000_0000 + i as u64;
            keys.push(key);
            i = i + 1;
            assert(keys@ =~= rank_keys(counts).subrange(0, i as int));
        }
        assert(rank_keys(counts).subrange(0, self.data.len() as int) =~= rank_keys(counts));
        let ranked = crate::regime::sorted_copy(&keys);
        let m: usize = if ranked.len() < 10 {
            ranked.len()
        } else {
            10
        };
        proof {
            crate::regime::lemma_leq_total();
            rank_keys(counts).lemma_sort_by_ensures(crate::regime::leq_u64());
        }
        let mut out: Vec<StocksWindow> = Vec::new();
        let mut j: usize = 0;
        while j < m
            invariant
                0 <= j <= m <= ranked@.len(),
                ranked@ == crate::regime::ascending(rank_keys(counts)),
                ranked@.len() == self.data@.len(),
                forall|x: u64| ranked@.contains(x) ==> rank_keys(counts).contains(x),
                self.data@.len() <= 0xffff_ffff,
                counts == candle_counts(self.data@, resistance),
                forall|q: int|
                    0 <= q < self.data@.len() ==> #[trigger] self.data@[q].number_of_resistance_candles
                        <= 0xffff_ffff && self.data@[q].number_of_support_candles <= 0xffff_ffff,
                out@ == Seq::new(
                    j as nat,
                    |t: int| self.data@[(ranked@[t] % 0x1_0000_0000) as int],
                ),
            decreases m - j,
        {
            let key = ranked[j];
            proof {
                assert(ranked@.contains(ranked@[j as int]));
                let p = choose|p: int| 0 <= p < rank_keys(counts).len() && rank_keys(counts)[p] == key;
                assert(self.data@[p].number_of_resistance_candles <= 0xffff_ffff);
                assert(0 <= counts[p] <= 0xffff_ffff);
                assert(key == (0xffff_ffff - counts[p]) * 0x1_0000_0000 + p) by (nonlinear_arith)
                    requires
                        key == rank_key(counts[p] as int, p),
                        0 <= p < 0x1_0000_0000,
                        0 <= counts[p] <= 0xffff_ffff,
                ;
                assert(key % 0x1_0000_0000 == p) by (nonlinear_arith)
                    requires
                        key == (0xffff_ffff - counts[p]) * 0x1_0000_0000 + p,
                        0 <= p < 0x1_0000_0000,
                        0 <= counts[p] <= 0xffff_ffff,
                ;
            }
            let idx = (key % 0x1_0000_0000) as usize;
            out.push(self.data[idx]);
            j = j + 1;
            assert(out@ =~= Seq::new(
                j as nat,
                |t: int| self.data@[(ranked@[t] % 0x1_0000_0000) as int],
            ));
        }
        StocksWindowList { data: out }
    }

    /// The ten views with the most resistance candles, ties in list order.
    pub fn get_resistance_candles_top10(&self) -> (r: StocksWindowList)
        requires
            self.data.len() <= 0xffff_ffff,
            forall|i: int|
                0 <= i < self.data@.len() ==> #[trigger] self.data@[i].number_of_resistance_candles
                    <= 0xffff_ffff && self.data@[i].number_of_support_candles <= 0xffff_ffff,
        ensures
            r.data@ == top_by(self.data@, candle_counts(self.data@, true), 10),
    {
        self.top10(true)
    }

    /// The ten views with the most support candles, ties in list order.
    pub fn get_support_candles_top10(&self) -> (r: StocksWindowList)
        requires
            self.data.len() <= 0xffff_ffff,
            forall|i: int|
                0 <= i < self.data@.len() ==> #[trigger] self.data@[i].number_of_resistance_candles
                    <= 0xffff_ffff && self.data@[i].number_of_support_candles <= 0xffff_ffff,
        ensures
            r.data@ == top_by(self.data@, candle_counts(self.data@, false), 10),
    {
        self.top10(false)
    }
}

} // verus!

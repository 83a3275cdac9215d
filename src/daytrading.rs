use vstd::prelude::*;

use crate::aggregate::CompressionBands;
use crate::bar::{all_wf, max_high, min_low, sum_range, Ohlc};
use crate::classifier::{
    breakout_bars, classify_status, gap_adjusted, standardized_diff_of, standardized_range_diff,
    status_of, Status,
};
use crate::regime::{contains_date, RegimeLabel, TopixDailyWindowList2};
use crate::simulator::round_div;
use crate::window::BacktestError;

verus! {

/// A daily bar with the morning session's close and the afternoon session's open.
#[derive(Clone, Copy, Debug, PartialEq, Eq, Structural)]
pub struct OhlcPremium {
    pub bar: Ohlc,
    pub morning_close: u32,
    pub afternoon_open: u32,
}

impl OhlcPremium {
    /// The bar is well formed and both session prices lie within its range.
    pub open spec fn wf(self) -> bool {
        &&& self.bar.wf()
        &&& self.bar.low <= self.morning_close <= self.bar.high
        &&& self.bar.low <= self.afternoon_open <= self.bar.high
    }

    /// A premium bar; `None` where a price lies outside `[low, high]`.
    pub fn new(bar: Ohlc, morning_close: u32, afternoon_open: u32) -> (r: Option<OhlcPremium>)
        ensures
            r matches Some(p) ==> p.wf() && p.bar == bar && p.morning_close == morning_close
                && p.afternoon_open == afternoon_open,
            r is None <==> !(bar.wf() && bar.low <= morning_close <= bar.high && bar.low
                <= afternoon_open <= bar.high),
    {
        if bar.low <= bar.open && bar.open <= bar.high && bar.low <= bar.close && bar.close
            <= bar.high && bar.low <= morning_close && morning_close <= bar.high && bar.low
            <= afternoon_open && afternoon_open <= bar.high {
            Some(OhlcPremium { bar, morning_close, afternoon_open })
        } else {
            None
        }
    }
}

pub open spec fn bars_of(s: Seq<OhlcPremium>) -> Seq<Ohlc> {
    s.map_values(|p: OhlcPremium| p.bar)
}

pub open spec fn all_premium_wf(s: Seq<OhlcPremium>) -> bool {
    forall|i: int| 0 <= i < s.len() ==> #[trigger] s[i].wf()
}

/// Bars the average true range is taken over.
pub const ATR_BARS: usize = 5;

/// The mean daily range of the last `ATR_BARS` bars up to index `pos`, in tenths of a
/// tick, rounded.
pub open spec fn atr_of(bars: Seq<Ohlc>, pos: int) -> int {
    round_div(10 * sum_range(bars.subrange(pos + 1 - ATR_BARS, pos + 1)), ATR_BARS as int)
}

/// A move from `from` to `to` in hundredths of an average range given in tenths of a
/// tick, rounded.
pub open spec fn move_in_atr(from: int, to: int, atr: int) -> int {
    round_div(1000 * (to - from), atr)
}

/// The day-trading view of anchor `pos` of instrument `code`: its breakout state,
/// average range and range diff, the position `capital` buys, and, where the next day
/// is known, how its sessions moved against its open.
pub open spec fn daytrading_of(s: Seq<OhlcPremium>, pos: int, code: i32, capital: u64) -> Result<
    StocksDaytrading,
    BacktestError,
> {
    let bars = bars_of(s);
    let history = bars.subrange(pos + 1 - 60, pos + 1);
    let atr = atr_of(bars, pos);
    let adjusted = gap_adjusted(history);
    if pos < 60 {
        Err(BacktestError::InsufficientHistory)
    } else if atr <= 0 || max_high(adjusted) == min_low(adjusted) {
        Err(BacktestError::ZeroStopDistance)
    } else {
        let next = s[pos + 1];
        let known = pos + 1 < s.len();
        let open = next.bar.open as int;
        Ok(
            StocksDaytrading {
                code,
                status: status_of(breakout_bars(history)),
                atr: atr as u64,
                unit: units_for(capital as int, atr) as u128,
                required_amount: required_for(capital as int, atr, s[pos].bar.close as int) as u128,
                standardized_diff: standardized_diff_of(history) as u32,
                result_push_close: if known {
                    Some(round_div(500 * (next.morning_close - open), atr) as i64)
                } else {
                    None
                },
                result_morning_close: if known {
                    Some(move_in_atr(open, next.morning_close as int, atr) as i64)
                } else {
                    None
                },
                result_afternoon_open: if known {
                    Some(move_in_atr(open, next.afternoon_open as int, atr) as i64)
                } else {
                    None
                },
                result_close: if known {
                    Some(move_in_atr(open, next.bar.close as int, atr) as i64)
                } else {
                    None
                },
                analyzed_at: s[pos].bar.date,
            },
        )
    }
}

/// One anchor day seen for day trading. The average range is in tenths of a tick, the
/// cost of the position in ticks, the range diff in thousandths, the next-day results
/// in hundredths of the average range.
#[derive(Clone, Copy, Debug, PartialEq, Eq, Structural)]
pub struct StocksDaytrading {
    pub code: i32,
    pub status: Status,
    pub atr: u64,
    pub unit: u128,
    pub required_amount: u128,
    pub standardized_diff: u32,
    pub result_push_close: Option<i64>,
    pub result_morning_close: Option<i64>,
    pub result_afternoon_open: Option<i64>,
    pub result_close: Option<i64>,
    pub analyzed_at: i32,
}

/// Units a capital (in ticks) buys at an average range given in tenths of a tick:
/// the capital over the average range, truncated.
pub open spec fn units_for(capital: int, atr: int) -> int {
    (10 * capital) / atr
}

/// What those units cost at `close` (in ticks), truncated.
pub open spec fn required_for(capital: int, atr: int, close: int) -> int {
    (10 * capital * close) / atr
}

/// The units a capital buys at an average range, and what they cost at `close`.
pub fn sizing(capital: u64, atr: u64, close: u32) -> (r: (u128, u128))
    requires
        atr > 0,
    ensures
        r.0 == units_for(capital as int, atr as int),
        r.1 == required_for(capital as int, atr as int, close as int),
{
    let c = 10 * capital as u128;
    assert(c * close <= 10 * 0xffff_ffff_ffff_ffffu128 * 0xffff_ffffu128) by (nonlinear_arith)
        requires
            c <= 10 * 0xffff_ffff_ffff_ffffu128,
            close <= 0xffff_ffffu128,
    ;
    proof {
        vstd::arithmetic::div_mod::lemma_div_is_ordered_by_denominator(c as int, 1, atr as int);
        vstd::arithmetic::div_mod::lemma_div_is_ordered_by_denominator(
            (c * close) as int,
            1,
            atr as int,
        );
    }
    (c / atr as u128, (c * close as u128) / atr as u128)
}

/// The first index of `s` dated `date`.
pub open spec fn first_index_of(s: Seq<OhlcPremium>, date: i32) -> Option<int> {
    if exists|i: int| 0 <= i < s.len() && #[trigger] s[i].bar.date == date {
        Some(choose|i: int| 0 <= i < s.len() && s[i].bar.date == date && forall|j: int| 0 <= j < i ==> #[trigger] s[j].bar.date != date)
    } else {
        None
    }
}

fn round_half_away(n: i128, d: u64) -> (r: i64)
    requires
        d > 0,
        -0x1_0000_0000_0000 <= n <= 0x1_0000_0000_0000,
    ensures
        r == round_div(n as int, d as int),
{
    let a: u128 = if n < 0 {
        (-n) as u128
    } else {
        n as u128
    };
    let dd = d as u128;
    proof {
        crate::simulator::lemma_round_bound(a as int, dd as int);
    }
    let q = ((2 * a + dd) / (2 * dd)) as i64;
    if n < 0 {
        -q
    } else {
        q
    }
}

impl StocksDaytrading {
    /// The day-trading view of the bar at index `pos`.
    pub fn from_index(ohlc_vec: &Vec<OhlcPremium>, pos: usize, code: i32, capital: u64) -> (r: Result<
        StocksDaytrading,
        BacktestError,
    >)
        requires
            pos < ohlc_vec.len(),
            all_premium_wf(ohlc_vec@),
        ensures
            r == daytrading_of(ohlc_vec@, pos as int, code, capital),
    {
        if pos < 60 {
            return Err(BacktestError::InsufficientHistory);
        }
        let mut bars: Vec<Ohlc> = Vec::new();
        let mut i: usize = pos - 59;
        let ghost lo: int = pos - 59;
        let ghost src = bars_of(ohlc_vec@);
        assert(src.len() == ohlc_vec@.len());
        while i <= pos
            invariant
                pos >= 59,
                lo == pos - 59,
                lo <= i <= pos + 1,
                pos < ohlc_vec.len(),
                src == bars_of(ohlc_vec@),
                src.len() == ohlc_vec@.len(),
                bars@ == src.subrange(lo, i as int),
                all_premium_wf(ohlc_vec@),
            decreases pos + 1 - i,
        {
            let ghost prev = bars@;
            bars.push(ohlc_vec[i].bar);
            assert(src[i as int] == ohlc_vec@[i as int].bar);
            i = i + 1;
            assert forall|k: int| 0 <= k < bars@.len() implies bars@[k] == src.subrange(
                lo,
                i as int,
            )[k] by {
                if k < prev.len() {
                    assert(bars@[k] == prev[k]);
                }
            }
            assert(bars@ =~= src.subrange(lo, i as int));
        }
        let ghost all = bars_of(ohlc_vec@);
        assert(bars@ == all.subrange(pos + 1 - 60, pos + 1));
        proof {
            assert forall|j: int| 0 <= j < bars@.len() implies #[trigger] bars@[j].wf() by {
                assert(bars@[j] == ohlc_vec@[pos - 59 + j].bar);
                assert(ohlc_vec@[pos - 59 + j].wf());
            }
        }
        assert(bars@.subrange(55, 60) =~= all.subrange(pos + 1 - 5, pos + 1));
        let atr = last5_atr(&bars);
        if atr == 0 {
            return Err(BacktestError::ZeroStopDistance);
        }
        let status = classify_status(&bars);
        let diff = match standardized_range_diff(&bars) {
            Some(d) => d,
            None => {
                return Err(BacktestError::ZeroStopDistance);
            },
        };
        let known = pos + 1 < ohlc_vec.len();
        let (push, morning, afternoon, close) = if known {
            let next = ohlc_vec[pos + 1];
            let open = next.bar.open as i128;
            (
                Some(round_half_away(500 * (next.morning_close as i128 - open), atr)),
                Some(round_half_away(1000 * (next.morning_close as i128 - open), atr)),
                Some(round_half_away(1000 * (next.afternoon_open as i128 - open), atr)),
                Some(round_half_away(1000 * (next.bar.close as i128 - open), atr)),
            )
        } else {
            (None, None, None, None)
        };
        let (unit, required_amount) = sizing(capital, atr, ohlc_vec[pos].bar.close);
        Ok(
            StocksDaytrading {
                code,
                status,
                atr,
                unit,
                required_amount,
                standardized_diff: diff,
                result_push_close: push,
                result_morning_close: morning,
                result_afternoon_open: afternoon,
                result_close: close,
                analyzed_at: ohlc_vec[pos].bar.date,
            },
        )
    }

    /// The day-trading view of the first bar dated `date`; `NoSuchDate` where none is.
    pub fn from_vec(ohlc_vec: &Vec<OhlcPremium>, code: i32, capital: u64, date: i32) -> (r: Result<
        StocksDaytrading,
        BacktestError,
    >)
        requires
            all_premium_wf(ohlc_vec@),
        ensures
            match first_index_of(ohlc_vec@, date) {
                Some(i) => r == daytrading_of(ohlc_vec@, i, code, capital),
                None => r == Err::<StocksDaytrading, BacktestError>(BacktestError::NoSuchDate),
            },
    {
        let mut i: usize = 0;
        while i < ohlc_vec.len()
            invariant
                0 <= i <= ohlc_vec.len(),
                all_premium_wf(ohlc_vec@),
                forall|j: int| 0 <= j < i ==> #[trigger] ohlc_vec@[j].bar.date != date,
            decreases ohlc_vec.len() - i,
        {
            if ohlc_vec[i].bar.date == date {
                assert(ohlc_vec@[i as int].bar.date == date);
                let ghost c = choose|c: int|
                    0 <= c < ohlc_vec@.len() && ohlc_vec@[c].bar.date == date && forall|j: int|
                        0 <= j < c ==> #[trigger] ohlc_vec@[j].bar.date != date;
                assert(c == i) by {
                    if c < i {
                        assert(ohlc_vec@[c].bar.date != date);
                    }
                    if c > i {
                        assert(ohlc_vec@[i as int].bar.date != date);
                    }
                }
                return StocksDaytrading::from_index(ohlc_vec, i, code, capital);
            }
            i = i + 1;
        }
        Err(BacktestError::NoSuchDate)
    }
}

} // verus!

verus! {

/// Which next-day result of a day-trading view.
#[derive(Clone, Copy, Debug, PartialEq, Eq, Structural)]
pub enum ResultKind {
    PushClose,
    MorningClose,
    AfternoonOpen,
    Close,
}

/// A result of a view; `None` where the next day is unknown.
pub open spec fn result_of(d: StocksDaytrading, kind: ResultKind) -> Option<i64> {
    match kind {
        ResultKind::PushClose => d.result_push_close,
        ResultKind::MorningClose => d.result_morning_close,
        ResultKind::AfternoonOpen => d.result_afternoon_open,
        ResultKind::Close => d.result_close,
    }
}

fn result_value(d: &StocksDaytrading, kind: ResultKind) -> (r: Option<i64>)
    ensures
        r == result_of(*d, kind),
{
    match kind {
        ResultKind::PushClose => d.result_push_close,
        ResultKind::MorningClose => d.result_morning_close,
        ResultKind::AfternoonOpen => d.result_afternoon_open,
        ResultKind::Close => d.result_close,
    }
}

/// The known results of kind `kind` of the views, in order; views whose next day is
/// unknown are left out.
pub open spec fn known_results(data: Seq<StocksDaytrading>, kind: ResultKind) -> Seq<i64>
    decreases data.len(),
{
    if data.len() == 0 {
        Seq::empty()
    } else {
        let prev = known_results(data.drop_last(), kind);
        match result_of(data.last(), kind) {
            Some(v) => prev.push(v),
            None => prev,
        }
    }
}

/// The views of the anchors `s[0..n]` dated in `[from, to]` that left their range,
/// in order.
pub open spec fn daytrading_upto(s: Seq<OhlcPremium>, code: i32, capital: u64, from: int, to: int, n: int) -> Seq<
    StocksDaytrading,
>
    decreases n,
{
    if n <= 0 {
        Seq::empty()
    } else {
        let prev = daytrading_upto(s, code, capital, from, to, n - 1);
        if from <= s[n - 1].bar.date <= to {
            match daytrading_of(s, n - 1, code, capital) {
                Ok(d) => if d.status != Status::NoChange {
                    prev.push(d)
                } else {
                    prev
                },
                Err(_) => prev,
            }
        } else {
            prev
        }
    }
}

/// The dates of the anchors `s[0..n]` in `[from, to]` whose range was zero.
pub open spec fn zero_range_days_upto(s: Seq<OhlcPremium>, code: i32, capital: u64, from: int, to: int, n: int) -> Seq<i32>
    decreases n,
{
    if n <= 0 {
        Seq::empty()
    } else {
        let prev = zero_range_days_upto(s, code, capital, from, to, n - 1);
        if from <= s[n - 1].bar.date <= to && daytrading_of(s, n - 1, code, capital) == Err::<
            StocksDaytrading,
            BacktestError,
        >(BacktestError::ZeroStopDistance) {
            prev.push(s[n - 1].bar.date)
        } else {
            prev
        }
    }
}

/// Whether a view belongs to the bucket of a state, a regime and a compression band.
pub open spec fn in_bucket(
    d: StocksDaytrading,
    status: Status,
    regimes: TopixDailyWindowList2,
    label: RegimeLabel,
    bands: CompressionBands,
    band: usize,
) -> bool {
    d.status == status && regimes.dates_of(label).contains(d.analyzed_at) && bands.band_of(
        d.standardized_diff,
    ) == band
}

/// The known results of kind `kind` of the views in one bucket, in order; views whose
/// next day is unknown are left out.
pub open spec fn bucket_results_of(
    data: Seq<StocksDaytrading>,
    status: Status,
    regimes: TopixDailyWindowList2,
    label: RegimeLabel,
    bands: CompressionBands,
    band: usize,
    kind: ResultKind,
) -> Seq<i64>
    decreases data.len(),
{
    if data.len() == 0 {
        Seq::empty()
    } else {
        let prev = bucket_results_of(data.drop_last(), status, regimes, label, bands, band, kind);
        if in_bucket(data.last(), status, regimes, label, bands, band) {
            match result_of(data.last(), kind) {
                Some(v) => prev.push(v),
                None => prev,
            }
        } else {
            prev
        }
    }
}

/// Day-trading views gathered over instruments and days.
#[derive(Clone, Debug)]
pub struct StocksDaytradingList {
    pub data: Vec<StocksDaytrading>,
}

impl StocksDaytradingList {
    pub fn new() -> (r: StocksDaytradingList)
        ensures
            r.data@ == Seq::<StocksDaytrading>::empty(),
    {
        StocksDaytradingList { data: Vec::new() }
    }

    /// Adds the view (with the position `capital` buys) of every anchor of instrument
    /// `code` dated in `[from, to]` that left its range (any state but `NoChange`). Anchors without enough history are
    /// skipped; the dates of anchors whose range was zero are returned.
    pub fn push_2(
        &mut self,
        ohlc_vec: &Vec<OhlcPremium>,
        code: i32,
        capital: u64,
        from: i32,
        to: i32,
    ) -> (skipped: Vec<
        i32,
    >)
        requires
            all_premium_wf(ohlc_vec@),
        ensures
            final(self).data@ == old(self).data@ + daytrading_upto(
                ohlc_vec@,
                code,
                capital,
                from as int,
                to as int,
                ohlc_vec.len() as int,
            ),
            skipped@ == zero_range_days_upto(ohlc_vec@, code, capital, from as int, to as int, ohlc_vec.len() as int),
    {
        let ghost start = self.data@;
        let mut skipped: Vec<i32> = Vec::new();
        let mut i: usize = 0;
        while i < ohlc_vec.len()
            invariant
                0 <= i <= ohlc_vec.len(),
                all_premium_wf(ohlc_vec@),
                self.data@ == start + daytrading_upto(ohlc_vec@, code, capital, from as int, to as int, i as int),
                skipped@ == zero_range_days_upto(ohlc_vec@, code, capital, from as int, to as int, i as int),
            decreases ohlc_vec.len() - i,
        {
            let date = ohlc_vec[i].bar.date;
            if from <= date && date <= to {
                match StocksDaytrading::from_index(ohlc_vec, i, code, capital) {
                    Ok(d) => {
                        if d.status != Status::NoChange {
                            self.data.push(d);
                        }
                    },
                    Err(e) => {
                        if e == BacktestError::ZeroStopDistance {
                            skipped.push(date);
                        }
                    },
                }
            }
            proof {
                assert(start + daytrading_upto(ohlc_vec@, code, capital, from as int, to as int, i + 1) =~= self.data@);
            }
            i = i + 1;
        }
        skipped
    }

    /// Moves the views of another list to the end of this one.
    pub fn append(&mut self, other: StocksDaytradingList)
        ensures
            final(self).data@ == old(self).data@ + other.data@,
    {
        let mut other = other;
        self.data.append(&mut other.data);
    }

    /// The known results of kind `kind` of every view, in order; views whose next day
    /// is unknown are left out.
    pub fn results(&self, kind: ResultKind) -> (r: Vec<i64>)
        ensures
            r@ == known_results(self.data@, kind),
    {
        let mut r: Vec<i64> = Vec::new();
        let mut i: usize = 0;
        while i < self.data.len()
            invariant
                0 <= i <= self.data.len(),
                r@ == known_results(self.data@.subrange(0, i as int), kind),
            decreases self.data.len() - i,
        {
            assert(self.data@.subrange(0, i + 1).drop_last() =~= self.data@.subrange(0, i as int));
            match result_value(&self.data[i], kind) {
                Some(v) => r.push(v),
                None => {},
            }
            i = i + 1;
        }
        assert(self.data@.subrange(0, self.data.len() as int) =~= self.data@);
        r
    }

    /// The known results of kind `kind` of the views of one state, on days of one
    /// regime, in one compression band; views whose next day is unknown are left out.
    pub fn bucket_results(
        &self,
        status: Status,
        regimes: &TopixDailyWindowList2,
        label: RegimeLabel,
        bands: &CompressionBands,
        band: usize,
        kind: ResultKind,
    ) -> (r: Vec<i64>)
        ensures
            r@ == bucket_results_of(self.data@, status, *regimes, label, *bands, band, kind),
    {
        let mut r: Vec<i64> = Vec::new();
        let mut i: usize = 0;
        while i < self.data.len()
            invariant
                0 <= i <= self.data.len(),
                r@ == bucket_results_of(
                    self.data@.subrange(0, i as int),
                    status,
                    *regimes,
                    label,
                    *bands,
                    band,
                    kind,
                ),
            decreases self.data.len() - i,
        {
            assert(self.data@.subrange(0, i + 1).drop_last() =~= self.data@.subrange(0, i as int));
            let d = &self.data[i];
            if d.status == status && contains_date(regimes.get(label), d.analyzed_at) && bands.band(
                d.standardized_diff,
            ) == band {
                match result_value(d, kind) {
                    Some(v) => r.push(v),
                    None => {},
                }
            }
            i = i + 1;
        }
        assert(self.data@.subrange(0, self.data.len() as int) =~= self.data@);
        r
    }
}

} // verus!

verus! {

/// The mean daily range of the last `ATR_BARS` of 60 bars, in tenths of a tick,
/// rounded.
pub fn last5_atr(w: &Vec<Ohlc>) -> (r: u64)
    requires
        w.len() == 60,
        all_wf(w@),
    ensures
        r == round_div(10 * sum_range(w@.subrange(55, 60)), ATR_BARS as int),
{
    let mut sum: u64 = 0;
    let mut k: usize = 55;
    assert(w@.subrange(55, 55) =~= Seq::<Ohlc>::empty());
    while k < 60
        invariant
            55 <= k <= 60,
            w@.len() == 60,
            all_wf(w@),
            sum == sum_range(w@.subrange(55, k as int)),
            sum <= (k - 55) * 0xffff_ffffu64,
        decreases 60 - k,
    {
        assert(w@.subrange(55, k + 1).drop_last() =~= w@.subrange(55, k as int));
        assert(w@[k as int].wf());
        sum = sum + (w[k].high - w[k].low) as u64;
        k = k + 1;
    }
    ((20 * sum as u128 + 5) / 10) as u64
}

} // verus!

verus! {

/// The sort key of view `i` with range diff `d`: smaller diffs first, then earlier views.
pub open spec fn diff_key(d: int, i: int) -> u64 {
    (d * 0x1_0000_0000 + i) as u64
}

pub open spec fn diff_keys(data: Seq<StocksDaytrading>) -> Seq<u64> {
    Seq::new(data.len(), |i: int| diff_key(data[i].standardized_diff as int, i))
}

/// The views ordered by range diff, ties in their former order.
pub open spec fn by_diff(data: Seq<StocksDaytrading>) -> Seq<StocksDaytrading> {
    let ranked = crate::regime::ascending(diff_keys(data));
    Seq::new(data.len(), |j: int| data[(ranked[j] % 0x1_0000_0000) as int])
}

impl StocksDaytradingList {
    /// Orders the views by range diff, smallest first, ties kept in order.
    pub fn sort_by_standardized_diff(&mut self)
        requires
            old(self).data.len() <= 0xffff_ffff,
        ensures
            final(self).data@ == by_diff(old(self).data@),
    {
        let ghost data = self.data@;
        let mut keys: Vec<u64> = Vec::new();
        let mut i: usize = 0;
        while i < self.data.len()
            invariant
                0 <= i <= self.data.len() <= 0xffff_ffff,
                self.data@ == data,
                keys@ == diff_keys(data).subrange(0, i as int),
            decreases self.data.len() - i,
        {
            let d = self.data[i].standardized_diff;
            assert(d * 0x1_0000_0000 + i <= 0xffff_ffff_ffff_ffff) by (nonlinear_arith)
                requires
                    d <= 0xffff_ffff,
                    i <= 0xffff_ffff,
            ;
            keys.push(d as u64 * 0x1_0000_0000 + i as u64);
            i = i + 1;
            assert(keys@ =~= diff_keys(data).subrange(0, i as int));
        }
        assert(diff_keys(data).subrange(0, data.len() as int) =~= diff_keys(data));
        let ranked = crate::regime::sorted_copy(&keys);
        proof {
            crate::regime::lemma_leq_total();
            diff_keys(data).lemma_sort_by_ensures(crate::regime::leq_u64());
        }
        let mut out: Vec<StocksDaytrading> = Vec::new();
        let mut j: usize = 0;
        while j < ranked.len()
            invariant
                0 <= j <= ranked@.len(),
                ranked@ == crate::regime::ascending(diff_keys(data)),
                ranked@.len() == data.len(),
                data.len() <= 0xffff_ffff,
                self.data@ == data,
                forall|x: u64| ranked@.contains(x) ==> diff_keys(data).contains(x),
                out@ == Seq::new(j as nat, |t: int| data[(ranked@[t] % 0x1_0000_0000) as int]),
            decreases ranked.len() - j,
        {
            let key = ranked[j];
            proof {
                assert(ranked@.contains(ranked@[j as int]));
                let p = choose|p: int| 0 <= p < diff_keys(data).len() && diff_keys(data)[p] == key;
                let d = data[p].standardized_diff as int;
                assert(key == d * 0x1_0000_0000 + p) by (nonlinear_arith)
                    requires
                        key == diff_key(d, p),
                        0 <= p < 0x1_0000_0000,
                        0 <= d <= 0xffff_ffff,
                ;
                assert(key % 0x1_0000_0000 == p) by (nonlinear_arith)
                    requires
                        key == d * 0x1_0000_0000 + p,
                        0 <= p < 0x1_0000_0000,
                        0 <= d,
                ;
            }
            let idx = (key % 0x1_0000_0000) as usize;
            out.push(self.data[idx]);
            j = j + 1;
            assert(out@ =~= Seq::new(j as nat, |t: int| data[(ranked@[t] % 0x1_0000_0000) as int]));
        }
        self.data = out;
    }
}

} // verus!

use vstd::prelude::*;

use crate::bar::{all_wf, day_number_of, max_high, min_low, parse_day_number, Ohlc};
use crate::classifier::{
    breakout_bars, direction_of, event_of, lemma_breakout_has_event, BreakoutEvent,
    LongShortControl,
};
use crate::simulator::{outcomes_of, simulate_event, SimulatedOutcome, FORWARD_BARS};
use crate::window::{has_future, has_history, make_window, BacktestError};

verus! {

/// Bars of history a window carries: the anchor and the 59 bars before it. An anchor
/// needs this many bars before it.
pub const LOOKBACK: usize = 60;

/// Forward bars the shortest horizon needs: the first forward bar and five more.
pub const MIN_FORWARD_BARS: usize = 6;

/// A breakout event with the outcomes simulated from it.
#[derive(Clone, Debug)]
pub struct BacktestRecord {
    pub event: BreakoutEvent,
    pub outcomes: Vec<SimulatedOutcome>,
}

impl View for BacktestRecord {
    type V = (BreakoutEvent, Seq<SimulatedOutcome>);

    open spec fn view(&self) -> (BreakoutEvent, Seq<SimulatedOutcome>) {
        (self.event, self.outcomes@)
    }
}

/// The forward bars anchor `i` is simulated over: those after it, at most
/// `FORWARD_BARS`.
pub open spec fn forward_len(len: int, i: int) -> int {
    if len - i - 1 < FORWARD_BARS {
        len - i - 1
    } else {
        FORWARD_BARS as int
    }
}

/// Anchor `i` is dated in `[from, to]`, has its history and at least the forward bars
/// of the shortest horizon.
pub open spec fn anchor_in_reach(bars: Seq<Ohlc>, i: int, from: int, to: int) -> bool {
    &&& from <= bars[i].date <= to
    &&& has_history(i, LOOKBACK as int)
    &&& has_future(bars.len() as int, i, MIN_FORWARD_BARS as int)
}

pub open spec fn history_at(bars: Seq<Ohlc>, i: int) -> Seq<Ohlc> {
    bars.subrange(i + 1 - LOOKBACK, i + 1)
}

pub open spec fn forward_at(bars: Seq<Ohlc>, i: int) -> Seq<Ohlc> {
    bars.subrange(i + 1, i + 1 + forward_len(bars.len() as int, i))
}

/// The record of anchor index `i`: present when the anchor is in reach and is a long or
/// short breakout; its outcomes are those its forward bars define.
pub open spec fn record_at(bars: Seq<Ohlc>, i: int, from: int, to: int) -> Option<
    (BreakoutEvent, Seq<SimulatedOutcome>),
> {
    if anchor_in_reach(bars, i, from, to) {
        match event_of(history_at(bars, i)) {
            Ok(e) => if e.direction != LongShortControl::Control {
                Some((e, outcomes_of(e, forward_at(bars, i))))
            } else {
                None
            },
            Err(_) => None,
        }
    } else {
        None
    }
}

/// The records of the anchors `bars[0..n]`, in order.
pub open spec fn records_upto(bars: Seq<Ohlc>, from: int, to: int, n: int) -> Seq<
    (BreakoutEvent, Seq<SimulatedOutcome>),
>
    decreases n,
{
    if n <= 0 {
        Seq::empty()
    } else {
        let prev = records_upto(bars, from, to, n - 1);
        match record_at(bars, n - 1, from, to) {
            Some(r) => prev.push(r),
            None => prev,
        }
    }
}

/// The dates of the anchors `bars[0..n]` in reach whose stop range is zero.
pub open spec fn flat_days_upto(bars: Seq<Ohlc>, from: int, to: int, n: int) -> Seq<i32>
    decreases n,
{
    if n <= 0 {
        Seq::empty()
    } else {
        let prev = flat_days_upto(bars, from, to, n - 1);
        if anchor_in_reach(bars, n - 1, from, to) && event_of(history_at(bars, n - 1))
            == Err::<BreakoutEvent, BacktestError>(BacktestError::ZeroStopDistance) {
            prev.push(bars[n - 1].date)
        } else {
            prev
        }
    }
}

/// The backtest of one instrument: its breakout records and the days whose stop range
/// was zero (a data-quality fault, reported rather than simulated).
#[derive(Clone, Debug)]
pub struct InstrumentBacktest {
    pub records: Vec<BacktestRecord>,
    pub flat_days: Vec<i32>,
}

/// Backtests one instrument: every bar dated in `[from, to]` (day numbers) with its
/// history and at least `MIN_FORWARD_BARS` bars after it is classified; each long or
/// short breakout is kept with the outcomes its forward bars (up to `FORWARD_BARS`)
/// define, in the order of the series, and each day with a zero stop range is listed.
pub fn backtest_range(bars: &Vec<Ohlc>, from: i32, to: i32) -> (r: InstrumentBacktest)
    requires
        all_wf(bars@),
    ensures
        r.records@.len() == records_upto(bars@, from as int, to as int, bars.len() as int).len(),
        forall|k: int|
            0 <= k < r.records@.len() ==> #[trigger] r.records@[k]@ == records_upto(
                bars@,
                from as int,
                to as int,
                bars.len() as int,
            )[k],
        r.flat_days@ == flat_days_upto(bars@, from as int, to as int, bars.len() as int),
{
    let mut r: Vec<BacktestRecord> = Vec::new();
    let mut flat: Vec<i32> = Vec::new();
    let mut i: usize = 0;
    while i < bars.len()
        invariant
            0 <= i <= bars.len(),
            all_wf(bars@),
            r@.len() == records_upto(bars@, from as int, to as int, i as int).len(),
            forall|k: int|
                0 <= k < r@.len() ==> #[trigger] r@[k]@ == records_upto(
                    bars@,
                    from as int,
                    to as int,
                    i as int,
                )[k],
            flat@ == flat_days_upto(bars@, from as int, to as int, i as int),
        decreases bars.len() - i,
    {
        let date = bars[i].date;
        let n = bars.len();
        if from <= date && date <= to && i >= LOOKBACK && n - i - 1 >= MIN_FORWARD_BARS {
            let lookahead = if n - i - 1 < FORWARD_BARS {
                n - i - 1
            } else {
                FORWARD_BARS
            };
            match make_window(bars, i, LOOKBACK, lookahead) {
                Ok(window) => {
                    proof {
                        let h = window.history@;
                        let f = window.forward@;
                        assert(h == history_at(bars@, i as int));
                        assert(f == forward_at(bars@, i as int));
                        assert(all_wf(h)) by {
                            assert forall|j: int| 0 <= j < h.len() implies #[trigger] h[j].wf() by {
                                assert(h[j] == bars@[i + 1 - LOOKBACK + j]);
                            }
                        }
                        assert(all_wf(f)) by {
                            assert forall|j: int| 0 <= j < f.len() implies #[trigger] f[j].wf() by {
                                assert(f[j] == bars@[i + 1 + j]);
                            }
                        }
                    }
                    match BreakoutEvent::from_window(&window) {
                        Ok(event) => {
                            if event.direction != LongShortControl::Control {
                                let outcomes = simulate_event(&event, &window.forward);
                                let ghost before = r@;
                                r.push(BacktestRecord { event, outcomes });
                                assert forall|k: int| 0 <= k < r@.len() implies #[trigger] r@[k]@
                                    == records_upto(
                                    bars@,
                                    from as int,
                                    to as int,
                                    i + 1,
                                )[k] by {
                                    if k < before.len() {
                                        assert(r@[k] == before[k]);
                                    }
                                }
                            }
                        },
                        Err(e) => {
                            if e == BacktestError::ZeroStopDistance {
                                flat.push(date);
                            }
                        },
                    }
                },
                Err(_) => {},
            }
        }
        i = i + 1;
    }
    InstrumentBacktest { records: r, flat_days: flat }
}

/// Backtests one instrument between two dates written `YYYY-MM-DD`; `None` where
/// either date does not parse.
pub fn backtest_instrument(bars: &Vec<Ohlc>, from: &str, to: &str) -> (r: Option<
    InstrumentBacktest,
>)
    requires
        all_wf(bars@),
    ensures
        (day_number_of(from@) is Some && day_number_of(to@) is Some) <==> r is Some,
        r matches Some(v) ==> {
            let f = day_number_of(from@)->Some_0 as int;
            let t = day_number_of(to@)->Some_0 as int;
            let recs = records_upto(bars@, f, t, bars.len() as int);
            &&& v.records@.len() == recs.len()
            &&& forall|k: int| 0 <= k < v.records@.len() ==> #[trigger] v.records@[k]@ == recs[k]
            &&& v.flat_days@ == flat_days_upto(bars@, f, t, bars.len() as int)
        },
{
    match (parse_day_number(from), parse_day_number(to)) {
        (Some(f), Some(t)) => Some(backtest_range(bars, f, t)),
        _ => None,
    }
}

/// Every long or short breakout of a well-formed series whose window fits is kept:
/// no classification error can drop it.
pub proof fn lemma_breakouts_kept(bars: Seq<Ohlc>, i: int, from: int, to: int)
    requires
        all_wf(bars),
        0 <= i < bars.len(),
        from <= bars[i].date <= to,
        has_history(i, LOOKBACK as int),
        has_future(bars.len() as int, i, MIN_FORWARD_BARS as int),
        direction_of(breakout_bars(bars.subrange(i + 1 - LOOKBACK, i + 1)))
            != LongShortControl::Control,
    ensures
        record_at(bars, i, from, to) is Some,
{
    let h = bars.subrange(i + 1 - LOOKBACK, i + 1);
    assert(all_wf(h)) by {
        assert forall|j: int| 0 <= j < h.len() implies #[trigger] h[j].wf() by {
            assert(h[j] == bars[i + 1 - LOOKBACK + j]);
        }
    }
    lemma_breakout_has_event(h);
}

} // verus!

verus! {

/// Classification and simulation read nothing but the bars: the same history and
/// forward bars give the same event and the same outcomes on every run, and so does
/// the backtest of the same series.
pub proof fn lemma_same_bars_same_result(
    h1: Seq<Ohlc>,
    h2: Seq<Ohlc>,
    f1: Seq<Ohlc>,
    f2: Seq<Ohlc>,
    from: int,
    to: int,
)
    requires
        h1 == h2,
        f1 == f2,
    ensures
        event_of(h1) == event_of(h2),
        forall|e: BreakoutEvent| #[trigger] outcomes_of(e, f1) == outcomes_of(e, f2),
        records_upto(h1, from, to, h1.len() as int) == records_upto(h2, from, to, h2.len() as int),
{
}

} // verus!

verus! {

/// The backtest of the anchor `day + 59`: its event and the outcomes its forward bars
/// define, or why there is none.
pub open spec fn analysis_of(bars: Seq<Ohlc>, day: int) -> Result<
    (BreakoutEvent, Seq<SimulatedOutcome>),
    BacktestError,
> {
    let a = day + LOOKBACK - 1;
    if !has_history(a, LOOKBACK as int) {
        Err(BacktestError::InsufficientHistory)
    } else if !has_future(bars.len() as int, a, MIN_FORWARD_BARS as int) {
        Err(BacktestError::InsufficientFuture)
    } else {
        match event_of(history_at(bars, a)) {
            Ok(e) => Ok((e, outcomes_of(e, forward_at(bars, a)))),
            Err(x) => Err(x),
        }
    }
}

/// One anchor day of a series with its direction, range diff and outcomes.
#[derive(Clone, Debug)]
pub struct BacktestAnalyzer {
    pub date: i32,
    pub standardized_diff: u32,
    pub long_or_short_or_control: LongShortControl,
    pub outcomes: Vec<SimulatedOutcome>,
}

impl BacktestAnalyzer {
    /// Backtests the anchor `day + 59` of `raw_ohlc`: the 60 bars `raw_ohlc[day..day + 60]`
    /// are its history, the bars after them (at most 21) its forward path, and each
    /// horizon the path is long enough for has its outcomes. The anchor is long exactly
    /// when it closed above the highest high of the 19 bars before it, short exactly
    /// when it closed below their lowest low, and no outcome is below -1.00. Fails
    /// with `InsufficientHistory` where fewer than 60 bars precede the anchor (`day`
    /// is 0), with `InsufficientFuture` where fewer than `MIN_FORWARD_BARS` follow it,
    /// and with `ZeroStopDistance` where a control day's range is flat.
    pub fn new(raw_ohlc: &Vec<Ohlc>, day: usize) -> (r: Result<BacktestAnalyzer, BacktestError>)
        requires
            all_wf(raw_ohlc@),
        ensures
            match analysis_of(raw_ohlc@, day as int) {
                Ok((e, outs)) => r matches Ok(a) && a.date == e.anchor_date
                    && a.standardized_diff == e.standardized_range_diff
                    && a.long_or_short_or_control == e.direction && a.outcomes@ == outs,
                Err(x) => r == Err::<BacktestAnalyzer, BacktestError>(x),
            },
            r matches Ok(a) ==> {
                let w = raw_ohlc@.subrange(day + 40, day + 60);
                let close = w.last().close as int;
                &&& (a.long_or_short_or_control == LongShortControl::Long <==> close > max_high(
                    w.drop_last(),
                ))
                &&& (a.long_or_short_or_control == LongShortControl::Short <==> close < min_low(
                    w.drop_last(),
                ))
                &&& forall|k: int|
                    0 <= k < a.outcomes@.len() ==> #[trigger] a.outcomes@[k].normalized_return
                        >= -100
            },
    {
        if day == 0 {
            return Err(BacktestError::InsufficientHistory);
        }
        let n = raw_ohlc.len();
        if n < LOOKBACK + MIN_FORWARD_BARS || day > n - LOOKBACK - MIN_FORWARD_BARS {
            return Err(BacktestError::InsufficientFuture);
        }
        let anchor = day + LOOKBACK - 1;
        let lookahead = if n - anchor - 1 < FORWARD_BARS {
            n - anchor - 1
        } else {
            FORWARD_BARS
        };
        let window = match make_window(raw_ohlc, anchor, LOOKBACK, lookahead) {
            Ok(w) => w,
            Err(e) => {
                return Err(e);
            },
        };
        let ghost h = window.history@;
        let ghost f = window.forward@;
        proof {
            assert(h == history_at(raw_ohlc@, anchor as int));
            assert(f == forward_at(raw_ohlc@, anchor as int));
            assert(h == raw_ohlc@.subrange(day as int, day + LOOKBACK));
            assert(all_wf(h)) by {
                assert forall|j: int| 0 <= j < h.len() implies #[trigger] h[j].wf() by {
                    assert(h[j] == raw_ohlc@[day + j]);
                }
            }
            assert(all_wf(f)) by {
                assert forall|j: int| 0 <= j < f.len() implies #[trigger] f[j].wf() by {
                    assert(f[j] == raw_ohlc@[anchor + 1 + j]);
                }
            }
            assert(breakout_bars(h) =~= raw_ohlc@.subrange(day + 40, day + 60));
            crate::classifier::lemma_breakout_exclusive(breakout_bars(h));
        }
        let event = match BreakoutEvent::from_window(&window) {
            Ok(e) => e,
            Err(e) => {
                return Err(e);
            },
        };
        let outcomes = simulate_event(&event, &window.forward);
        Ok(
            BacktestAnalyzer {
                date: event.anchor_date,
                standardized_diff: event.standardized_range_diff,
                long_or_short_or_control: event.direction,
                outcomes,
            },
        )
    }
}

} // verus!

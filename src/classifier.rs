use vstd::prelude::*;

use crate::bar::{
    all_wf, lemma_max_high, lemma_min_low, lemma_sum_range_bound, max_high, min_low,
    range_extremes, sum_range, Ohlc,
};
use crate::window::{AnchorWindow, BacktestError};

verus! {

/// Bars the breakout test looks at: the anchor and the bars before it.
pub const BREAKOUT_BARS: usize = 20;

/// The direction of an anchor day.
#[derive(Clone, Copy, Debug, PartialEq, Eq, Structural)]
pub enum LongShortControl {
    /// The anchor closed above the highest high of the bars before it.
    Long,
    /// The anchor closed below the lowest low of the bars before it.
    Short,
    /// Neither.
    Control,
}

/// The trailing `BREAKOUT_BARS` bars of a history.
pub open spec fn breakout_bars(h: Seq<Ohlc>) -> Seq<Ohlc> {
    h.subrange(h.len() - BREAKOUT_BARS, h.len() as int)
}

/// The direction of the last bar of `w` against the bars before it.
pub open spec fn direction_of(w: Seq<Ohlc>) -> LongShortControl {
    let prior = w.drop_last();
    let close = w.last().close as int;
    if close > max_high(prior) {
        LongShortControl::Long
    } else if close < min_low(prior) {
        LongShortControl::Short
    } else {
        LongShortControl::Control
    }
}

/// The range a stop distance is a fraction of: from the close down to the lowest low
/// for a long, from the highest high down to the close for a short, and the whole
/// range otherwise (all over `w`, the anchor included).
pub open spec fn stop_base(w: Seq<Ohlc>, d: LongShortControl) -> int {
    let close = w.last().close as int;
    match d {
        LongShortControl::Long => close - min_low(w),
        LongShortControl::Short => max_high(w) - close,
        LongShortControl::Control => max_high(w) - min_low(w),
    }
}

/// A bar whose open is replaced by `o`, with high and low widened to take it in.
pub open spec fn with_open(b: Ohlc, o: u32) -> Ohlc {
    Ohlc {
        date: b.date,
        open: o,
        high: if o > b.high {
            o
        } else {
            b.high
        },
        low: if o < b.low {
            o
        } else {
            b.low
        },
        close: b.close,
    }
}

/// The bars with each open (after the first) replaced by the close before it, so
/// that overnight gaps count as part of the day's range.
pub open spec fn gap_adjusted(s: Seq<Ohlc>) -> Seq<Ohlc> {
    Seq::new(s.len(), |i: int| if i == 0 { s[0] } else { with_open(s[i], s[i - 1].close) })
}

/// Mean daily range over the whole range of the gap-adjusted bars, in thousandths,
/// truncated.
pub open spec fn standardized_diff_of(s: Seq<Ohlc>) -> int {
    let a = gap_adjusted(s);
    (1000 * sum_range(a)) / (s.len() * (max_high(a) - min_low(a)))
}

/// The breakout event of a history, or why there is none.
pub open spec fn event_of(h: Seq<Ohlc>) -> Result<BreakoutEvent, BacktestError> {
    let w = breakout_bars(h);
    let d = direction_of(w);
    let base = stop_base(w, d);
    if h.len() < BREAKOUT_BARS {
        Err(BacktestError::InsufficientHistory)
    } else if base <= 0 {
        Err(BacktestError::ZeroStopDistance)
    } else {
        Ok(
            BreakoutEvent {
                anchor_date: h.last().date,
                direction: d,
                stop_distance_38: (base * 38) as u64,
                stop_distance_50: (base * 50) as u64,
                stop_distance_62: (base * 62) as u64,
                standardized_range_diff: standardized_diff_of(h) as u32,
            },
        )
    }
}

/// The classification of one anchor day. Stop distances are in hundredths of a
/// tick; the standardized range diff is in thousandths.
#[derive(Clone, Copy, Debug, PartialEq, Eq, Structural)]
pub struct BreakoutEvent {
    pub anchor_date: i32,
    pub direction: LongShortControl,
    pub stop_distance_38: u64,
    pub stop_distance_50: u64,
    pub stop_distance_62: u64,
    pub standardized_range_diff: u32,
}

impl BreakoutEvent {
    /// The stop distance at a fraction of 38, 50 or 62 percent.
    pub open spec fn stop_distance_at(self, fraction: u32) -> u64 {
        if fraction == 38 {
            self.stop_distance_38
        } else if fraction == 50 {
            self.stop_distance_50
        } else {
            self.stop_distance_62
        }
    }

    /// Classifies the anchor of a window from its history: the direction of the last
    /// `BREAKOUT_BARS` bars, the stop distances at each fraction of their range, and
    /// the standardized range diff of the whole gap-adjusted history.
    pub fn from_window(window: &AnchorWindow) -> (r: Result<BreakoutEvent, BacktestError>)
        requires
            all_wf(window.history@),
        ensures
            r == event_of(window.history@),
            r matches Ok(e) ==> e.standardized_range_diff <= 1000 && e.stop_distance_38 > 0
                && e.stop_distance_50 > 0 && e.stop_distance_62 > 0,
    {
        let h = &window.history;
        if h.len() < BREAKOUT_BARS {
            return Err(BacktestError::InsufficientHistory);
        }
        let direction = classify(h);
        let base = stop_base_of(h, direction);
        if base == 0 {
            return Err(BacktestError::ZeroStopDistance);
        }
        proof {
            lemma_positive_base_not_flat(h@);
        }
        match standardized_range_diff(h) {
            None => Err(BacktestError::ZeroStopDistance),
            Some(diff) => Ok(
                BreakoutEvent {
                    anchor_date: h[h.len() - 1].date,
                    direction,
                    stop_distance_38: base as u64 * 38,
                    stop_distance_50: base as u64 * 50,
                    stop_distance_62: base as u64 * 62,
                    standardized_range_diff: diff,
                },
            ),
        }
    }

    /// The stop distance at `fraction` percent (38, 50 or 62).
    pub fn stop_distance(&self, fraction: u32) -> (r: u64)
        ensures
            r == self.stop_distance_at(fraction),
    {
        if fraction == 38 {
            self.stop_distance_38
        } else if fraction == 50 {
            self.stop_distance_50
        } else {
            self.stop_distance_62
        }
    }
}

/// The direction of the anchor, the last bar of `history`, against the
/// `BREAKOUT_BARS - 1` bars before it.
pub fn classify(history: &Vec<Ohlc>) -> (r: LongShortControl)
    requires
        history.len() >= BREAKOUT_BARS,
    ensures
        r == direction_of(breakout_bars(history@)),
{
    let n = history.len();
    let (prior_high, prior_low) = range_extremes(history, n - BREAKOUT_BARS, n - 1);
    assert(breakout_bars(history@).drop_last() =~= history@.subrange(
        n - BREAKOUT_BARS,
        n - 1,
    ));
    let close = history[n - 1].close;
    if close > prior_high {
        LongShortControl::Long
    } else if close < prior_low {
        LongShortControl::Short
    } else {
        LongShortControl::Control
    }
}

/// The range the stop distances of `direction` are fractions of, in ticks.
pub fn stop_base_of(history: &Vec<Ohlc>, direction: LongShortControl) -> (r: u32)
    requires
        history.len() >= BREAKOUT_BARS,
        all_wf(history@),
    ensures
        r == if stop_base(breakout_bars(history@), direction) > 0 {
            stop_base(breakout_bars(history@), direction)
        } else {
            0
        },
{
    let n = history.len();
    let (high, low) = range_extremes(history, n - BREAKOUT_BARS, n);
    let close = history[n - 1].close;
    let w = Ghost(breakout_bars(history@));
    proof {
        lemma_max_high(w@);
        lemma_min_low(w@);
        assert(w@[BREAKOUT_BARS - 1] == history@[n - 1]);
        assert(history@[n - 1].wf());
    }
    match direction {
        LongShortControl::Long => if close > low {
            close - low
        } else {
            0
        },
        LongShortControl::Short => if high > close {
            high - close
        } else {
            0
        },
        LongShortControl::Control => if high > low {
            high - low
        } else {
            0
        },
    }
}

/// The gap-adjusted copy of a run of bars.
pub fn gap_adjust(bars: &Vec<Ohlc>) -> (r: Vec<Ohlc>)
    requires
        bars.len() > 0,
        all_wf(bars@),
    ensures
        r@ == gap_adjusted(bars@),
        all_wf(r@),
{
    let mut r: Vec<Ohlc> = Vec::new();
    r.push(bars[0]);
    let mut i: usize = 1;
    while i < bars.len()
        invariant
            1 <= i <= bars.len(),
            all_wf(bars@),
            r@.len() == i,
            forall|j: int| 0 <= j < i ==> #[trigger] r@[j] == gap_adjusted(bars@)[j],
            all_wf(r@),
        decreases bars.len() - i,
    {
        let b = bars[i];
        let o = bars[i - 1].close;
        let adjusted = Ohlc {
            date: b.date,
            open: o,
            high: if o > b.high {
                o
            } else {
                b.high
            },
            low: if o < b.low {
                o
            } else {
                b.low
            },
            close: b.close,
        };
        proof {
            assert(bars@[i as int].wf());
        }
        r.push(adjusted);
        i = i + 1;
    }
    assert(r@ =~= gap_adjusted(bars@));
    r
}

/// Mean daily range over the whole range of the gap-adjusted bars, in thousandths,
/// truncated; `None` where the bars are all at one price.
pub fn standardized_range_diff(bars: &Vec<Ohlc>) -> (r: Option<u32>)
    requires
        bars.len() > 0,
        all_wf(bars@),
    ensures
        r == (if max_high(gap_adjusted(bars@)) == min_low(gap_adjusted(bars@)) {
            None::<u32>
        } else {
            Some(standardized_diff_of(bars@) as u32)
        }),
        r matches Some(v) ==> v <= 1000,
{
    let adjusted = gap_adjust(bars);
    let n = adjusted.len();
    let (high, low) = range_extremes(&adjusted, 0, n);
    assert(adjusted@.subrange(0, n as int) =~= adjusted@);
    proof {
        lemma_max_high(adjusted@);
        lemma_min_low(adjusted@);
        assert(adjusted@[0].wf());
    }
    if high == low {
        return None;
    }
    let mut sum: u128 = 0;
    let mut i: usize = 0;
    while i < n
        invariant
            0 <= i <= n == adjusted.len(),
            all_wf(adjusted@),
            sum == sum_range(adjusted@.subrange(0, i as int)),
            sum <= i * 0xffff_ffffu128,
        decreases n - i,
    {
        assert(adjusted@.subrange(0, i + 1).drop_last() =~= adjusted@.subrange(0, i as int));
        proof {
            assert(adjusted@[i as int].wf());
        }
        sum = sum + (adjusted[i].high - adjusted[i].low) as u128;
        i = i + 1;
    }
    assert(adjusted@.subrange(0, n as int) =~= adjusted@);
    let spread = (high - low) as u128;
    proof {
        lemma_sum_range_bound(adjusted@);
        assert(n * spread <= 0xffff_ffff_ffff_ffffu128 * 0xffff_ffffu128) by (nonlinear_arith)
            requires
                n <= 0xffff_ffff_ffff_ffffu128,
                spread <= 0xffff_ffffu128,
        ;
        assert(1000 * sum <= 1000 * (n * spread)) by (nonlinear_arith)
            requires
                sum <= n * spread,
        ;
        assert(n * spread > 0) by (nonlinear_arith)
            requires
                n > 0,
                spread > 0,
        ;
        vstd::arithmetic::div_mod::lemma_div_is_ordered(
            1000 * sum as int,
            1000 * (n * spread),
            n * spread,
        );
        vstd::arithmetic::div_mod::lemma_div_by_multiple(1000, n * spread);
        vstd::arithmetic::div_mod::lemma_div_pos_is_pos(1000 * sum as int, n * spread);
    }
    let den: u128 = n as u128 * spread;
    let diff = (1000 * sum) / den;
    Some(diff as u32)
}

} // verus!

verus! {

/// A close cannot lie both above the highest high and below the lowest low of the
/// well-formed bars before it: a window is never both a long and a short breakout.
pub proof fn lemma_breakout_exclusive(w: Seq<Ohlc>)
    requires
        w.len() >= 2,
        all_wf(w),
    ensures
        !(w.last().close > max_high(w.drop_last()) && w.last().close < min_low(w.drop_last())),
        direction_of(w) == LongShortControl::Long <==> w.last().close > max_high(w.drop_last()),
        direction_of(w) == LongShortControl::Short <==> w.last().close < min_low(w.drop_last()),
{
    let p = w.drop_last();
    lemma_max_high(p);
    lemma_min_low(p);
    assert(p[0] == w[0]);
    assert(w[0].wf());
}

/// A positive stop range means the bars are not all at one price, so the gap-adjusted
/// history has a range too.
pub proof fn lemma_positive_base_not_flat(h: Seq<Ohlc>)
    requires
        h.len() >= BREAKOUT_BARS,
        all_wf(h),
        stop_base(breakout_bars(h), direction_of(breakout_bars(h))) > 0,
    ensures
        max_high(gap_adjusted(h)) > min_low(gap_adjusted(h)),
{
    let n = h.len() as int;
    let w = breakout_bars(h);
    let a = gap_adjusted(h);
    let k = n - BREAKOUT_BARS;
    lemma_max_high(w);
    lemma_min_low(w);
    lemma_max_high(a);
    lemma_min_low(a);
    assert(w[BREAKOUT_BARS - 1] == h[n - 1]);
    assert(h[n - 1].wf());
    let j = choose|j: int| 0 <= j < w.len() && #[trigger] w[j].high == max_high(w);
    let i = choose|i: int| 0 <= i < w.len() && #[trigger] w[i].low == min_low(w);
    assert(w[j] == h[k + j]);
    assert(w[i] == h[k + i]);
    assert(a[k + j].high >= h[k + j].high);
    assert(a[k + i].low <= h[k + i].low);
}

/// A long or short breakout over well-formed bars always yields an event: its stop
/// range is positive.
pub proof fn lemma_breakout_has_event(h: Seq<Ohlc>)
    requires
        h.len() >= BREAKOUT_BARS,
        all_wf(h),
        direction_of(breakout_bars(h)) != LongShortControl::Control,
    ensures
        event_of(h) is Ok,
{
    let n = h.len() as int;
    let w = breakout_bars(h);
    let p = w.drop_last();
    let k = n - BREAKOUT_BARS;
    lemma_max_high(p);
    lemma_min_low(p);
    lemma_max_high(w);
    lemma_min_low(w);
    assert(p[0] == h[k]);
    assert(w[0] == h[k]);
    assert(h[k].wf());
}

} // verus!

verus! {

/// Breakout and failed-breakout states of an anchor day.
#[derive(Clone, Copy, Debug, PartialEq, Eq, Structural)]
pub enum Status {
    /// Closed above the highest high of the bars before it.
    BreakoutResistance,
    /// Traded above that high but closed at or below it.
    FailedBreakoutResistance,
    /// Stayed within the range of the bars before it.
    NoChange,
    /// Traded below the lowest low of the bars before it but closed at or above it.
    FailedBreakoutSupport,
    /// Closed below that low.
    BreakoutSupport,
}

/// The state of the last bar of `w` against the bars before it.
pub open spec fn status_of(w: Seq<Ohlc>) -> Status {
    let prior = w.drop_last();
    let last = w.last();
    if last.close > max_high(prior) {
        Status::BreakoutResistance
    } else if last.close < min_low(prior) {
        Status::BreakoutSupport
    } else if last.high > max_high(prior) {
        Status::FailedBreakoutResistance
    } else if last.low < min_low(prior) {
        Status::FailedBreakoutSupport
    } else {
        Status::NoChange
    }
}

/// The breakout state of the anchor, the last bar of `history`, against the
/// `BREAKOUT_BARS - 1` bars before it.
pub fn classify_status(history: &Vec<Ohlc>) -> (r: Status)
    requires
        history.len() >= BREAKOUT_BARS,
    ensures
        r == status_of(breakout_bars(history@)),
{
    let n = history.len();
    let (prior_high, prior_low) = range_extremes(history, n - BREAKOUT_BARS, n - 1);
    assert(breakout_bars(history@).drop_last() =~= history@.subrange(
        n - BREAKOUT_BARS,
        n - 1,
    ));
    let last = history[n - 1];
    if last.close > prior_high {
        Status::BreakoutResistance
    } else if last.close < prior_low {
        Status::BreakoutSupport
    } else if last.high > prior_high {
        Status::FailedBreakoutResistance
    } else if last.low < prior_low {
        Status::FailedBreakoutSupport
    } else {
        Status::NoChange
    }
}

} // verus!

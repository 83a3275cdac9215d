use vstd::prelude::*;

use crate::bar::Ohlc;

verus! {

/// Why an anchor day yields no breakout event.
#[derive(Clone, Copy, Debug, PartialEq, Eq, Structural)]
pub enum BacktestError {
    /// Fewer bars up to the anchor than the lookback asks for.
    InsufficientHistory,
    /// Fewer bars after the anchor than the lookahead asks for.
    InsufficientFuture,
    /// The range a stop distance or an average range is taken from is zero (flat bars).
    ZeroStopDistance,
    /// No bar of the series is dated on the requested day.
    NoSuchDate,
}

/// The bars of a series around one anchor day: `history` holds the `lookback` bars
/// ending with the anchor (at least that many bars precede the anchor), `forward` the `lookahead` bars that follow it.
#[derive(Clone, Debug)]
pub struct AnchorWindow {
    pub history: Vec<Ohlc>,
    pub forward: Vec<Ohlc>,
}

/// At least `lookback` bars before the anchor.
pub open spec fn has_history(anchor_index: int, lookback: int) -> bool {
    anchor_index >= lookback
}

/// Enough bars after the anchor.
pub open spec fn has_future(len: int, anchor_index: int, lookahead: int) -> bool {
    anchor_index < len && len - anchor_index - 1 >= lookahead
}

/// The bars `v[lo..hi]`, copied.
pub fn copy_range(v: &Vec<Ohlc>, lo: usize, hi: usize) -> (r: Vec<Ohlc>)
    requires
        lo <= hi <= v.len(),
    ensures
        r@ == v@.subrange(lo as int, hi as int),
{
    let mut r: Vec<Ohlc> = Vec::new();
    let mut i: usize = lo;
    while i < hi
        invariant
            lo <= i <= hi <= v.len(),
            r@ == v@.subrange(lo as int, i as int),
        decreases hi - i,
    {
        r.push(v[i]);
        i = i + 1;
        assert(r@ =~= v@.subrange(lo as int, i as int));
    }
    r
}

/// Slices the window of an anchor day out of a series: the `lookback` bars that end
/// with the anchor and the `lookahead` bars after it. Fails with `InsufficientHistory`
/// when fewer than `lookback` bars precede the anchor, and otherwise with
/// `InsufficientFuture` when fewer than `lookahead` bars follow it.
pub fn make_window(series: &Vec<Ohlc>, anchor_index: usize, lookback: usize, lookahead: usize) -> (r:
    Result<AnchorWindow, BacktestError>)
    ensures
        !has_history(anchor_index as int, lookback as int) ==> r matches Err(
            BacktestError::InsufficientHistory,
        ),
        has_history(anchor_index as int, lookback as int) && !has_future(
            series.len() as int,
            anchor_index as int,
            lookahead as int,
        ) ==> r matches Err(BacktestError::InsufficientFuture),
        has_history(anchor_index as int, lookback as int) && has_future(
            series.len() as int,
            anchor_index as int,
            lookahead as int,
        ) ==> (r matches Ok(w) && w.history@ == series@.subrange(
            anchor_index + 1 - lookback,
            anchor_index + 1,
        ) && w.forward@ == series@.subrange(anchor_index + 1, anchor_index + 1 + lookahead)),
{
    if anchor_index < lookback {
        return Err(BacktestError::InsufficientHistory);
    }
    if anchor_index >= series.len() || series.len() - anchor_index - 1 < lookahead {
        return Err(BacktestError::InsufficientFuture);
    }
    let history = copy_range(series, anchor_index + 1 - lookback, anchor_index + 1);
    let forward = copy_range(series, anchor_index + 1, anchor_index + 1 + lookahead);
    Ok(AnchorWindow { history, forward })
}

} // verus!

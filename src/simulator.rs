use vstd::prelude::*;

use crate::bar::{all_wf, Ohlc};
use crate::classifier::{BreakoutEvent, LongShortControl};

verus! {

/// Forward bars a window carries: enough for the longest horizon.
pub const FORWARD_BARS: usize = 21;

/// `n / d` rounded to the nearest integer, halves away from zero.
pub open spec fn round_div(n: int, d: int) -> int {
    if n >= 0 {
        (2 * n + d) / (2 * d)
    } else {
        -((-2 * n + d) / (2 * d))
    }
}

/// Whether the trade is stopped out anywhere on the forward path. `dist` is the stop
/// distance in hundredths of a tick, measured from the open of the first forward bar:
/// a low below it stops a long (or control) trade, a high above it a short one.
pub open spec fn stopped_out(d: LongShortControl, fwd: Seq<Ohlc>, dist: int) -> bool {
    let open = fwd[0].open as int;
    match d {
        LongShortControl::Short => exists|i: int|
            0 <= i < fwd.len() && 100 * (#[trigger] fwd[i].high - open) > dist,
        _ => exists|i: int| 0 <= i < fwd.len() && 100 * (#[trigger] fwd[i].low - open) < -dist,
    }
}

/// The normalized return of a trade held `h` days past the first forward bar, in
/// hundredths of the stop distance: -100 when stopped out, else the move from the
/// first open to the close of day `h`, rounded, with its sign flipped for a short.
pub open spec fn outcome_of(d: LongShortControl, fwd: Seq<Ohlc>, dist: int, h: int) -> int {
    if stopped_out(d, fwd, dist) {
        -100
    } else {
        let r = round_div(10000 * (fwd[h].close - fwd[0].open), dist);
        if d == LongShortControl::Short {
            -r
        } else {
            r
        }
    }
}

/// The horizons, in trading days past the first forward bar.
pub open spec fn horizon_of(i: int) -> int {
    if i == 0 {
        5
    } else if i == 1 {
        10
    } else {
        20
    }
}

/// The stop fractions, in percent.
pub open spec fn fraction_of(i: int) -> int {
    if i == 0 {
        38
    } else if i == 1 {
        50
    } else {
        62
    }
}

/// How many outcomes a forward path of `len` bars defines: three for each horizon
/// `h` with `h + 1` bars at hand.
pub open spec fn outcome_count(len: int) -> int {
    if len > 20 {
        9
    } else if len > 10 {
        6
    } else if len > 5 {
        3
    } else {
        0
    }
}

/// Outcome `k` of the grid horizons x fractions, horizon-major.
pub open spec fn grid_outcome(e: BreakoutEvent, fwd: Seq<Ohlc>, k: int) -> SimulatedOutcome {
    let h = horizon_of(k / 3);
    let f = fraction_of(k % 3);
    SimulatedOutcome {
        horizon: h as usize,
        stop_fraction: f as u32,
        normalized_return: outcome_of(
            e.direction,
            fwd,
            e.stop_distance_at(f as u32) as int,
            h,
        ) as i64,
    }
}

/// Every defined outcome of an event over a forward path.
pub open spec fn outcomes_of(e: BreakoutEvent, fwd: Seq<Ohlc>) -> Seq<SimulatedOutcome> {
    Seq::new(outcome_count(fwd.len() as int) as nat, |k: int| grid_outcome(e, fwd, k))
}

/// One simulated trade: horizon in days, stop fraction in percent, normalized return
/// in hundredths.
#[derive(Clone, Copy, Debug, PartialEq, Eq, Structural)]
pub struct SimulatedOutcome {
    pub horizon: usize,
    pub stop_fraction: u32,
    pub normalized_return: i64,
}

/// The stop floor: where the path never breaches the stop, the close of day `h` lies
/// within the stop too, so no outcome is below -1.00.
pub proof fn lemma_outcome_floor(d: LongShortControl, fwd: Seq<Ohlc>, dist: int, h: int)
    requires
        all_wf(fwd),
        0 <= h < fwd.len(),
        dist > 0,
    ensures
        outcome_of(d, fwd, dist, h) >= -100,
{
    if !stopped_out(d, fwd, dist) {
        let open = fwd[0].open as int;
        let n = 10000 * (fwd[h].close - open);
        assert(fwd[h].wf());
        if d == LongShortControl::Short {
            assert(!(100 * (fwd[h].high - open) > dist));
            if n >= 0 {
                assert(2 * n + dist <= 2 * dist * 100 + dist);
                vstd::arithmetic::div_mod::lemma_div_is_ordered(
                    2 * n + dist,
                    2 * dist * 100 + dist,
                    2 * dist,
                );
                vstd::arithmetic::div_mod::lemma_fundamental_div_mod_converse(
                    2 * dist * 100 + dist,
                    2 * dist,
                    100,
                    dist,
                );
            } else {
                vstd::arithmetic::div_mod::lemma_div_pos_is_pos(-2 * n + dist, 2 * dist);
            }
        } else {
            assert(!(100 * (fwd[h].low - open) < -dist));
            if n >= 0 {
                vstd::arithmetic::div_mod::lemma_div_pos_is_pos(2 * n + dist, 2 * dist);
            } else {
                assert(-2 * n + dist <= 2 * dist * 100 + dist);
                vstd::arithmetic::div_mod::lemma_div_is_ordered(
                    -2 * n + dist,
                    2 * dist * 100 + dist,
                    2 * dist,
                );
                vstd::arithmetic::div_mod::lemma_fundamental_div_mod_converse(
                    2 * dist * 100 + dist,
                    2 * dist,
                    100,
                    dist,
                );
            }
        }
    }
}

pub(crate) proof fn lemma_round_bound(a: int, dist: int)
    requires
        0 <= a,
        dist >= 1,
    ensures
        0 <= (2 * a + dist) / (2 * dist) <= a + 1,
{
    assert(2 * a + dist <= 2 * dist * (a + 1)) by (nonlinear_arith)
        requires
            0 <= a,
            dist >= 1,
    ;
    vstd::arithmetic::div_mod::lemma_div_is_ordered(2 * a + dist, 2 * dist * (a + 1), 2 * dist);
    vstd::arithmetic::div_mod::lemma_div_by_multiple(a + 1, 2 * dist);
    assert(2 * dist * (a + 1) == (a + 1) * (2 * dist)) by (nonlinear_arith);
    vstd::arithmetic::div_mod::lemma_div_pos_is_pos(2 * a + dist, 2 * dist);
}

/// Whether the forward path breaches the stop of `direction` at distance `dist`.
fn breaches_stop(direction: LongShortControl, forward: &Vec<Ohlc>, dist: u64) -> (r: bool)
    requires
        forward.len() > 0,
    ensures
        r == stopped_out(direction, forward@, dist as int),
{
    let open = forward[0].open as u128;
    let mut i: usize = 0;
    while i < forward.len()
        invariant
            0 <= i <= forward.len(),
            open == forward@[0].open,
            !(match direction {
                LongShortControl::Short => exists|j: int|
                    0 <= j < i && 100 * (#[trigger] forward@[j].high - open) > dist,
                _ => exists|j: int|
                    0 <= j < i && 100 * (#[trigger] forward@[j].low - open) < -dist,
            }),
        decreases forward.len() - i,
    {
        let b = forward[i];
        let hit = match direction {
            LongShortControl::Short => 100 * (b.high as u128) > 100 * open + dist as u128,
            _ => 100 * (b.low as u128) + (dist as u128) < 100 * open,
        };
        if hit {
            return true;
        }
        i = i + 1;
    }
    false
}

/// The normalized return of the trade held `horizon` days, in hundredths of the stop
/// distance; `None` where the path has no bar `horizon`.
pub fn simulate(direction: LongShortControl, forward: &Vec<Ohlc>, stop_distance: u64, horizon: usize) -> (r:
    Option<i64>)
    requires
        stop_distance > 0,
        all_wf(forward@),
    ensures
        r == (if horizon < forward.len() {
            Some(outcome_of(direction, forward@, stop_distance as int, horizon as int) as i64)
        } else {
            None::<i64>
        }),
        r matches Some(v) ==> v >= -100 && v == outcome_of(
            direction,
            forward@,
            stop_distance as int,
            horizon as int,
        ),
{
    if horizon >= forward.len() {
        return None;
    }
    proof {
        lemma_outcome_floor(direction, forward@, stop_distance as int, horizon as int);
    }
    if breaches_stop(direction, forward, stop_distance) {
        return Some(-100);
    }
    let open = forward[0].open;
    let close = forward[horizon].close;
    let dist = stop_distance as u128;
    let rising = close >= open;
    let a: u128 = if rising {
        10000 * ((close - open) as u128)
    } else {
        10000 * ((open - close) as u128)
    };
    proof {
        lemma_round_bound(a as int, dist as int);
    }
    let q = ((2 * a + dist) / (2 * dist)) as i64;
    let up = rising != (direction == LongShortControl::Short);
    if up {
        Some(q)
    } else {
        Some(-q)
    }
}

/// Simulates an event over its forward path at every horizon (5, 10, 20 days) and
/// every stop fraction (38, 50, 62 percent) for which the path is long enough,
/// horizon-major.
pub fn simulate_event(event: &BreakoutEvent, forward: &Vec<Ohlc>) -> (r: Vec<SimulatedOutcome>)
    requires
        event.stop_distance_38 > 0,
        event.stop_distance_50 > 0,
        event.stop_distance_62 > 0,
        all_wf(forward@),
    ensures
        r@ == outcomes_of(*event, forward@),
        forall|k: int| 0 <= k < r@.len() ==> #[trigger] r@[k].normalized_return >= -100,
{
    let mut r: Vec<SimulatedOutcome> = Vec::new();
    let mut k: usize = 0;
    while k < 9
        invariant
            0 <= k <= 9,
            k % 3 == 0,
            k <= outcome_count(forward.len() as int),
            all_wf(forward@),
            event.stop_distance_38 > 0,
            event.stop_distance_50 > 0,
            event.stop_distance_62 > 0,
            r@ == Seq::new(k as nat, |j: int| grid_outcome(*event, forward@, j)),
            forall|j: int| 0 <= j < r@.len() ==> #[trigger] r@[j].normalized_return >= -100,
        ensures
            k == outcome_count(forward.len() as int),
            r@ == Seq::new(k as nat, |j: int| grid_outcome(*event, forward@, j)),
            forall|j: int| 0 <= j < r@.len() ==> #[trigger] r@[j].normalized_return >= -100,
        decreases 9 - k,
    {
        let horizon: usize = if k == 0 {
            5
        } else if k == 3 {
            10
        } else {
            20
        };
        if horizon >= forward.len() {
            break;
        }
        let mut f: usize = 0;
        while f < 3
            invariant
                0 <= f <= 3,
                k < 9,
                k % 3 == 0,
                horizon == horizon_of((k / 3) as int),
                horizon < forward.len(),
                all_wf(forward@),
                event.stop_distance_38 > 0,
                event.stop_distance_50 > 0,
                event.stop_distance_62 > 0,
                r@ == Seq::new((k + f) as nat, |j: int| grid_outcome(*event, forward@, j)),
                forall|j: int| 0 <= j < r@.len() ==> #[trigger] r@[j].normalized_return >= -100,
            decreases 3 - f,
        {
            let fraction: u32 = if f == 0 {
                38
            } else if f == 1 {
                50
            } else {
                62
            };
            assert(fraction == fraction_of(((k + f) % 3) as int));
            assert(horizon == horizon_of(((k + f) / 3) as int));
            let dist = event.stop_distance(fraction);
            let v = simulate(event.direction, forward, dist, horizon);
            let value = match v {
                Some(x) => x,
                None => 0,
            };
            r.push(SimulatedOutcome { horizon, stop_fraction: fraction, normalized_return: value });
            f = f + 1;
            assert(r@ =~= Seq::new((k + f) as nat, |j: int| grid_outcome(*event, forward@, j)));
        }
        k = k + 3;
    }
    assert(r@ =~= outcomes_of(*event, forward@));
    r
}

} // verus!

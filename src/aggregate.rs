use vstd::prelude::*;
use vstd::string::StringExecFns;

use crate::classifier::LongShortControl;
use crate::driver::BacktestRecord;
use crate::regime::{contains_date, RegimeLabel, TopixDailyWindowList2};
use crate::simulator::{round_div, SimulatedOutcome};

verus! {

/// Two band limits over the standardized range diff, in thousandths: band 0 below
/// `first`, band 1 from `first` up to `second`, band 2 from `second` on.
#[derive(Clone, Copy, Debug, PartialEq, Eq, Structural)]
pub struct CompressionBands {
    pub first: u32,
    pub second: u32,
}

impl CompressionBands {
    /// The bands `[0, 0.09)`, `[0.09, 0.115)` and `[0.115, ∞)`.
    pub fn standard() -> (r: CompressionBands)
        ensures
            r.first == 90 && r.second == 115,
    {
        CompressionBands { first: 90, second: 115 }
    }

    pub open spec fn band_of(self, diff: u32) -> usize {
        if diff < self.first {
            0
        } else if diff < self.second {
            1
        } else {
            2
        }
    }

    /// The band a standardized range diff falls in.
    pub fn band(&self, diff: u32) -> (r: usize)
        ensures
            r == self.band_of(diff),
    {
        if diff < self.first {
            0
        } else if diff < self.second {
            1
        } else {
            2
        }
    }
}

/// What a bucket gathers: the outcome at one horizon and stop fraction of the events
/// of one direction, on days of one regime, in one compression band.
#[derive(Clone, Copy, Debug, PartialEq, Eq, Structural)]
pub struct BucketKey {
    pub direction: LongShortControl,
    pub regime: RegimeLabel,
    pub band: usize,
    pub horizon: usize,
    pub stop_fraction: u32,
}

/// The first normalized return of `outs` at horizon `h` and fraction `f`.
pub open spec fn find_return(outs: Seq<SimulatedOutcome>, h: usize, f: u32) -> Option<i64>
    decreases outs.len(),
{
    if outs.len() == 0 {
        None
    } else if outs[0].horizon == h && outs[0].stop_fraction == f {
        Some(outs[0].normalized_return)
    } else {
        find_return(outs.drop_first(), h, f)
    }
}

/// The value a record gives the bucket of `key`, if it belongs there.
pub open spec fn bucket_value(
    rec: BacktestRecord,
    regimes: TopixDailyWindowList2,
    bands: CompressionBands,
    key: BucketKey,
) -> Option<i64> {
    if rec.event.direction == key.direction && regimes.dates_of(key.regime).contains(
        rec.event.anchor_date,
    ) && bands.band_of(rec.event.standardized_range_diff) == key.band {
        find_return(rec.outcomes@, key.horizon, key.stop_fraction)
    } else {
        None
    }
}

/// The values of the bucket of `key`, in the order of the records.
pub open spec fn bucket_values(
    recs: Seq<BacktestRecord>,
    regimes: TopixDailyWindowList2,
    bands: CompressionBands,
    key: BucketKey,
) -> Seq<i64>
    decreases recs.len(),
{
    if recs.len() == 0 {
        Seq::empty()
    } else {
        let prev = bucket_values(recs.drop_last(), regimes, bands, key);
        match bucket_value(recs.last(), regimes, bands, key) {
            Some(v) => prev.push(v),
            None => prev,
        }
    }
}

/// The first normalized return of `outs` at horizon `h` and fraction `f`.
pub fn find_outcome(outs: &Vec<SimulatedOutcome>, h: usize, f: u32) -> (r: Option<i64>)
    ensures
        r == find_return(outs@, h, f),
{
    let mut i: usize = 0;
    assert(outs@.subrange(0, outs@.len() as int) =~= outs@);
    while i < outs.len()
        invariant
            0 <= i <= outs.len(),
            find_return(outs@, h, f) == find_return(outs@.subrange(i as int, outs@.len() as int), h, f),
        decreases outs.len() - i,
    {
        let ghost rest = outs@.subrange(i as int, outs@.len() as int);
        assert(rest.drop_first() =~= outs@.subrange(i + 1, outs@.len() as int));
        if outs[i].horizon == h && outs[i].stop_fraction == f {
            return Some(outs[i].normalized_return);
        }
        i = i + 1;
    }
    assert(outs@.subrange(i as int, outs@.len() as int).len() == 0);
    None
}

/// The normalized returns routed to the bucket of `key`, in the order of the records.
pub fn bucket_returns(
    records: &Vec<BacktestRecord>,
    regimes: &TopixDailyWindowList2,
    bands: &CompressionBands,
    key: &BucketKey,
) -> (r: Vec<i64>)
    ensures
        r@ == bucket_values(records@, *regimes, *bands, *key),
{
    let mut r: Vec<i64> = Vec::new();
    let mut i: usize = 0;
    while i < records.len()
        invariant
            0 <= i <= records.len(),
            r@ == bucket_values(records@.subrange(0, i as int), *regimes, *bands, *key),
        decreases records.len() - i,
    {
        assert(records@.subrange(0, i + 1).drop_last() =~= records@.subrange(0, i as int));
        let rec = &records[i];
        if rec.event.direction == key.direction && contains_date(
            regimes.get(key.regime),
            rec.event.anchor_date,
        ) && bands.band(rec.event.standardized_range_diff) == key.band {
            match find_outcome(&rec.outcomes, key.horizon, key.stop_fraction) {
                Some(v) => r.push(v),
                None => {},
            }
        }
        i = i + 1;
    }
    assert(records@.subrange(0, records.len() as int) =~= records@);
    r
}

/// The sum of a run of values.
pub open spec fn seq_sum(s: Seq<i64>) -> int
    decreases s.len(),
{
    if s.len() == 0 {
        0
    } else {
        seq_sum(s.drop_last()) + s.last()
    }
}

/// All values equal: the sample variance is zero (or, for one value, undefined).
pub open spec fn all_equal(s: Seq<i64>) -> bool {
    forall|i: int, j: int| 0 <= i < s.len() && 0 <= j < s.len() ==> s[i] == s[j]
}

/// The count, sum and spread of a bucket's values.
#[derive(Clone, Copy, Debug, PartialEq, Eq, Structural)]
pub struct BucketMoments {
    pub n: usize,
    pub sum: i128,
    pub constant: bool,
}

impl BucketMoments {
    /// The sum is that of `n` values of `i64`.
    pub open spec fn wf(self) -> bool {
        -(self.n * 0x8000_0000_0000_0000) <= self.sum <= self.n * 0x8000_0000_0000_0000
    }

    /// Counts and sums a bucket's values (hundredths).
    pub fn from_values(values: &Vec<i64>) -> (r: BucketMoments)
        ensures
            r.n == values.len(),
            r.sum == seq_sum(values@),
            r.constant == all_equal(values@),
            r.wf(),
    {
        let mut sum: i128 = 0;
        let mut constant = true;
        let mut i: usize = 0;
        while i < values.len()
            invariant
                0 <= i <= values.len(),
                sum == seq_sum(values@.subrange(0, i as int)),
                -(i * 0x8000_0000_0000_0000) <= sum <= i * 0x8000_0000_0000_0000,
                constant == all_equal(values@.subrange(0, i as int)),
            decreases values.len() - i,
        {
            assert(values@.subrange(0, i + 1).drop_last() =~= values@.subrange(0, i as int));
            if i > 0 && values[i] != values[0] {
                constant = false;
            }
            proof {
                let s = values@.subrange(0, i + 1);
                if constant {
                    assert(all_equal(s)) by {
                        assert forall|a: int, b: int|
                            0 <= a < s.len() && 0 <= b < s.len() implies s[a] == s[b] by {
                            assert(s[a] == values@.subrange(0, i as int + 1)[a]);
                            if i > 0 {
                                assert(values@.subrange(0, i as int)[0] == s[0]);
                                if a < i {
                                    assert(values@.subrange(0, i as int)[a] == s[a]);
                                }
                                if b < i {
                                    assert(values@.subrange(0, i as int)[b] == s[b]);
                                }
                            }
                        }
                    }
                } else if i > 0 && values@[i as int] != values@[0] {
                    assert(s[i as int] != s[0]);
                } else {
                    let t = values@.subrange(0, i as int);
                    let (a, b) = choose|a: int, b: int|
                        0 <= a < t.len() && 0 <= b < t.len() && t[a] != t[b];
                    assert(s[a] == t[a] && s[b] == t[b]);
                }
            }
            sum = sum + values[i] as i128;
            i = i + 1;
        }
        assert(values@.subrange(0, values.len() as int) =~= values@);
        BucketMoments { n: values.len(), sum, constant }
    }

    /// The mean in thousandths, rounded half away from zero (values in hundredths).
    pub open spec fn mean_milli_of(self) -> int {
        round_div(10 * self.sum, self.n as int)
    }

    /// The mean in thousandths; `None` for an empty bucket.
    pub fn mean_milli(&self) -> (r: Option<i128>)
        requires
            self.wf(),
        ensures
            r == (if self.n == 0 {
                None::<i128>
            } else {
                Some(self.mean_milli_of() as i128)
            }),
    {
        if self.n == 0 {
            return None;
        }
        let n = self.n as u128;
        let neg = self.sum < 0;
        let a: u128 = if neg {
            if self.sum == i128::MIN {
                0x8000_0000_0000_0000_0000_0000_0000_0000u128
            } else {
                (-self.sum) as u128
            }
        } else {
            self.sum as u128
        };
        let q = a / n;
        let rem = a % n;
        let tail = (20 * rem + n) / (2 * n);
        proof {
            let ai = a as int;
            let ni = n as int;
            vstd::arithmetic::div_mod::lemma_fundamental_div_mod(ai, ni);
            assert(20 * ai + ni == (20 * rem + ni) + (10 * q) * (2 * ni)) by (nonlinear_arith)
                requires
                    ai == ni * q + rem,
            ;
            vstd::arithmetic::div_mod::lemma_hoist_over_denominator(
                20 * rem + ni,
                10 * q as int,
                (2 * ni) as nat,
            );
            assert(2 * (10 * ai) + ni == 20 * ai + ni);
            vstd::arithmetic::div_mod::lemma_div_is_ordered_by_denominator(ai, 1, ni);
            assert(20 * rem + ni < 2 * ni * 11) by (nonlinear_arith)
                requires
                    rem < ni,
            ;
            vstd::arithmetic::div_mod::lemma_div_is_ordered(20 * rem + ni, 2 * ni * 11, 2 * ni);
            vstd::arithmetic::div_mod::lemma_div_by_multiple(11, 2 * ni);
            assert(2 * ni * 11 == 11 * (2 * ni)) by (nonlinear_arith);
            vstd::arithmetic::div_mod::lemma_div_is_ordered(ai, ni * 0x8000_0000_0000_0000, ni);
            vstd::arithmetic::div_mod::lemma_div_by_multiple(0x8000_0000_0000_0000, ni);
            assert(ni * 0x8000_0000_0000_0000 == 0x8000_0000_0000_0000 * ni) by (nonlinear_arith);
        }
        let m = (10 * q + tail) as i128;
        if neg {
            Some(-m)
        } else {
            Some(m)
        }
    }
}

/// The report on one bucket.
#[derive(Clone, Copy, Debug, PartialEq, Eq, Structural)]
pub enum BucketReport {
    /// No value reached the bucket.
    NoData,
    /// The values do not vary, so no t statistic exists.
    Undefined { n: usize, mean_milli: i128 },
    /// The one-sided test: mean and p-value in thousandths, and whether that p-value
    /// is below 0.05.
    Tested { n: usize, mean_milli: i128, p_value_milli: u32, significant: bool },
}

/// The reported p-value in thousandths: one minus the rounded CDF for a mean at or
/// above zero, the rounded CDF itself for a negative mean.
pub open spec fn p_value_of(sum: int, cdf_milli: int) -> int {
    if sum >= 0 {
        1000 - cdf_milli
    } else {
        cdf_milli
    }
}

/// Significant where the reported p-value (in thousandths) is below 0.05.
pub open spec fn is_significant(p_milli: int) -> bool {
    p_milli < 50
}

/// The report on a bucket, given its moments and the t distribution's CDF at its t
/// statistic (with `n - 1` degrees of freedom), rounded to thousandths. The CDF is
/// read only where the values vary.
pub fn bucket_report(m: &BucketMoments, cdf_milli: u32) -> (r: BucketReport)
    requires
        cdf_milli <= 1000,
        m.wf(),
    ensures
        m.n == 0 ==> r == BucketReport::NoData,
        m.n > 0 && m.constant ==> r == (BucketReport::Undefined {
            n: m.n,
            mean_milli: m.mean_milli_of() as i128,
        }),
        m.n > 0 && !m.constant ==> r == (BucketReport::Tested {
            n: m.n,
            mean_milli: m.mean_milli_of() as i128,
            p_value_milli: p_value_of(m.sum as int, cdf_milli as int) as u32,
            significant: is_significant(p_value_of(m.sum as int, cdf_milli as int)),
        }),
{
    let mean = match m.mean_milli() {
        None => {
            return BucketReport::NoData;
        },
        Some(v) => v,
    };
    if m.constant {
        return BucketReport::Undefined { n: m.n, mean_milli: mean };
    }
    let p = if m.sum >= 0 {
        1000 - cdf_milli
    } else {
        cdf_milli
    };
    let significant = p < 50;
    BucketReport::Tested { n: m.n, mean_milli: mean, p_value_milli: p, significant }
}

} // verus!

verus! {

impl BucketReport {
    /// The report as text: `mean: <m>, p: <p>`, with ` ... sig. diff. (95%)` where
    /// significant, the p-value printed in hundredths; `no data` for an empty bucket and
    /// `p: undefined` where the values do not vary.
    pub open spec fn text_of(self) -> Seq<char> {
        match self {
            BucketReport::NoData => "no data"@,
            BucketReport::Undefined { n, mean_milli } => "mean: "@ + crate::report::fixed_text_of(
                mean_milli as int,
                3,
            ) + ", p: undefined"@,
            BucketReport::Tested { n, mean_milli, p_value_milli, significant } => "mean: "@
                + crate::report::fixed_text_of(mean_milli as int, 3) + ", p: "@
                + crate::report::fixed_text_of(round_div(p_value_milli as int, 10), 2) + if significant {
                " ... sig. diff. (95%)"@
            } else {
                Seq::empty()
            },
        }
    }

    pub fn to_text(&self) -> (r: String)
        requires
            match self {
                BucketReport::NoData => true,
                BucketReport::Undefined { n, mean_milli } => mean_milli > i128::MIN,
                BucketReport::Tested { n, mean_milli, p_value_milli, significant } => mean_milli
                    > i128::MIN,
            },
        ensures
            r@ == self.text_of(),
    {
        match self {
            BucketReport::NoData => "no data".to_owned(),
            BucketReport::Undefined { n, mean_milli } => {
                let mut s = "mean: ".to_owned();
                let m = crate::report::fixed_text(*mean_milli, 3);
                s.append(m.as_str());
                s.append(", p: undefined");
                s
            },
            BucketReport::Tested { n, mean_milli, p_value_milli, significant } => {
                let mut s = "mean: ".to_owned();
                let m = crate::report::fixed_text(*mean_milli, 3);
                s.append(m.as_str());
                s.append(", p: ");
                let p = ((2 * *p_value_milli as u64 + 10) / 20) as i128;
                let pt = crate::report::fixed_text(p, 2);
                s.append(pt.as_str());
                if *significant {
                    s.append(" ... sig. diff. (95%)");
                } else {
                    proof {
                        assert(s@ + Seq::<char>::empty() =~= s@);
                    }
                }
                s
            },
        }
    }
}

} // verus!

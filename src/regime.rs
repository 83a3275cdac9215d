use vstd::prelude::*;

verus! {

/// The market regime of a trading day, by the strength and sign of the benchmark
/// index's overnight gap.
#[derive(Clone, Copy, Debug, PartialEq, Eq, Structural)]
pub enum RegimeLabel {
    StrongPositive,
    ModeratePositive,
    MildPositive,
    MildNegative,
    ModerateNegative,
    StrongNegative,
}

/// The dates (day numbers) of each of six regimes.
#[derive(Clone, Debug)]
pub struct TopixDailyWindowList2 {
    strong_positive: Vec<i32>,
    moderate_positive: Vec<i32>,
    mild_positive: Vec<i32>,
    mild_negative: Vec<i32>,
    moderate_negative: Vec<i32>,
    strong_negative: Vec<i32>,
}

impl TopixDailyWindowList2 {
    /// The dates of one regime.
    pub closed spec fn dates_of(self, label: RegimeLabel) -> Seq<i32> {
        match label {
            RegimeLabel::StrongPositive => self.strong_positive@,
            RegimeLabel::ModeratePositive => self.moderate_positive@,
            RegimeLabel::MildPositive => self.mild_positive@,
            RegimeLabel::MildNegative => self.mild_negative@,
            RegimeLabel::ModerateNegative => self.moderate_negative@,
            RegimeLabel::StrongNegative => self.strong_negative@,
        }
    }

    /// Regime lists given as they are, strongest positive first.
    pub fn from_lists(
        strong_positive: Vec<i32>,
        moderate_positive: Vec<i32>,
        mild_positive: Vec<i32>,
        mild_negative: Vec<i32>,
        moderate_negative: Vec<i32>,
        strong_negative: Vec<i32>,
    ) -> (r: TopixDailyWindowList2)
        ensures
            r.dates_of(RegimeLabel::StrongPositive) == strong_positive@,
            r.dates_of(RegimeLabel::ModeratePositive) == moderate_positive@,
            r.dates_of(RegimeLabel::MildPositive) == mild_positive@,
            r.dates_of(RegimeLabel::MildNegative) == mild_negative@,
            r.dates_of(RegimeLabel::ModerateNegative) == moderate_negative@,
            r.dates_of(RegimeLabel::StrongNegative) == strong_negative@,
    {
        TopixDailyWindowList2 {
            strong_positive,
            moderate_positive,
            mild_positive,
            mild_negative,
            moderate_negative,
            strong_negative,
        }
    }

    /// The dates of one regime.
    pub fn get(&self, label: RegimeLabel) -> (r: &Vec<i32>)
        ensures
            r@ == self.dates_of(label),
    {
        match label {
            RegimeLabel::StrongPositive => &self.strong_positive,
            RegimeLabel::ModeratePositive => &self.moderate_positive,
            RegimeLabel::MildPositive => &self.mild_positive,
            RegimeLabel::MildNegative => &self.mild_negative,
            RegimeLabel::ModerateNegative => &self.moderate_negative,
            RegimeLabel::StrongNegative => &self.strong_negative,
        }
    }

    pub fn get_strong_positive(&self) -> (r: &Vec<i32>)
        ensures
            r@ == self.dates_of(RegimeLabel::StrongPositive),
    {
        &self.strong_positive
    }

    pub fn get_moderate_positive(&self) -> (r: &Vec<i32>)
        ensures
            r@ == self.dates_of(RegimeLabel::ModeratePositive),
    {
        &self.moderate_positive
    }

    pub fn get_mild_positive(&self) -> (r: &Vec<i32>)
        ensures
            r@ == self.dates_of(RegimeLabel::MildPositive),
    {
        &self.mild_positive
    }

    pub fn get_mild_negative(&self) -> (r: &Vec<i32>)
        ensures
            r@ == self.dates_of(RegimeLabel::MildNegative),
    {
        &self.mild_negative
    }

    pub fn get_moderate_negative(&self) -> (r: &Vec<i32>)
        ensures
            r@ == self.dates_of(RegimeLabel::ModerateNegative),
    {
        &self.moderate_negative
    }

    pub fn get_strong_negative(&self) -> (r: &Vec<i32>)
        ensures
            r@ == self.dates_of(RegimeLabel::StrongNegative),
    {
        &self.strong_negative
    }
}

/// Whether `v` holds `x`.
pub fn contains_date(v: &Vec<i32>, x: i32) -> (r: bool)
    ensures
        r == v@.contains(x),
{
    let mut i: usize = 0;
    while i < v.len()
        invariant
            0 <= i <= v.len(),
            forall|j: int| 0 <= j < i ==> v@[j] != x,
        decreases v.len() - i,
    {
        if v[i] == x {
            assert(v@[i as int] == x);
            return true;
        }
        i = i + 1;
    }
    false
}

} // verus!

verus! {

/// One day of the benchmark index with its overnight gap: its prices, the next day's
/// open, the gap `next_open - close` in ticks, the ratio next open over close in
/// thousandths, rounded (1000 is no gap), and the weekday (0 for Monday).
#[derive(Clone, Copy, Debug, PartialEq, Eq, Structural)]
pub struct DailyGap {
    pub date: i32,
    pub open: u32,
    pub high: u32,
    pub low: u32,
    pub close: u32,
    pub next_open: u32,
    pub window: i64,
    pub ratio: u64,
    pub weekday: u32,
}

/// The weekday of a day number, 0 for Monday to 6 for Sunday (day 1, the first of
/// January of year 1, was a Monday).
pub open spec fn weekday_of(day: int) -> int {
    (day - 1) % 7
}

/// The weekday of a day number, 0 for Monday to 6 for Sunday.
pub fn weekday(day: i32) -> (r: u32)
    ensures
        r == weekday_of(day as int),
{
    let shifted: u64 = (day as i64 - 1 + 7 * 400_000_000) as u64;
    proof {
        vstd::arithmetic::div_mod::lemma_mod_multiples_vanish(400_000_000, day - 1, 7);
    }
    (shifted % 7) as u32
}

/// The gap record of bar `b` followed by a bar opening at `next_open`.
pub open spec fn gap_of(b: crate::bar::Ohlc, next_open: u32) -> DailyGap {
    DailyGap {
        date: b.date,
        open: b.open,
        high: b.high,
        low: b.low,
        close: b.close,
        next_open,
        window: (next_open - b.close) as i64,
        ratio: crate::simulator::round_div(1000 * next_open, b.close as int) as u64,
        weekday: weekday_of(b.date as int) as u32,
    }
}

/// `u64` in ascending order.
pub open spec fn leq_u64() -> spec_fn(u64, u64) -> bool {
    |x: u64, y: u64| x <= y
}

/// The values in ascending order.
pub open spec fn ascending(s: Seq<u64>) -> Seq<u64> {
    s.sort_by(leq_u64())
}

/// Relies on `slice::sort_unstable`: the values are put in ascending order, none
/// added or lost.
#[verifier::external_body]
pub(crate) fn sort_values(v: &mut Vec<u64>)
    ensures
        vstd::relations::sorted_by(final(v)@, leq_u64()),
        final(v)@.to_multiset() == old(v)@.to_multiset(),
{
    v.sort_unstable();
}

pub(crate) proof fn lemma_leq_total()
    ensures
        vstd::relations::total_ordering(leq_u64()),
{
    let f = leq_u64();
    assert(vstd::relations::reflexive(f));
    assert(vstd::relations::antisymmetric(f));
    assert(vstd::relations::transitive(f));
    assert(vstd::relations::strongly_connected(f));
}

/// The values sorted ascending.
pub fn sorted_copy(v: &Vec<u64>) -> (r: Vec<u64>)
    ensures
        r@ == ascending(v@),
        r@.len() == v@.len(),
{
    let mut r = v.clone();
    assert(r@ == v@);
    let ghost before = r@;
    sort_values(&mut r);
    proof {
        before.to_multiset_ensures();
        r@.to_multiset_ensures();
        lemma_leq_total();
        v@.lemma_sort_by_ensures(leq_u64());
        vstd::seq_lib::lemma_sorted_unique(r@, ascending(v@), leq_u64());
    }
    r
}

/// The gaps of an index series: one for each bar but the last, skipping bars that
/// closed at zero.
pub open spec fn gaps_upto(bars: Seq<crate::bar::Ohlc>, n: int) -> Seq<DailyGap>
    decreases n,
{
    if n <= 0 {
        Seq::empty()
    } else {
        let prev = gaps_upto(bars, n - 1);
        let b = bars[n - 1];
        if b.close > 0 {
            prev.push(gap_of(b, bars[n].open))
        } else {
            prev
        }
    }
}

/// The ratios of the gaps above 1000 (`positive`) or below it.
pub open spec fn ratios_where(gaps: Seq<DailyGap>, positive: bool) -> Seq<u64>
    decreases gaps.len(),
{
    if gaps.len() == 0 {
        Seq::empty()
    } else {
        let prev = ratios_where(gaps.drop_last(), positive);
        let r = gaps.last().ratio;
        if (positive && r > 1000) || (!positive && r < 1000) {
            prev.push(r)
        } else {
            prev
        }
    }
}

/// The value at index `k` of the values sorted ascending (zero where there is none).
pub open spec fn order_stat(s: Seq<u64>, k: int) -> u64 {
    if 0 <= k < s.len() {
        ascending(s)[k]
    } else {
        0
    }
}

/// Split points of the gaps: tertiles of the positive and of the negative ratios, or
/// (with `lower == upper`) their medians.
#[derive(Clone, Copy, Debug, PartialEq, Eq, Structural)]
pub struct GapSplits {
    pub positive_lower: u64,
    pub positive_upper: u64,
    pub negative_lower: u64,
    pub negative_upper: u64,
}

/// The tertile split points: the values at a third and at two thirds of each sorted
/// population.
pub open spec fn tertiles_of(gaps: Seq<DailyGap>) -> GapSplits {
    let p = ratios_where(gaps, true);
    let n = ratios_where(gaps, false);
    GapSplits {
        positive_lower: order_stat(p, (p.len() / 3) as int),
        positive_upper: order_stat(p, (p.len() * 2 / 3) as int),
        negative_lower: order_stat(n, (n.len() / 3) as int),
        negative_upper: order_stat(n, (n.len() * 2 / 3) as int),
    }
}

/// The median split points: the value at half of each sorted population.
pub open spec fn medians_of(gaps: Seq<DailyGap>) -> GapSplits {
    let p = ratios_where(gaps, true);
    let n = ratios_where(gaps, false);
    GapSplits {
        positive_lower: order_stat(p, (p.len() / 2) as int),
        positive_upper: order_stat(p, (p.len() / 2) as int),
        negative_lower: order_stat(n, (n.len() / 2) as int),
        negative_upper: order_stat(n, (n.len() / 2) as int),
    }
}

/// The regime of a gap under tertile splits: a positive gap above the upper tertile is
/// strong, above the lower one moderate, else mild; a negative one below the lower
/// tertile is strong, below the upper one moderate, else mild; no gap, no regime.
pub open spec fn tertile_regime(r: u64, s: GapSplits) -> Option<RegimeLabel> {
    if r > 1000 {
        if r > s.positive_upper {
            Some(RegimeLabel::StrongPositive)
        } else if r > s.positive_lower {
            Some(RegimeLabel::ModeratePositive)
        } else {
            Some(RegimeLabel::MildPositive)
        }
    } else if r < 1000 {
        if r < s.negative_lower {
            Some(RegimeLabel::StrongNegative)
        } else if r < s.negative_upper {
            Some(RegimeLabel::ModerateNegative)
        } else {
            Some(RegimeLabel::MildNegative)
        }
    } else {
        None
    }
}

/// The regime of a gap under median splits: beyond the median strong, short of it
/// mild, at it none.
pub open spec fn median_regime(r: u64, s: GapSplits) -> Option<RegimeLabel> {
    if r > 1000 {
        if r > s.positive_upper {
            Some(RegimeLabel::StrongPositive)
        } else if r < s.positive_lower {
            Some(RegimeLabel::MildPositive)
        } else {
            None
        }
    } else if r < 1000 {
        if r < s.negative_lower {
            Some(RegimeLabel::StrongNegative)
        } else if r > s.negative_upper {
            Some(RegimeLabel::MildNegative)
        } else {
            None
        }
    } else {
        None
    }
}

/// The dates of the gaps in regime `label`, in order.
pub open spec fn dates_in(gaps: Seq<DailyGap>, label: RegimeLabel, s: GapSplits, tertiles: bool) -> Seq<i32>
    decreases gaps.len(),
{
    if gaps.len() == 0 {
        Seq::empty()
    } else {
        let prev = dates_in(gaps.drop_last(), label, s, tertiles);
        let g = gaps.last();
        let l = if tertiles {
            tertile_regime(g.ratio, s)
        } else {
            median_regime(g.ratio, s)
        };
        if l == Some(label) {
            prev.push(g.date)
        } else {
            prev
        }
    }
}

/// The daily gaps of the benchmark index.
#[derive(Clone, Debug)]
pub struct BacktestingTopixList {
    pub data: Vec<DailyGap>,
}

impl BacktestingTopixList {
    /// The gaps of an index series: for each bar but the last, its gap record against
    /// the next bar's open; bars that closed at zero are skipped.
    pub fn from_bars(bars: &Vec<crate::bar::Ohlc>) -> (r: BacktestingTopixList)
        ensures
            r.data@ == gaps_upto(bars@, bars.len() - 1),
    {
        let mut data: Vec<DailyGap> = Vec::new();
        if bars.len() == 0 {
            return BacktestingTopixList { data };
        }
        let mut i: usize = 0;
        while i + 1 < bars.len()
            invariant
                0 <= i < bars.len(),
                data@ == gaps_upto(bars@, i as int),
            decreases bars.len() - i,
        {
            let b = bars[i];
            if b.close > 0 {
                let num = 1000 * (bars[i + 1].open as u64);
                let c = b.close as u64;
                let ratio = (2 * num + c) / (2 * c);
                proof {
                    vstd::arithmetic::div_mod::lemma_div_is_ordered_by_denominator(
                        (2 * num + c) as int,
                        1,
                        (2 * c) as int,
                    );
                }
                let next_open = bars[i + 1].open;
                data.push(
                    DailyGap {
                        date: b.date,
                        open: b.open,
                        high: b.high,
                        low: b.low,
                        close: b.close,
                        next_open,
                        window: next_open as i64 - b.close as i64,
                        ratio,
                        weekday: weekday(b.date),
                    },
                );
            }
            i = i + 1;
        }
        BacktestingTopixList { data }
    }

    /// The ratios above 1000 (`positive`) or below it, in order.
    pub fn ratios(&self, positive: bool) -> (r: Vec<u64>)
        ensures
            r@ == ratios_where(self.data@, positive),
    {
        let mut r: Vec<u64> = Vec::new();
        let mut i: usize = 0;
        while i < self.data.len()
            invariant
                0 <= i <= self.data.len(),
                r@ == ratios_where(self.data@.subrange(0, i as int), positive),
            decreases self.data.len() - i,
        {
            assert(self.data@.subrange(0, i + 1).drop_last() =~= self.data@.subrange(0, i as int));
            let x = self.data[i].ratio;
            if (positive && x > 1000) || (!positive && x < 1000) {
                r.push(x);
            }
            i = i + 1;
        }
        assert(self.data@.subrange(0, self.data.len() as int) =~= self.data@);
        r
    }

    /// The tertile split points of the positive and negative gaps.
    pub fn tertiles(&self) -> (r: GapSplits)
        ensures
            r == tertiles_of(self.data@),
    {
        let p = sorted_copy(&self.ratios(true));
        let n = sorted_copy(&self.ratios(false));
        GapSplits {
            positive_lower: pick(&p, p.len() / 3),
            positive_upper: pick(&p, (p.len() as u128 * 2 / 3) as usize),
            negative_lower: pick(&n, n.len() / 3),
            negative_upper: pick(&n, (n.len() as u128 * 2 / 3) as usize),
        }
    }

    /// The median split points of the positive and negative gaps.
    pub fn medians(&self) -> (r: GapSplits)
        ensures
            r == medians_of(self.data@),
    {
        let p = sorted_copy(&self.ratios(true));
        let n = sorted_copy(&self.ratios(false));
        let pm = pick(&p, p.len() / 2);
        let nm = pick(&n, n.len() / 2);
        GapSplits { positive_lower: pm, positive_upper: pm, negative_lower: nm, negative_upper: nm }
    }

    /// The dates in regime `label` under the given splits.
    pub fn dates_in_regime(&self, label: RegimeLabel, s: GapSplits, tertiles: bool) -> (r: Vec<
        i32,
    >)
        ensures
            r@ == dates_in(self.data@, label, s, tertiles),
    {
        let mut r: Vec<i32> = Vec::new();
        let mut i: usize = 0;
        while i < self.data.len()
            invariant
                0 <= i <= self.data.len(),
                r@ == dates_in(self.data@.subrange(0, i as int), label, s, tertiles),
            decreases self.data.len() - i,
        {
            assert(self.data@.subrange(0, i + 1).drop_last() =~= self.data@.subrange(0, i as int));
            let g = self.data[i];
            let l = if tertiles {
                tertile_label(g.ratio, &s)
            } else {
                median_label(g.ratio, &s)
            };
            if l == Some(label) {
                r.push(g.date);
            }
            i = i + 1;
        }
        assert(self.data@.subrange(0, self.data.len() as int) =~= self.data@);
        r
    }

    /// Dates of strong, moderate and mild positive gaps, split at the tertiles.
    pub fn get_positive_window_list(&self) -> (r: (Vec<i32>, Vec<i32>, Vec<i32>))
        ensures
            r.0@ == dates_in(self.data@, RegimeLabel::StrongPositive, tertiles_of(self.data@), true),
            r.1@ == dates_in(self.data@, RegimeLabel::ModeratePositive, tertiles_of(self.data@), true),
            r.2@ == dates_in(self.data@, RegimeLabel::MildPositive, tertiles_of(self.data@), true),
    {
        let s = self.tertiles();
        (
            self.dates_in_regime(RegimeLabel::StrongPositive, s, true),
            self.dates_in_regime(RegimeLabel::ModeratePositive, s, true),
            self.dates_in_regime(RegimeLabel::MildPositive, s, true),
        )
    }

    /// Dates of strong, moderate and mild negative gaps, split at the tertiles.
    pub fn get_negative_window_list(&self) -> (r: (Vec<i32>, Vec<i32>, Vec<i32>))
        ensures
            r.0@ == dates_in(self.data@, RegimeLabel::StrongNegative, tertiles_of(self.data@), true),
            r.1@ == dates_in(self.data@, RegimeLabel::ModerateNegative, tertiles_of(self.data@), true),
            r.2@ == dates_in(self.data@, RegimeLabel::MildNegative, tertiles_of(self.data@), true),
    {
        let s = self.tertiles();
        (
            self.dates_in_regime(RegimeLabel::StrongNegative, s, true),
            self.dates_in_regime(RegimeLabel::ModerateNegative, s, true),
            self.dates_in_regime(RegimeLabel::MildNegative, s, true),
        )
    }

    /// Dates of positive gaps beyond the median.
    pub fn get_strong_positive_window_list(&self) -> (r: Vec<i32>)
        ensures
            r@ == dates_in(self.data@, RegimeLabel::StrongPositive, medians_of(self.data@), false),
    {
        self.dates_in_regime(RegimeLabel::StrongPositive, self.medians(), false)
    }

    /// Dates of positive gaps short of the median.
    pub fn get_mild_positive_window_list(&self) -> (r: Vec<i32>)
        ensures
            r@ == dates_in(self.data@, RegimeLabel::MildPositive, medians_of(self.data@), false),
    {
        self.dates_in_regime(RegimeLabel::MildPositive, self.medians(), false)
    }

    /// Dates of negative gaps short of the median.
    pub fn get_mild_negative_window_list(&self) -> (r: Vec<i32>)
        ensures
            r@ == dates_in(self.data@, RegimeLabel::MildNegative, medians_of(self.data@), false),
    {
        self.dates_in_regime(RegimeLabel::MildNegative, self.medians(), false)
    }

    /// Dates of negative gaps beyond the median.
    pub fn get_strong_negative_window_list(&self) -> (r: Vec<i32>)
        ensures
            r@ == dates_in(self.data@, RegimeLabel::StrongNegative, medians_of(self.data@), false),
    {
        self.dates_in_regime(RegimeLabel::StrongNegative, self.medians(), false)
    }
}

/// The value at `k` of sorted values, zero where there is none.
fn pick(sorted: &Vec<u64>, k: usize) -> (r: u64)
    ensures
        r == (if k < sorted.len() {
            sorted@[k as int]
        } else {
            0
        }),
{
    if k < sorted.len() {
        sorted[k]
    } else {
        0
    }
}

fn tertile_label(r: u64, s: &GapSplits) -> (l: Option<RegimeLabel>)
    ensures
        l == tertile_regime(r, *s),
{
    if r > 1000 {
        if r > s.positive_upper {
            Some(RegimeLabel::StrongPositive)
        } else if r > s.positive_lower {
            Some(RegimeLabel::ModeratePositive)
        } else {
            Some(RegimeLabel::MildPositive)
        }
    } else if r < 1000 {
        if r < s.negative_lower {
            Some(RegimeLabel::StrongNegative)
        } else if r < s.negative_upper {
            Some(RegimeLabel::ModerateNegative)
        } else {
            Some(RegimeLabel::MildNegative)
        }
    } else {
        None
    }
}

fn median_label(r: u64, s: &GapSplits) -> (l: Option<RegimeLabel>)
    ensures
        l == median_regime(r, *s),
{
    if r > 1000 {
        if r > s.positive_upper {
            Some(RegimeLabel::StrongPositive)
        } else if r < s.positive_lower {
            Some(RegimeLabel::MildPositive)
        } else {
            None
        }
    } else if r < 1000 {
        if r < s.negative_lower {
            Some(RegimeLabel::StrongNegative)
        } else if r > s.negative_upper {
            Some(RegimeLabel::MildNegative)
        } else {
            None
        }
    } else {
        None
    }
}

/// The dates of each of four regimes, split at the medians.
#[derive(Clone, Debug)]
pub struct TopixDailyWindowList {
    strong_positive: Vec<i32>,
    mild_positive: Vec<i32>,
    mild_negative: Vec<i32>,
    strong_negative: Vec<i32>,
}

impl TopixDailyWindowList {
    pub closed spec fn dates_of(self, label: RegimeLabel) -> Seq<i32> {
        match label {
            RegimeLabel::StrongPositive => self.strong_positive@,
            RegimeLabel::MildPositive => self.mild_positive@,
            RegimeLabel::MildNegative => self.mild_negative@,
            RegimeLabel::StrongNegative => self.strong_negative@,
            _ => Seq::empty(),
        }
    }

    /// Splits the gaps at the medians of the positive and of the negative ratios.
    pub fn new(list: &BacktestingTopixList) -> (r: TopixDailyWindowList)
        ensures
            forall|l: RegimeLabel|
                #[trigger] r.dates_of(l) == (match l {
                    RegimeLabel::ModeratePositive | RegimeLabel::ModerateNegative => Seq::empty(),
                    _ => dates_in(list.data@, l, medians_of(list.data@), false),
                }),
    {
        let r = TopixDailyWindowList {
            strong_positive: list.get_strong_positive_window_list(),
            mild_positive: list.get_mild_positive_window_list(),
            mild_negative: list.get_mild_negative_window_list(),
            strong_negative: list.get_strong_negative_window_list(),
        };
        assert forall|l: RegimeLabel| #[trigger] r.dates_of(l) == (match l {
            RegimeLabel::ModeratePositive | RegimeLabel::ModerateNegative => Seq::empty(),
            _ => dates_in(list.data@, l, medians_of(list.data@), false),
        }) by {
            match l {
                RegimeLabel::ModeratePositive | RegimeLabel::ModerateNegative => {},
                _ => {},
            }
        }
        r
    }

    pub fn get_strong_positive(&self) -> (r: &Vec<i32>)
        ensures
            r@ == self.dates_of(RegimeLabel::StrongPositive),
    {
        &self.strong_positive
    }

    pub fn get_mild_positive(&self) -> (r: &Vec<i32>)
        ensures
            r@ == self.dates_of(RegimeLabel::MildPositive),
    {
        &self.mild_positive
    }

    pub fn get_mild_negative(&self) -> (r: &Vec<i32>)
        ensures
            r@ == self.dates_of(RegimeLabel::MildNegative),
    {
        &self.mild_negative
    }

    pub fn get_strong_negative(&self) -> (r: &Vec<i32>)
        ensures
            r@ == self.dates_of(RegimeLabel::StrongNegative),
    {
        &self.strong_negative
    }

    /// The same four regimes as six-regime lists, the moderate ones empty.
    pub fn as_six_regimes(&self) -> (r: TopixDailyWindowList2)
        ensures
            forall|l: RegimeLabel| #[trigger] r.dates_of(l) == self.dates_of(l),
    {
        let r = TopixDailyWindowList2::from_lists(
            self.strong_positive.clone(),
            Vec::new(),
            self.mild_positive.clone(),
            self.mild_negative.clone(),
            Vec::new(),
            self.strong_negative.clone(),
        );
        assert forall|l: RegimeLabel| #[trigger] r.dates_of(l) == self.dates_of(l) by {
            match l {
                RegimeLabel::StrongPositive => {},
                _ => {},
            }
        }
        r
    }
}

impl TopixDailyWindowList2 {
    /// Splits the gaps at the tertiles of the positive and of the negative ratios.
    pub fn new(list: &BacktestingTopixList) -> (r: TopixDailyWindowList2)
        ensures
            forall|l: RegimeLabel|
                #[trigger] r.dates_of(l) == dates_in(list.data@, l, tertiles_of(list.data@), true),
    {
        let (strong_positive, moderate_positive, mild_positive) = list.get_positive_window_list();
        let (strong_negative, moderate_negative, mild_negative) = list.get_negative_window_list();
        let r = TopixDailyWindowList2::from_lists(
            strong_positive,
            moderate_positive,
            mild_positive,
            mild_negative,
            moderate_negative,
            strong_negative,
        );
        assert forall|l: RegimeLabel| #[trigger]
            r.dates_of(l) == dates_in(list.data@, l, tertiles_of(list.data@), true) by {
            match l {
                RegimeLabel::StrongPositive => {},
                _ => {},
            }
        }
        r
    }
}

} // verus!

use vstd::prelude::*;

verus! {

/// The day number (days from the start of the common era) of a date written
/// `YYYY-MM-DD`, or `None` where the text names no such date.
pub uninterp spec fn day_number_of(s: Seq<char>) -> Option<i32>;

/// Relies on chrono's `NaiveDate::parse_from_str` with the format `%Y-%m-%d` and on
/// `Datelike::num_days_from_ce`: the result depends on the text alone.
#[verifier::external_body]
pub(crate) fn parse_day_number(s: &str) -> (r: Option<i32>)
    ensures
        r == day_number_of(s@),
{
    match chrono::NaiveDate::parse_from_str(s, "%Y-%m-%d") {
        Ok(d) => Some(chrono::Datelike::num_days_from_ce(&d)),
        Err(_) => None,
    }
}

/// The day number of a date written `YYYY-MM-DD`; `None` where the text names no date.
pub fn day_number(date: &str) -> (r: Option<i32>)
    ensures
        r == day_number_of(date@),
{
    parse_day_number(date)
}

/// One daily price bar. Prices are counted in ticks, the smallest price step of the
/// instrument; the date is a day number.
#[derive(Clone, Copy, Debug, PartialEq, Eq, Structural)]
pub struct Ohlc {
    pub date: i32,
    pub open: u32,
    pub high: u32,
    pub low: u32,
    pub close: u32,
}

impl Ohlc {
    /// A bar is well formed when open and close lie within `[low, high]`.
    pub open spec fn wf(self) -> bool {
        self.low <= self.open <= self.high && self.low <= self.close <= self.high
    }

    /// A bar on a given day number; `None` where open or close lies outside `[low, high]`.
    pub fn from_day_number(date: i32, open: u32, high: u32, low: u32, close: u32) -> (r: Option<
        Ohlc,
    >)
        ensures
            r == (if low <= open <= high && low <= close <= high {
                Some(Ohlc { date, open, high, low, close })
            } else {
                None
            }),
    {
        if low <= open && open <= high && low <= close && close <= high {
            Some(Ohlc { date, open, high, low, close })
        } else {
            None
        }
    }

    /// A bar whose date is written `YYYY-MM-DD`; `None` where the date does not parse
    /// or the prices are out of order.
    pub fn new(date: &str, open: u32, high: u32, low: u32, close: u32) -> (r: Option<Ohlc>)
        ensures
            r == (match day_number_of(date@) {
                Some(d) => if low <= open <= high && low <= close <= high {
                    Some(Ohlc { date: d, open, high, low, close })
                } else {
                    None
                },
                None => None,
            }),
    {
        match parse_day_number(date) {
            Some(d) => Ohlc::from_day_number(d, open, high, low, close),
            None => None,
        }
    }

    pub fn get_date(&self) -> (r: i32)
        ensures
            r == self.date,
    {
        self.date
    }

    pub fn get_open(&self) -> (r: u32)
        ensures
            r == self.open,
    {
        self.open
    }

    pub fn get_high(&self) -> (r: u32)
        ensures
            r == self.high,
    {
        self.high
    }

    pub fn get_low(&self) -> (r: u32)
        ensures
            r == self.low,
    {
        self.low
    }

    pub fn get_close(&self) -> (r: u32)
        ensures
            r == self.close,
    {
        self.close
    }
}

pub open spec fn all_wf(s: Seq<Ohlc>) -> bool {
    forall|i: int| 0 <= i < s.len() ==> #[trigger] s[i].wf()
}

/// The highest high of a run of bars (zero for no bars).
pub open spec fn max_high(s: Seq<Ohlc>) -> int
    decreases s.len(),
{
    if s.len() == 0 {
        0
    } else if s.len() == 1 {
        s[0].high as int
    } else {
        let m = max_high(s.drop_last());
        if s.last().high > m {
            s.last().high as int
        } else {
            m
        }
    }
}

/// The lowest low of a run of bars (zero for no bars).
pub open spec fn min_low(s: Seq<Ohlc>) -> int
    decreases s.len(),
{
    if s.len() == 0 {
        0
    } else if s.len() == 1 {
        s[0].low as int
    } else {
        let m = min_low(s.drop_last());
        if s.last().low < m {
            s.last().low as int
        } else {
            m
        }
    }
}

/// The sum of the daily ranges `high - low` of a run of bars.
pub open spec fn sum_range(s: Seq<Ohlc>) -> int
    decreases s.len(),
{
    if s.len() == 0 {
        0
    } else {
        sum_range(s.drop_last()) + s.last().high - s.last().low
    }
}

pub proof fn lemma_max_high(s: Seq<Ohlc>)
    requires
        s.len() > 0,
    ensures
        forall|i: int| 0 <= i < s.len() ==> #[trigger] s[i].high <= max_high(s),
        exists|i: int| 0 <= i < s.len() && #[trigger] s[i].high == max_high(s),
    decreases s.len(),
{
    if s.len() > 1 {
        let t = s.drop_last();
        lemma_max_high(t);
        assert forall|i: int| 0 <= i < s.len() implies #[trigger] s[i].high <= max_high(s) by {
            if i < s.len() - 1 {
                assert(s[i] == t[i]);
            }
        }
        if s.last().high <= max_high(t) {
            let j = choose|j: int| 0 <= j < t.len() && #[trigger] t[j].high == max_high(t);
            assert(s[j] == t[j]);
            assert(s[j].high == max_high(s));
        } else {
            assert(s[s.len() - 1].high == max_high(s));
        }
    } else {
        assert(s[0].high == max_high(s));
    }
}

pub proof fn lemma_min_low(s: Seq<Ohlc>)
    requires
        s.len() > 0,
    ensures
        forall|i: int| 0 <= i < s.len() ==> min_low(s) <= #[trigger] s[i].low,
        exists|i: int| 0 <= i < s.len() && #[trigger] s[i].low == min_low(s),
    decreases s.len(),
{
    if s.len() > 1 {
        let t = s.drop_last();
        lemma_min_low(t);
        assert forall|i: int| 0 <= i < s.len() implies min_low(s) <= #[trigger] s[i].low by {
            if i < s.len() - 1 {
                assert(s[i] == t[i]);
            }
        }
        if s.last().low >= min_low(t) {
            let j = choose|j: int| 0 <= j < t.len() && #[trigger] t[j].low == min_low(t);
            assert(s[j] == t[j]);
            assert(s[j].low == min_low(s));
        } else {
            assert(s[s.len() - 1].low == min_low(s));
        }
    } else {
        assert(s[0].low == min_low(s));
    }
}

/// Each daily range is at most the range of the whole run, so their sum is at most
/// the number of bars times that range.
pub proof fn lemma_sum_range_bound(s: Seq<Ohlc>)
    requires
        s.len() > 0,
        all_wf(s),
    ensures
        0 <= sum_range(s) <= s.len() * (max_high(s) - min_low(s)),
    decreases s.len(),
{
    lemma_max_high(s);
    lemma_min_low(s);
    let n = s.len() as int;
    assert(s[n - 1].wf());
    if s.len() > 1 {
        let t = s.drop_last();
        assert(all_wf(t)) by {
            assert forall|i: int| 0 <= i < t.len() implies #[trigger] t[i].wf() by {
                assert(t[i] == s[i]);
            }
        }
        lemma_sum_range_bound(t);
        lemma_max_high(t);
        lemma_min_low(t);
        let j = choose|j: int| 0 <= j < t.len() && #[trigger] t[j].high == max_high(t);
        assert(t[j] == s[j]);
        let k = choose|k: int| 0 <= k < t.len() && #[trigger] t[k].low == min_low(t);
        assert(t[k] == s[k]);
        assert(max_high(t) - min_low(t) <= max_high(s) - min_low(s));
        vstd::arithmetic::mul::lemma_mul_inequality(
            max_high(t) - min_low(t),
            max_high(s) - min_low(s),
            n - 1,
        );
        assert((n - 1) * (max_high(s) - min_low(s)) + (max_high(s) - min_low(s)) == n * (
        max_high(s) - min_low(s))) by (nonlinear_arith);
        assert(sum_range(s) == sum_range(t) + s[n - 1].high - s[n - 1].low);
        assert(s[n - 1].high - s[n - 1].low <= max_high(s) - min_low(s));
    } else {
        assert(sum_range(s.drop_last()) == 0);
        assert(sum_range(s) == s[0].high - s[0].low);
        assert(max_high(s) == s[0].high);
        assert(min_low(s) == s[0].low);
    }
}

/// Highest high and lowest low of `bars[lo..hi]`.
pub fn range_extremes(bars: &Vec<Ohlc>, lo: usize, hi: usize) -> (r: (u32, u32))
    requires
        lo < hi <= bars.len(),
    ensures
        r.0 == max_high(bars@.subrange(lo as int, hi as int)),
        r.1 == min_low(bars@.subrange(lo as int, hi as int)),
{
    let mut h: u32 = bars[lo].high;
    let mut l: u32 = bars[lo].low;
    let mut i: usize = lo + 1;
    assert(bars@.subrange(lo as int, lo + 1).drop_last() =~= Seq::<Ohlc>::empty());
    while i < hi
        invariant
            lo < i <= hi <= bars.len(),
            h == max_high(bars@.subrange(lo as int, i as int)),
            l == min_low(bars@.subrange(lo as int, i as int)),
        decreases hi - i,
    {
        assert(bars@.subrange(lo as int, i + 1).drop_last() =~= bars@.subrange(lo as int, i as int));
        if bars[i].high > h {
            h = bars[i].high;
        }
        if bars[i].low < l {
            l = bars[i].low;
        }
        i = i + 1;
    }
    (h, l)
}

} // verus!

use vstd::prelude::*;

use crate::bar::Ohlc;

verus! {

/// Whether two texts are the same.
pub fn same_text(a: &str, b: &str) -> (r: bool)
    ensures
        r == (a@ == b@),
{
    let x = a.to_owned();
    let y = b.to_owned();
    x == y
}

/// A currency pair traded on the FX venue.
#[derive(Clone, Copy, Debug, PartialEq, Eq, Structural)]
pub enum Symbol {
    UsdJpy,
    EurJpy,
    GbpJpy,
    AudJpy,
    EurUsd,
    GbpUsd,
    AudUsd,
}

impl Symbol {
    /// The venue's name of the pair.
    pub open spec fn name_of(self) -> Seq<char> {
        match self {
            Symbol::UsdJpy => "USD_JPY"@,
            Symbol::EurJpy => "EUR_JPY"@,
            Symbol::GbpJpy => "GBP_JPY"@,
            Symbol::AudJpy => "AUD_JPY"@,
            Symbol::EurUsd => "EUR_USD"@,
            Symbol::GbpUsd => "GBP_USD"@,
            Symbol::AudUsd => "AUD_USD"@,
        }
    }

    /// The venue's name of the pair, such as `USD_JPY`.
    pub fn name(&self) -> (r: &'static str)
        ensures
            r@ == self.name_of(),
    {
        match self {
            Symbol::UsdJpy => "USD_JPY",
            Symbol::EurJpy => "EUR_JPY",
            Symbol::GbpJpy => "GBP_JPY",
            Symbol::AudJpy => "AUD_JPY",
            Symbol::EurUsd => "EUR_USD",
            Symbol::GbpUsd => "GBP_USD",
            Symbol::AudUsd => "AUD_USD",
        }
    }

    /// The venue's name of the pair, owned.
    pub fn to_string(&self) -> (r: String)
        ensures
            r@ == self.name_of(),
    {
        self.name().to_owned()
    }

    /// The pair of a venue name; `None` for a name no pair has.
    pub fn from_name(s: &str) -> (r: Option<Symbol>)
        ensures
            r matches Some(x) ==> x.name_of() == s@,
            r is None ==> forall|x: Symbol| #[trigger] x.name_of() != s@,
    {
        let all = [
            Symbol::UsdJpy,
            Symbol::EurJpy,
            Symbol::GbpJpy,
            Symbol::AudJpy,
            Symbol::EurUsd,
            Symbol::GbpUsd,
            Symbol::AudUsd,
        ];
        let mut i: usize = 0;
        while i < 7
            invariant
                0 <= i <= 7,
                all@ == seq![
                    Symbol::UsdJpy,
                    Symbol::EurJpy,
                    Symbol::GbpJpy,
                    Symbol::AudJpy,
                    Symbol::EurUsd,
                    Symbol::GbpUsd,
                    Symbol::AudUsd,
                ],
                forall|j: int| 0 <= j < i ==> #[trigger] all@[j].name_of() != s@,
            decreases 7 - i,
        {
            let x = all[i];
            if same_text(x.name(), s) {
                return Some(x);
            }
            i = i + 1;
        }
        proof {
            assert forall|x: Symbol| #[trigger] x.name_of() != s@ by {
                match x {
                    Symbol::UsdJpy => assert(all@[0] == x),
                    Symbol::EurJpy => assert(all@[1] == x),
                    Symbol::GbpJpy => assert(all@[2] == x),
                    Symbol::AudJpy => assert(all@[3] == x),
                    Symbol::EurUsd => assert(all@[4] == x),
                    Symbol::GbpUsd => assert(all@[5] == x),
                    Symbol::AudUsd => assert(all@[6] == x),
                }
            }
        }
        None
    }

    /// Decimal places of one pip: two for yen pairs, four for dollar pairs.
    pub fn pip_decimals(&self) -> (r: u32)
        ensures
            r == (match self {
                Symbol::EurUsd | Symbol::GbpUsd | Symbol::AudUsd => 4u32,
                _ => 2u32,
            }),
    {
        match self {
            Symbol::EurUsd | Symbol::GbpUsd | Symbol::AudUsd => 4,
            _ => 2,
        }
    }
}

/// The side of a quote.
#[derive(Clone, Copy, Debug, PartialEq, Eq, Structural)]
pub enum PriceType {
    Bid,
    Ask,
}

impl PriceType {
    pub fn name(&self) -> (r: &'static str)
        ensures
            r@ == (match self {
                PriceType::Bid => "BID"@,
                PriceType::Ask => "ASK"@,
            }),
    {
        match self {
            PriceType::Bid => "BID",
            PriceType::Ask => "ASK",
        }
    }
}

/// The bar length of a quote series.
#[derive(Clone, Copy, Debug, PartialEq, Eq, Structural)]
pub enum Interval {
    M30,
    H1,
    D1,
}

impl Interval {
    pub fn name(&self) -> (r: &'static str)
        ensures
            r@ == (match self {
                Interval::M30 => "30min"@,
                Interval::H1 => "1hour"@,
                Interval::D1 => "1day"@,
            }),
    {
        match self {
            Interval::M30 => "30min",
            Interval::H1 => "1hour",
            Interval::D1 => "1day",
        }
    }
}

/// Where a price series comes from.
#[derive(Clone, Copy, Debug, PartialEq, Eq, Structural)]
pub enum OhlcSource {
    Jquants,
    GmoCoinFx(Symbol),
}

/// The trend of a longer series.
#[derive(Clone, Copy, Debug, PartialEq, Eq, Structural)]
pub enum BullBear {
    Bull,
    Bear,
    NoTrend,
}

/// The side of an open position.
#[derive(Clone, Copy, Debug, PartialEq, Eq, Structural)]
pub enum LongOrShort {
    Long,
    Short,
}

/// The kind of asset a stored series holds.
#[derive(Clone, Debug)]
pub enum AssetType {
    Stocks { code: Option<String> },
    Fx { symbol: Option<String> },
}

/// The kind of daily report.
#[derive(Clone, Copy, Debug, PartialEq, Eq, Structural)]
pub enum JquantsStyle {
    Afternoon,
    Resistance,
}

/// One day of the exchange calendar: its date and holiday division (`1` for a
/// trading day).
#[derive(Clone, Debug)]
pub struct TradingCalenderInner {
    pub date: String,
    pub holiday_division: String,
}

/// The exchange calendar.
#[derive(Clone, Debug)]
pub struct TradingCalender {
    pub trading_calendar: Vec<TradingCalenderInner>,
}

impl TradingCalender {
    /// Whether the calendar lists `date` with holiday division `1`.
    pub fn is_date_trading_day(&self, date: &str) -> (r: bool)
        ensures
            r == exists|i: int|
                0 <= i < self.trading_calendar@.len() && #[trigger] self.trading_calendar@[i].date@
                    == date@ && self.trading_calendar@[i].holiday_division@ == "1"@,
    {
        let mut i: usize = 0;
        while i < self.trading_calendar.len()
            invariant
                0 <= i <= self.trading_calendar.len(),
                forall|j: int|
                    0 <= j < i ==> !(#[trigger] self.trading_calendar@[j].date@ == date@
                        && self.trading_calendar@[j].holiday_division@ == "1"@),
            decreases self.trading_calendar.len() - i,
        {
            let day = &self.trading_calendar[i];
            if same_text(day.date.as_str(), date) && same_text(day.holiday_division.as_str(), "1") {
                return true;
            }
            i = i + 1;
        }
        false
    }
}

/// A calendar date given as year, month and day.
#[derive(Clone, Copy, Debug, PartialEq, Eq, Structural)]
pub struct SelectDate {
    year: i32,
    month: u32,
    day: u32,
}

impl SelectDate {
    pub fn new(year: i32, month: u32, day: u32) -> (r: SelectDate)
        ensures
            r.get_year_spec() == year,
            r.get_month_spec() == month,
            r.get_day_spec() == day,
    {
        SelectDate { year, month, day }
    }

    pub closed spec fn get_year_spec(self) -> i32 {
        self.year
    }

    pub closed spec fn get_month_spec(self) -> u32 {
        self.month
    }

    pub closed spec fn get_day_spec(self) -> u32 {
        self.day
    }

    pub fn get_year(&self) -> (r: i32)
        ensures
            r == self.get_year_spec(),
    {
        self.year
    }

    pub fn get_month(&self) -> (r: u32)
        ensures
            r == self.get_month_spec(),
    {
        self.month
    }

    pub fn get_day(&self) -> (r: u32)
        ensures
            r == self.get_day_spec(),
    {
        self.day
    }
}

/// One member of the stock index roster.
#[derive(Clone, Debug)]
pub struct Nikkei225 {
    pub code: String,
    pub name: String,
    pub category: String,
}

impl Nikkei225 {
    pub fn get_code(&self) -> (r: &str)
        ensures
            r@ == self.code@,
    {
        self.code.as_str()
    }

    pub fn get_name(&self) -> (r: &str)
        ensures
            r@ == self.name@,
    {
        self.name.as_str()
    }
}

/// A stored row of the price table.
#[derive(Clone, Debug)]
pub struct StocksOhlc {
    pub id: i32,
    pub created_at: String,
    pub inner: Ohlc,
}

impl StocksOhlc {
    pub fn get_inner(self) -> (r: Ohlc)
        ensures
            r == self.inner,
    {
        self.inner
    }
}

} // verus!

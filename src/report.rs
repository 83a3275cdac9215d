use vstd::prelude::*;
use vstd::string::StringExecFns;

verus! {

/// The characters of `n` in decimal.
pub open spec fn decimal_of(n: nat) -> Seq<char>
    decreases n,
{
    if n < 10 {
        seq![digit_char(n)]
    } else {
        decimal_of(n / 10).push(digit_char(n % 10))
    }
}

pub open spec fn digit_char(d: nat) -> char {
    if d == 0 {
        '0'
    } else if d == 1 {
        '1'
    } else if d == 2 {
        '2'
    } else if d == 3 {
        '3'
    } else if d == 4 {
        '4'
    } else if d == 5 {
        '5'
    } else if d == 6 {
        '6'
    } else if d == 7 {
        '7'
    } else if d == 8 {
        '8'
    } else {
        '9'
    }
}

fn digit_text(d: u64) -> (r: &'static str)
    requires
        d < 10,
    ensures
        r@ == seq![digit_char(d as nat)],
{
    proof {
        reveal_strlit("0");
        reveal_strlit("1");
        reveal_strlit("2");
        reveal_strlit("3");
        reveal_strlit("4");
        reveal_strlit("5");
        reveal_strlit("6");
        reveal_strlit("7");
        reveal_strlit("8");
        reveal_strlit("9");
    }
    if d == 0 {
        "0"
    } else if d == 1 {
        "1"
    } else if d == 2 {
        "2"
    } else if d == 3 {
        "3"
    } else if d == 4 {
        "4"
    } else if d == 5 {
        "5"
    } else if d == 6 {
        "6"
    } else if d == 7 {
        "7"
    } else if d == 8 {
        "8"
    } else {
        "9"
    }
}

/// `n` written in decimal.
pub fn decimal(n: u128) -> (r: String)
    ensures
        r@ == decimal_of(n as nat),
    decreases n,
{
    if n < 10 {
        digit_text(n as u64).to_owned()
    } else {
        let mut s = decimal(n / 10);
        s.append(digit_text((n % 10) as u64));
        s
    }
}

/// The HTML rendering of a markdown text, soft line breaks rendered as hard ones.
pub uninterp spec fn html_of(markdown: Seq<char>) -> Seq<char>;

/// Relies on pulldown-cmark's `Parser::new` and `html::push_html`: the rendering of the
/// text, with each soft break event passed on as a hard break.
#[verifier::external_body]
fn render_html(text: &str) -> (r: String)
    ensures
        r@ == html_of(text@),
{
    let parser = pulldown_cmark::Parser::new(text).map(
        |event| match event {
            pulldown_cmark::Event::SoftBreak => pulldown_cmark::Event::HardBreak,
            _ => event,
        },
    );
    let mut out = String::new();
    pulldown_cmark::html::push_html(&mut out, parser);
    out
}

/// A markdown document built line by line.
pub struct Markdown {
    buffer: String,
}

impl View for Markdown {
    type V = Seq<char>;

    closed spec fn view(&self) -> Seq<char> {
        self.buffer@
    }
}

impl Markdown {
    pub fn new() -> (r: Markdown)
        ensures
            r@ == Seq::<char>::empty(),
    {
        Markdown { buffer: String::new() }
    }

    fn line(&mut self, prefix: &str, text: &str)
        ensures
            final(self)@ == old(self)@ + prefix@ + text@ + seq!['\n'],
    {
        proof {
            reveal_strlit("\n");
        }
        self.buffer.append(prefix);
        self.buffer.append(text);
        self.buffer.append("\n");
    }

    /// Appends a first-level heading line.
    pub fn h1(&mut self, text: &str)
        ensures
            final(self)@ == old(self)@ + seq!['#', ' '] + text@ + seq!['\n'],
    {
        proof {
            reveal_strlit("# ");
        }
        self.line("# ", text);
    }

    /// Appends a second-level heading line.
    pub fn h2(&mut self, text: &str)
        ensures
            final(self)@ == old(self)@ + seq!['#', '#', ' '] + text@ + seq!['\n'],
    {
        proof {
            reveal_strlit("## ");
        }
        self.line("## ", text);
    }

    /// Appends a third-level heading line.
    pub fn h3(&mut self, text: &str)
        ensures
            final(self)@ == old(self)@ + seq!['#', '#', '#', ' '] + text@ + seq!['\n'],
    {
        proof {
            reveal_strlit("### ");
        }
        self.line("### ", text);
    }

    /// Appends a line of text.
    pub fn body(&mut self, text: &str)
        ensures
            final(self)@ == old(self)@ + text@ + seq!['\n'],
    {
        proof {
            reveal_strlit("");
        }
        self.line("", text);
        assert(old(self)@ + ""@ =~= old(self)@);
    }

    /// The text so far.
    pub fn buffer(&self) -> (r: &str)
        ensures
            r@ == self@,
    {
        self.buffer.as_str()
    }

    /// The text rendered as HTML.
    pub fn to_html(&self) -> (r: String)
        ensures
            r@ == html_of(self@),
    {
        render_html(self.buffer.as_str())
    }
}

/// How many stocks broke out long and short on a date.
pub struct EntryLongOrShort {
    pub date: String,
    pub long_count: usize,
    pub short_count: usize,
}

impl EntryLongOrShort {
    pub fn new(date: &str, long_count: usize, short_count: usize) -> (r: EntryLongOrShort)
        ensures
            r.date@ == date@,
            r.long_count == long_count,
            r.short_count == short_count,
    {
        EntryLongOrShort { date: date.to_owned(), long_count, short_count }
    }

    /// The summary `\nDate: <date>\nLong: <long>, Short: <short>`.
    pub fn output_entry_long_or_short(&self) -> (r: String)
        ensures
            r@ == seq!['\n'] + "Date: "@ + self.date@ + seq!['\n'] + "Long: "@ + decimal_of(
                self.long_count as nat,
            ) + ", Short: "@ + decimal_of(self.short_count as nat),
    {
        proof {
            reveal_strlit("\n");
        }
        let mut s = "\n".to_owned();
        s.append("Date: ");
        s.append(self.date.as_str());
        s.append("\n");
        s.append("Long: ");
        let long = decimal(self.long_count as u128);
        s.append(long.as_str());
        s.append(", Short: ");
        let short = decimal(self.short_count as u128);
        s.append(short.as_str());
        s
    }
}

/// The day's entry summary and the long and short stock listings.
pub struct Output {
    pub entry_long_or_short: EntryLongOrShort,
    pub long_stocks: String,
    pub short_stocks: String,
}

impl Output {
    pub fn get_entry_long_or_short(&self) -> (r: String)
        ensures
            r@ == seq!['\n'] + "Date: "@ + self.entry_long_or_short.date@ + seq!['\n'] + "Long: "@
                + decimal_of(self.entry_long_or_short.long_count as nat) + ", Short: "@
                + decimal_of(self.entry_long_or_short.short_count as nat),
    {
        self.entry_long_or_short.output_entry_long_or_short()
    }

    pub fn get_long_stocks(&self) -> (r: &str)
        ensures
            r@ == self.long_stocks@,
    {
        self.long_stocks.as_str()
    }

    pub fn get_short_stocks(&self) -> (r: &str)
        ensures
            r@ == self.short_stocks@,
    {
        self.short_stocks.as_str()
    }
}

} // verus!

verus! {

/// A stored breakout of the live analysis. Orders are in hundredths of a tick, range
/// diffs in thousandths.
#[derive(Clone, Debug)]
pub struct Stock {
    pub code: i32,
    pub name: String,
    pub long_or_short: String,
    pub stop_loss_order: Option<u64>,
    pub units: Option<u64>,
    pub daily_diff: Option<u32>,
    pub monthly_diff: Option<u32>,
    pub analyzed_at: String,
}

/// How many stocks of `s` are on side `side`.
pub open spec fn count_side(s: Seq<Stock>, side: Seq<char>) -> nat
    decreases s.len(),
{
    if s.len() == 0 {
        0
    } else {
        count_side(s.drop_last(), side) + if s.last().long_or_short@ == side {
            1nat
        } else {
            0nat
        }
    }
}

/// The breakouts of one day.
#[derive(Clone, Debug)]
pub struct StockList {
    pub stocks: Vec<Stock>,
}

impl StockList {
    fn count_side_of(&self, side: &str) -> (r: usize)
        ensures
            r == count_side(self.stocks@, side@),
    {
        let mut n: usize = 0;
        let mut i: usize = 0;
        while i < self.stocks.len()
            invariant
                0 <= i <= self.stocks.len(),
                n == count_side(self.stocks@.subrange(0, i as int), side@),
                n <= i,
            decreases self.stocks.len() - i,
        {
            assert(self.stocks@.subrange(0, i + 1).drop_last() =~= self.stocks@.subrange(0, i as int));
            if crate::market::same_text(self.stocks[i].long_or_short.as_str(), side) {
                n = n + 1;
            }
            i = i + 1;
        }
        assert(self.stocks@.subrange(0, self.stocks.len() as int) =~= self.stocks@);
        n
    }

    /// How many stocks broke out long.
    pub fn count_long_stocks(&self) -> (r: usize)
        ensures
            r == count_side(self.stocks@, "Long"@),
    {
        self.count_side_of("Long")
    }

    /// How many stocks broke out short.
    pub fn count_short_stocks(&self) -> (r: usize)
        ensures
            r == count_side(self.stocks@, "Short"@),
    {
        self.count_side_of("Short")
    }

    /// The day's entry summary: the long and short counts.
    pub fn determine_entry_long_or_short(&self, date: &str) -> (r: EntryLongOrShort)
        ensures
            r.date@ == date@,
            r.long_count == count_side(self.stocks@, "Long"@),
            r.short_count == count_side(self.stocks@, "Short"@),
    {
        EntryLongOrShort::new(date, self.count_long_stocks(), self.count_short_stocks())
    }
}

} // verus!

verus! {

pub open spec fn pow10(p: nat) -> nat
    decreases p,
{
    if p == 0 {
        1
    } else {
        10 * pow10((p - 1) as nat)
    }
}

/// The last `p` decimal digits of `f`, zeros in front.
pub open spec fn padded_digits(f: nat, p: nat) -> Seq<char>
    decreases p,
{
    if p == 0 {
        Seq::empty()
    } else {
        padded_digits(f / 10, (p - 1) as nat).push(digit_char(f % 10))
    }
}

/// The `p` decimal places of a fraction `f` (of `10^p`), trailing zeros dropped.
pub open spec fn fraction_digits(f: nat, p: nat) -> Seq<char>
    decreases p,
{
    if f > 0 && p > 0 && f % 10 == 0 {
        fraction_digits(f / 10, (p - 1) as nat)
    } else {
        padded_digits(f, p)
    }
}

/// `v / 10^p` written in decimal as a float prints: a sign where negative, the whole
/// part, and the places that are not trailing zeros.
pub open spec fn fixed_text_of(v: int, p: nat) -> Seq<char> {
    let a = if v < 0 {
        -v
    } else {
        v
    } as nat;
    let whole = a / pow10(p);
    let frac = a % pow10(p);
    (if v < 0 {
        seq!['-']
    } else {
        Seq::empty()
    }) + decimal_of(whole) + if frac == 0 {
        Seq::empty()
    } else {
        seq!['.'] + fraction_digits(frac, p)
    }
}

fn padded(f: u128, p: u32) -> (r: String)
    ensures
        r@ == padded_digits(f as nat, p as nat),
    decreases p,
{
    if p == 0 {
        String::new()
    } else {
        let mut s = padded(f / 10, p - 1);
        s.append(digit_text((f % 10) as u64));
        s
    }
}

fn fraction(f: u128, p: u32) -> (r: String)
    ensures
        r@ == fraction_digits(f as nat, p as nat),
    decreases p,
{
    if f > 0 && p > 0 && f % 10 == 0 {
        fraction(f / 10, p - 1)
    } else {
        padded(f, p)
    }
}

/// `v / 10^places` written in decimal, as a float prints it.
pub fn fixed_text(v: i128, places: u32) -> (r: String)
    requires
        v > i128::MIN,
        places <= 30,
    ensures
        r@ == fixed_text_of(v as int, places as nat),
{
    let a: u128 = if v < 0 {
        (-v) as u128
    } else {
        v as u128
    };
    let mut scale: u128 = 1;
    let mut k: u32 = 0;
    proof {
        reveal_with_fuel(pow10, 31);
        assert(pow10(30) == 1_000_000_000_000_000_000_000_000_000_000);
        lemma_pow10_monotone(0, 30);
    }
    while k < places
        invariant
            0 <= k <= places <= 30,
            scale == pow10(k as nat),
            scale <= pow10(30),
            pow10(30) == 1_000_000_000_000_000_000_000_000_000_000,
        decreases places - k,
    {
        proof {
            assert(pow10((k + 1) as nat) == 10 * pow10(k as nat));
            lemma_pow10_monotone((k + 1) as nat, 30);
        }
        scale = scale * 10;
        k = k + 1;
    }
    proof {
        lemma_pow10_monotone(0, places as nat);
    }
    let whole = a / scale;
    let frac = a % scale;
    let mut s = if v < 0 {
        "-".to_owned()
    } else {
        String::new()
    };
    proof {
        reveal_strlit("-");
        reveal_strlit(".");
        vstd::arithmetic::div_mod::lemma_div_is_ordered_by_denominator(a as int, 1, scale as int);
    }
    let w = decimal(whole);
    s.append(w.as_str());
    if frac != 0 {
        s.append(".");
        let f = fraction(frac, places);
        s.append(f.as_str());
    }
    s
}

proof fn lemma_pow10_monotone(a: nat, b: nat)
    requires
        a <= b,
    ensures
        1 <= pow10(a) <= pow10(b),
    decreases b,
{
    if b > a {
        lemma_pow10_monotone(a, (b - 1) as nat);
    } else if a > 0 {
        lemma_pow10_monotone((a - 1) as nat, (a - 1) as nat);
    }
}

} // verus!

//! The front matter of a post, as the site generator reads it.
use vstd::prelude::*;

verus! {

/// A calendar date as TOML writes it (`2025-02-27`).
#[derive(Debug, Clone, Copy, PartialEq, Eq, Structural)]
pub struct PostDate {
    pub year: u16,
    pub month: u8,
    pub day: u8,
}

/// The `[extra]` table of the front matter.
#[derive(Debug)]
pub struct BlogPostConfigExtra {
    pub comments: bool,
    pub postid: String,
    pub miku_img: String,
    pub miku_q: String,
}

/// The whole front matter of a post.
#[derive(Debug)]
pub struct BlogPostConfig {
    pub title: String,
    pub date: PostDate,
    pub extra: BlogPostConfigExtra,
}

impl Default for BlogPostConfigExtra {
    fn default() -> (r: Self)
        ensures
            !r.comments,
            r.postid@ == Seq::<char>::empty(),
            r.miku_img@ == Seq::<char>::empty(),
            r.miku_q@ == Seq::<char>::empty(),
    {
        BlogPostConfigExtra {
            comments: false,
            postid: String::new(),
            miku_img: String::new(),
            miku_q: String::new(),
        }
    }
}

impl BlogPostConfigExtra {
    /// A copy of the table.
    pub fn duplicate(&self) -> (r: Self)
        ensures
            r == *self,
    {
        BlogPostConfigExtra {
            comments: self.comments,
            postid: self.postid.clone(),
            miku_img: self.miku_img.clone(),
            miku_q: self.miku_q.clone(),
        }
    }
}

impl BlogPostConfig {
    /// A copy of the front matter.
    pub fn duplicate(&self) -> (r: Self)
        ensures
            r == *self,
    {
        BlogPostConfig { title: self.title.clone(), date: self.date, extra: self.extra.duplicate() }
    }
}

/// Dates are ordered by year, then month, then day (as TOML's `Date` orders them).
pub open spec fn date_lt(a: PostDate, b: PostDate) -> bool {
    ||| a.year < b.year
    ||| a.year == b.year && a.month < b.month
    ||| a.year == b.year && a.month == b.month && a.day < b.day
}

/// A date as one number that grows with the calendar: the year counts most, then the
/// month, then the day (months and days stay below 256).
pub open spec fn calendar_number(d: PostDate) -> int {
    d.year as int * 65536 + d.month as int * 256 + d.day as int
}

/// Dates are in calendar order: one date is before another exactly when its calendar
/// number is smaller. So an earlier year is earlier whatever the month and day, and
/// within a year an earlier month is earlier whatever the day.
pub proof fn lemma_date_order_is_calendar_order(a: PostDate, b: PostDate)
    ensures
        date_lt(a, b) <==> calendar_number(a) < calendar_number(b),
        a.year < b.year ==> date_lt(a, b),
        a.year == b.year && a.month < b.month ==> date_lt(a, b),
        a.year == b.year && a.month == b.month ==> (date_lt(a, b) <==> a.day < b.day),
        date_lt(a, b) ==> !date_lt(b, a),
        a != b ==> date_lt(a, b) || date_lt(b, a),
{
}

/// `a` comes strictly before `b`.
pub fn date_before(a: &PostDate, b: &PostDate) -> (r: bool)
    ensures
        r == date_lt(*a, *b),
{
    a.year < b.year || (a.year == b.year && a.month < b.month) || (a.year == b.year && a.month
        == b.month && a.day < b.day)
}

/// The decimal digit for `d < 10`.
pub open spec fn digit_char(d: nat) -> char {
    if d == 0 {
        '0'
    } else if d == 1 {
        '1'
    } else if d == 2 {
        '2'
    } else if d == 3 {
        '3'
    } else if d == 4 {
        '4'
    } else if d == 5 {
        '5'
    } else if d == 6 {
        '6'
    } else if d == 7 {
        '7'
    } else if d == 8 {
        '8'
    } else {
        '9'
    }
}

/// The decimal digits of `n`, without leading zeros.
pub open spec fn decimal(n: nat) -> Seq<char>
    decreases n,
{
    if n < 10 {
        seq![digit_char(n)]
    } else {
        decimal(n / 10).push(digit_char(n % 10))
    }
}

/// `n` in decimal, left-padded with zeros to at least `width` digits (`{:0width}`).
pub open spec fn zero_padded(n: nat, width: nat) -> Seq<char> {
    let d = decimal(n);
    if d.len() < width {
        Seq::new((width - d.len()) as nat, |i: int| '0') + d
    } else {
        d
    }
}

/// A date as TOML writes it: `YYYY-MM-DD`.
pub open spec fn date_text(d: PostDate) -> Seq<char> {
    zero_padded(d.year as nat, 4) + seq!['-'] + zero_padded(d.month as nat, 2) + seq!['-']
        + zero_padded(d.day as nat, 2)
}

/// Writes a date with `toml::value::Date`'s `Display`, which formats it as
/// `{:04}-{:02}-{:02}` (year, month, day).
#[verifier::external_body]
pub(crate) fn format_date(d: &PostDate) -> (s: String)
    ensures
        s@ == date_text(*d),
{
    toml::value::Date { year: d.year, month: d.month, day: d.day }.to_string()
}

} // verus!

use chrono::{Datelike, NaiveDate};
use vstd::arithmetic::div_mod::{
    lemma_fundamental_div_mod, lemma_fundamental_div_mod_converse, lemma_mod_bound,
};
use vstd::prelude::*;

verus! {

/// Earliest year that a calendar date may have.
pub const MIN_YEAR: i32 = -262143;

/// Latest year that a calendar date may have.
pub const MAX_YEAR: i32 = 262142;

pub open spec fn is_leap_year(y: int) -> bool {
    (y % 4 == 0 && y % 100 != 0) || y % 400 == 0
}

pub open spec fn days_in_month(y: int, m: int) -> int {
    if m == 2 {
        if is_leap_year(y) { 29 } else { 28 }
    } else if m == 4 || m == 6 || m == 9 || m == 11 {
        30
    } else {
        31
    }
}

pub open spec fn is_valid_ymd(y: int, m: int, d: int) -> bool {
    MIN_YEAR <= y <= MAX_YEAR && 1 <= m <= 12 && 1 <= d <= days_in_month(y, m)
}

/// Number of days in the years before `y`, counting from 0001-01-01
/// (negative for earlier years).
pub open spec fn days_before_year(y: int) -> int {
    365 * (y - 1) + (y - 1) / 4 - (y - 1) / 100 + (y - 1) / 400
}

/// Number of days in the months of year `y` before month `m`.
pub open spec fn days_before_month(y: int, m: int) -> int {
    let base: int = if m <= 1 {
        0
    } else if m == 2 {
        31
    } else if m == 3 {
        59
    } else if m == 4 {
        90
    } else if m == 5 {
        120
    } else if m == 6 {
        151
    } else if m == 7 {
        181
    } else if m == 8 {
        212
    } else if m == 9 {
        243
    } else if m == 10 {
        273
    } else if m == 11 {
        304
    } else {
        334
    };
    if m > 2 && is_leap_year(y) {
        base + 1
    } else {
        base
    }
}

/// Days from 0001-01-01 (a Monday, day 0) to the given date.
pub open spec fn day_number(y: int, m: int, d: int) -> int {
    days_before_year(y) + days_before_month(y, m) + d - 1
}

/// A date of the proleptic Gregorian calendar.
#[derive(Clone, Copy, Debug, PartialEq, Eq, Structural)]
pub struct CivilDate {
    pub year: i32,
    pub month: u32,
    pub day: u32,
}

impl CivilDate {
    pub open spec fn wf(&self) -> bool {
        is_valid_ymd(self.year as int, self.month as int, self.day as int)
    }

    pub open spec fn number(&self) -> int {
        day_number(self.year as int, self.month as int, self.day as int)
    }

    pub open spec fn is_last_supported(&self) -> bool {
        self.year == MAX_YEAR && self.month == 12 && self.day == 31
    }

    /// The day after this one.
    pub open spec fn next(&self) -> CivilDate {
        if (self.day as int) < days_in_month(self.year as int, self.month as int) {
            CivilDate { year: self.year, month: self.month, day: (self.day + 1) as u32 }
        } else if self.month < 12 {
            CivilDate { year: self.year, month: (self.month + 1) as u32, day: 1 }
        } else {
            CivilDate { year: (self.year + 1) as i32, month: 1, day: 1 }
        }
    }

    /// Lexicographic order on (year, month, day).
    pub open spec fn precedes(&self, other: CivilDate) -> bool {
        self.year < other.year || (self.year == other.year && (self.month < other.month || (
        self.month == other.month && self.day < other.day)))
    }

    /// Day of the week, 0 for Monday up to 6 for Sunday.
    pub open spec fn weekday_index(&self) -> int {
        self.number() % 7
    }

    pub open spec fn from_triple(t: (int, int, int)) -> CivilDate {
        CivilDate { year: t.0 as i32, month: t.1 as u32, day: t.2 as u32 }
    }

    /// The date with the given year, month and day, where it exists.
    pub fn new(year: i32, month: u32, day: u32) -> (r: Option<CivilDate>)
        ensures
            is_valid_ymd(year as int, month as int, day as int) ==> r == Some(
                CivilDate { year, month, day },
            ),
            !is_valid_ymd(year as int, month as int, day as int) ==> r is None,
    {
        if year < MIN_YEAR || year > MAX_YEAR || month < 1 || month > 12 || day < 1 {
            return None;
        }
        if day > month_length(year, month) {
            None
        } else {
            Some(CivilDate { year, month, day })
        }
    }
}

proof fn lemma_days_before_year_step(y: int)
    ensures
        days_before_year(y + 1) == days_before_year(y) + 365 + (if is_leap_year(y) {
            1int
        } else {
            0int
        }),
{
    lemma_div_step(y, 4);
    lemma_div_step(y, 100);
    lemma_div_step(y, 400);
    lemma_divides_coarser(y, 100, 4, 25);
    lemma_divides_coarser(y, 400, 100, 4);
}

proof fn lemma_div_step(y: int, k: int)
    requires
        k > 0,
    ensures
        y / k - (y - 1) / k == (if y % k == 0 { 1int } else { 0int }),
{
    let q = (y - 1) / k;
    let r = (y - 1) % k;
    lemma_fundamental_div_mod(y - 1, k);
    lemma_mod_bound(y - 1, k);
    assert(k * q == q * k) by (nonlinear_arith);
    if r + 1 < k {
        lemma_fundamental_div_mod_converse(y, k, q, r + 1);
    } else {
        assert((q + 1) * k == q * k + k) by (nonlinear_arith);
        lemma_fundamental_div_mod_converse(y, k, q + 1, 0);
    }
}

proof fn lemma_divides_coarser(y: int, big: int, small: int, f: int)
    requires
        big == small * f,
        small > 0,
        big > 0,
    ensures
        y % big == 0 ==> y % small == 0,
{
    if y % big == 0 {
        lemma_fundamental_div_mod(y, big);
        let q = y / big;
        assert(y == (q * f) * small) by (nonlinear_arith)
            requires
                y == big * q,
                big == small * f,
        ;
        lemma_fundamental_div_mod_converse(y, small, q * f, 0);
    }
}

proof fn lemma_days_before_year_grows(a: int, b: int)
    requires
        a < b,
    ensures
        days_before_year(a) + 365 <= days_before_year(b),
    decreases b - a,
{
    lemma_days_before_year_step(a);
    if a + 1 < b {
        lemma_days_before_year_step(a + 1);
        lemma_days_before_year_grows(a + 1, b);
    }
}

/// Every date lies inside its year: after the days of the earlier months
/// and before the first day of the following year.
proof fn lemma_within_year(d: CivilDate)
    requires
        d.wf(),
    ensures
        days_before_year(d.year as int) <= d.number(),
        d.number() < days_before_year(d.year + 1),
{
    lemma_days_before_year_step(d.year as int);
}

proof fn lemma_months_ordered(y: int, m1: int, d1: int, m2: int, d2: int)
    requires
        1 <= m1 < m2 <= 12,
        1 <= d1 <= days_in_month(y, m1),
        1 <= d2,
    ensures
        days_before_month(y, m1) + d1 < days_before_month(y, m2) + d2,
{
}

/// Later dates have larger day numbers.
pub proof fn lemma_number_increases(a: CivilDate, b: CivilDate)
    requires
        a.wf(),
        b.wf(),
        a.precedes(b),
    ensures
        a.number() < b.number(),
{
    if a.year < b.year {
        lemma_within_year(a);
        lemma_within_year(b);
        if a.year + 1 < b.year {
            lemma_days_before_year_grows(a.year + 1, b.year as int);
        }
    } else if a.month < b.month {
        lemma_months_ordered(a.year as int, a.month as int, a.day as int, b.month as int, b.day as int);
    }
}

/// Two dates with the same day number are the same date.
pub proof fn lemma_number_injective(a: CivilDate, b: CivilDate)
    requires
        a.wf(),
        b.wf(),
        a.number() == b.number(),
    ensures
        a == b,
{
    if a.precedes(b) {
        lemma_number_increases(a, b);
    } else if b.precedes(a) {
        lemma_number_increases(b, a);
    }
}

/// The day after a date is a date one day number later.
pub proof fn lemma_next_day(d: CivilDate)
    requires
        d.wf(),
        !d.is_last_supported(),
    ensures
        d.next().wf(),
        d.next().number() == d.number() + 1,
        d.precedes(d.next()),
{
    if d.day as int == days_in_month(d.year as int, d.month as int) && d.month == 12 {
        lemma_days_before_year_step(d.year as int);
    }
}

/// No valid date comes after the last supported one.
pub proof fn lemma_last_supported_is_latest(d: CivilDate, e: CivilDate)
    requires
        d.wf(),
        e.wf(),
        d.is_last_supported(),
    ensures
        e.number() <= d.number(),
{
    if e.precedes(d) {
        lemma_number_increases(e, d);
    }
}

pub fn is_leap(y: i32) -> (r: bool)
    ensures
        r == is_leap_year(y as int),
{
    (y % 4 == 0 && y % 100 != 0) || y % 400 == 0
}

pub fn month_length(y: i32, m: u32) -> (r: u32)
    requires
        1 <= m <= 12,
    ensures
        r as int == days_in_month(y as int, m as int),
{
    if m == 2 {
        if is_leap(y) {
            29
        } else {
            28
        }
    } else if m == 4 || m == 6 || m == 9 || m == 11 {
        30
    } else {
        31
    }
}

/// What chrono's `NaiveDate::parse_from_str` makes of a text under a
/// format: year, month and day, or nothing.
pub uninterp spec fn parsed_date(s: Seq<char>, fmt: Seq<char>) -> Option<(int, int, int)>;

/// Relies on chrono's `NaiveDate::parse_from_str`: the outcome depends on the
/// text and the format alone, and a date it yields lies in chrono's range.
#[verifier::external_body]
pub(crate) fn parse_date(s: &str, fmt: &str) -> (r: Option<CivilDate>)
    ensures
        r matches Some(d) ==> d.wf() && parsed_date(s@, fmt@) == Some(
            (d.year as int, d.month as int, d.day as int),
        ),
        r is None ==> parsed_date(s@, fmt@) is None,
{
    match NaiveDate::parse_from_str(s, fmt) {
        Ok(d) => Some(CivilDate { year: d.year(), month: d.month(), day: d.day() }),
        Err(_) => None,
    }
}

/// Relies on chrono's `NaiveDate::signed_duration_since` (read out with
/// `TimeDelta::num_days`): the signed number of days from `from` to `to`.
#[verifier::external_body]
pub(crate) fn days_from_to(from: CivilDate, to: CivilDate) -> (r: i64)
    requires
        from.wf(),
        to.wf(),
    ensures
        r as int == to.number() - from.number(),
{
    let a = NaiveDate::from_ymd_opt(from.year, from.month, from.day).unwrap();
    let b = NaiveDate::from_ymd_opt(to.year, to.month, to.day).unwrap();
    b.signed_duration_since(a).num_days()
}

/// Relies on chrono's `NaiveDate::succ_opt`: the following calendar day.
#[verifier::external_body]
pub(crate) fn following_day(d: CivilDate) -> (r: CivilDate)
    requires
        d.wf(),
        !d.is_last_supported(),
    ensures
        r == d.next(),
{
    let n = NaiveDate::from_ymd_opt(d.year, d.month, d.day).unwrap().succ_opt().unwrap();
    CivilDate { year: n.year(), month: n.month(), day: n.day() }
}

/// Relies on chrono's `Datelike::weekday` (read out with
/// `Weekday::num_days_from_monday`): 0 for Monday up to 6 for Sunday.
#[verifier::external_body]
pub(crate) fn weekday_from_monday(d: CivilDate) -> (r: u32)
    requires
        d.wf(),
    ensures
        r as int == d.weekday_index(),
{
    NaiveDate::from_ymd_opt(d.year, d.month, d.day).unwrap().weekday().num_days_from_monday()
}

pub open spec fn month_name_text(m: int) -> Seq<char> {
    if m == 1 {
        "January"@
    } else if m == 2 {
        "February"@
    } else if m == 3 {
        "March"@
    } else if m == 4 {
        "April"@
    } else if m == 5 {
        "May"@
    } else if m == 6 {
        "June"@
    } else if m == 7 {
        "July"@
    } else if m == 8 {
        "August"@
    } else if m == 9 {
        "September"@
    } else if m == 10 {
        "October"@
    } else if m == 11 {
        "November"@
    } else {
        "December"@
    }
}

/// Relies on chrono's `Month::name` (the month taken from its number with
/// `Month::try_from`): the English name of the month.
#[verifier::external_body]
pub(crate) fn month_name(m: u32) -> (r: &'static str)
    requires
        1 <= m <= 12,
    ensures
        r@ == month_name_text(m as int),
{
    chrono::Month::try_from(m as u8).unwrap().name()
}

/// What chrono's `NaiveDate::format` writes for a date under a format.
pub uninterp spec fn formatted_date(y: int, m: int, d: int, fmt: Seq<char>) -> Seq<char>;

pub open spec fn digit_char(n: int) -> char {
    ('0' as int + n) as char
}

/// `n` written with exactly `width` decimal digits, zeros in front.
pub open spec fn padded_digits(n: int, width: nat) -> Seq<char>
    decreases width,
{
    if width == 0 {
        Seq::empty()
    } else {
        padded_digits(n / 10, (width - 1) as nat).push(digit_char(n % 10))
    }
}

/// `DD.MM.YYYY`, for a year of at most four digits.
pub open spec fn dotted_date_text(y: int, m: int, d: int) -> Seq<char> {
    padded_digits(d, 2) + seq!['.'] + padded_digits(m, 2) + seq!['.'] + padded_digits(y, 4)
}

/// Relies on chrono's `NaiveDate::format` (written out with `to_string`):
/// the text depends on the date and the format alone; under `%d.%m.%Y` a
/// year from 0 to 9999 gives zero-padded day, month and four-digit year.
#[verifier::external_body]
pub(crate) fn format_date(d: CivilDate, fmt: &str) -> (r: String)
    requires
        d.wf(),
        fmt@ == "%d.%m.%Y"@,
    ensures
        r@ == formatted_date(d.year as int, d.month as int, d.day as int, fmt@),
        0 <= d.year <= 9999 ==> r@ == dotted_date_text(
            d.year as int,
            d.month as int,
            d.day as int,
        ),
{
    NaiveDate::from_ymd_opt(d.year, d.month, d.day).unwrap().format(fmt).to_string()
}

} // verus!

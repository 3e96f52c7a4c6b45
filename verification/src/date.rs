//! Calendar dates.
//!
//! A [`Date`] is a day of the proleptic Gregorian calendar, kept as plain numbers. What
//! days exist, how many lie between two of them, how one is written and which one it is
//! today come from `chrono`.

use chrono::Datelike;
use vstd::prelude::*;

use crate::decimal::{all_digits, decimal, digit, lemma_padded_digits, padded, pow10, value};

verus! {

/// A year, a month and a day of the month.
pub struct Civil {
    pub year: int,
    pub month: int,
    pub day: int,
}

/// Every fourth year is a leap year, except every hundredth, except every four hundredth.
pub open spec fn is_leap(year: int) -> bool {
    year % 4 == 0 && (year % 100 != 0 || year % 400 == 0)
}

/// The number of days of a month.
pub open spec fn month_days(year: int, month: int) -> int {
    if month == 2 {
        if is_leap(year) {
            29
        } else {
            28
        }
    } else if month == 4 || month == 6 || month == 9 || month == 11 {
        30
    } else {
        31
    }
}

/// Is this a day of the calendar, in a year that a date can hold?
pub open spec fn exists_in_calendar(c: Civil) -> bool {
    -262143 <= c.year <= 262142 && 1 <= c.month <= 12 && 1 <= c.day <= month_days(c.year, c.month)
}

/// The days of the months before `month`, in that year.
pub open spec fn days_before_month(year: int, month: int) -> int
    decreases month,
{
    if month <= 1 {
        0
    } else {
        days_before_month(year, month - 1) + month_days(year, month - 1)
    }
}

/// The number of a day, counted from the first of January of year 1, which is day 1.
pub open spec fn day_number(c: Civil) -> int {
    let y = c.year - 1;
    365 * y + y / 4 - y / 100 + y / 400 + days_before_month(c.year, c.month) + c.day
}

/// Does `a` lie before `b`?
pub open spec fn earlier(a: Civil, b: Civil) -> bool {
    a.year < b.year || (a.year == b.year && (a.month < b.month || (a.month == b.month && a.day < b.day)))
}

/// A day as `YYYY-MM-DD`. A year outside 0 to 9999 is written with its sign and at least
/// four digits.
pub open spec fn civil_text(c: Civil) -> Seq<char> {
    let year = if 0 <= c.year <= 9999 {
        padded(c.year as nat, 4)
    } else if c.year < 0 {
        seq!['-'] + if c.year > -1000 {
            padded((-c.year) as nat, 4)
        } else {
            decimal((-c.year) as nat)
        }
    } else {
        seq!['+'] + decimal(c.year as nat)
    };
    year + seq!['-'] + padded(c.month as nat, 2) + seq!['-'] + padded(c.day as nat, 2)
}

/// A calendar date.
#[derive(Debug, Clone, Copy, PartialEq, Eq, Structural)]
pub struct Date {
    year: i32,
    month: u32,
    day: u32,
}

impl View for Date {
    type V = Civil;

    closed spec fn view(&self) -> Civil {
        Civil { year: self.year as int, month: self.month as int, day: self.day as int }
    }
}

/// `chrono::NaiveDate::from_ymd_opt`: gives a date exactly for the days of the proleptic
/// Gregorian calendar in the years from -262143 to 262142.
#[verifier::external_body]
fn naive_date_exists(year: i32, month: u32, day: u32) -> (r: bool)
    ensures
        r == exists_in_calendar(Civil { year: year as int, month: month as int, day: day as int }),
{
    chrono::NaiveDate::from_ymd_opt(year, month, day).is_some()
}

/// `chrono::NaiveDate::signed_duration_since`, in whole days (`chrono::TimeDelta::num_days`):
/// the difference of the two day numbers.
#[verifier::external_body]
fn naive_days_since(date: Date, since: Date) -> (r: i64)
    requires
        exists_in_calendar(date@),
        exists_in_calendar(since@),
    ensures
        r == day_number(date@) - day_number(since@),
{
    let to = chrono::NaiveDate::from_ymd_opt(date.year, date.month, date.day).unwrap();
    let from = chrono::NaiveDate::from_ymd_opt(since.year, since.month, since.day).unwrap();
    to.signed_duration_since(from).num_days()
}

/// `chrono::NaiveDate`'s `to_string`: the date in the form of ISO 8601.
#[verifier::external_body]
fn naive_date_text(date: Date) -> (r: String)
    requires
        exists_in_calendar(date@),
    ensures
        r@ == civil_text(date@),
{
    chrono::NaiveDate::from_ymd_opt(date.year, date.month, date.day).unwrap().to_string()
}

/// `chrono::Local::now`, the local day of the current time: some day of the calendar.
#[verifier::external_body]
fn local_today() -> (r: (i32, u32, u32))
    ensures
        exists_in_calendar(Civil { year: r.0 as int, month: r.1 as int, day: r.2 as int }),
{
    let date = chrono::Local::now().date_naive();
    (date.year(), date.month(), date.day())
}

impl Date {
    #[verifier::type_invariant]
    spec fn in_calendar(self) -> bool {
        exists_in_calendar(self@)
    }

    /// The date with this year, month and day of the month, where there is such a day.
    pub fn from_ymd_opt(year: i32, month: u32, day: u32) -> (r: Option<Date>)
        ensures
            ({
                let c = Civil { year: year as int, month: month as int, day: day as int };
                match r {
                    Some(d) => d@ == c && exists_in_calendar(c),
                    None => !exists_in_calendar(c),
                }
            }),
    {
        if naive_date_exists(year, month, day) {
            Some(Date { year, month, day })
        } else {
            None
        }
    }

    /// The local date of the current time.
    pub fn today() -> (r: Date)
        ensures
            exists_in_calendar(r@),
    {
        let (year, month, day) = local_today();
        Date { year, month, day }
    }

    /// The year.
    pub fn year(&self) -> (r: i32)
        ensures
            r == self@.year,
            exists_in_calendar(self@),
    {
        proof {
            use_type_invariant(self);
        }
        self.year
    }

    /// The month, from 1 to 12.
    pub fn month(&self) -> (r: u32)
        ensures
            r == self@.month,
            exists_in_calendar(self@),
    {
        proof {
            use_type_invariant(self);
        }
        self.month
    }

    /// The day of the month, from 1.
    pub fn day(&self) -> (r: u32)
        ensures
            r == self@.day,
            exists_in_calendar(self@),
    {
        proof {
            use_type_invariant(self);
        }
        self.day
    }

    /// Does this date lie before `other`?
    pub fn is_before(&self, other: &Date) -> (r: bool)
        ensures
            r == earlier(self@, other@),
    {
        self.year < other.year || (self.year == other.year && (self.month < other.month || (self.month == other.month
            && self.day < other.day)))
    }

    /// The number of days from `since` to this date.
    pub fn days_since(self, since: Date) -> (r: i64)
        ensures
            r == day_number(self@) - day_number(since@),
    {
        proof {
            use_type_invariant(&self);
            use_type_invariant(&since);
        }
        naive_days_since(self, since)
    }

    /// The date as `YYYY-MM-DD`.
    pub fn to_string(&self) -> (r: String)
        ensures
            r@ == civil_text(self@),
    {
        proof {
            use_type_invariant(self);
        }
        naive_date_text(*self)
    }
}

proof fn lemma_days_before_month(year: int, a: int, b: int)
    requires
        1 <= a < b <= 12,
    ensures
        days_before_month(year, a) + month_days(year, a) <= days_before_month(year, b),
    decreases b - a,
{
    if a + 1 < b {
        lemma_days_before_month(year, a, b - 1);
    }
}

proof fn lemma_year_length(year: int)
    ensures
        days_before_month(year, 13) == if is_leap(year) {
            366int
        } else {
            365int
        },
        forall|m: int|
            1 <= m <= 12 ==> days_before_month(year, m) + #[trigger] month_days(year, m) <= days_before_month(year, 13),
{
    reveal_with_fuel(days_before_month, 14);
}

/// The leap days of the years up to `y`.
spec fn leap_days(y: int) -> int {
    y / 4 - y / 100 + y / 400
}

proof fn lemma_next_quotient(y: int, d: int)
    requires
        d > 1,
    ensures
        (y + 1) / d == y / d + if (y + 1) % d == 0 {
            1int
        } else {
            0int
        },
{
    let q = y / d;
    let r = y % d;
    vstd::arithmetic::div_mod::lemma_fundamental_div_mod(y, d);
    vstd::arithmetic::div_mod::lemma_mod_bound(y, d);
    if r + 1 == d {
        assert(y + 1 == d * (q + 1) + 0) by (nonlinear_arith)
            requires
                y == d * q + r,
                r + 1 == d,
        ;
        vstd::arithmetic::div_mod::lemma_fundamental_div_mod_converse(y + 1, d, q + 1, 0);
    } else {
        assert(y + 1 == d * q + (r + 1));
        vstd::arithmetic::div_mod::lemma_fundamental_div_mod_converse(y + 1, d, q, r + 1);
    }
}

proof fn lemma_multiple(y: int, a: int, b: int)
    requires
        a > 0,
        b > 0,
        y % (a * b) == 0,
    ensures
        y % a == 0,
{
    assert(a * b > 0) by (nonlinear_arith)
        requires
            a > 0,
            b > 0,
    ;
    let q = y / (a * b);
    vstd::arithmetic::div_mod::lemma_fundamental_div_mod(y, a * b);
    assert(y == a * (b * q) + 0) by (nonlinear_arith)
        requires
            y == (a * b) * q,
    ;
    vstd::arithmetic::div_mod::lemma_fundamental_div_mod_converse(y, a, b * q, 0);
}

proof fn lemma_leap_days_step(y: int)
    ensures
        leap_days(y + 1) == leap_days(y) + if is_leap(y + 1) {
            1int
        } else {
            0int
        },
{
    lemma_next_quotient(y, 4);
    lemma_next_quotient(y, 100);
    lemma_next_quotient(y, 400);
    if (y + 1) % 400 == 0 {
        lemma_multiple(y + 1, 100, 4);
    }
    if (y + 1) % 100 == 0 {
        lemma_multiple(y + 1, 4, 25);
    }
}

proof fn lemma_new_year(year: int, later: int)
    requires
        year < later,
    ensures
        365 * (year - 1) + leap_days(year - 1) + days_before_month(year, 13) <= 365 * (later - 1) + leap_days(later - 1),
    decreases later - year,
{
    lemma_year_length(year);
    lemma_leap_days_step(year - 1);
    if year + 1 < later {
        lemma_new_year(year + 1, later);
        lemma_year_length(year + 1);
    }
}

/// Day numbers order the days as the calendar does.
pub proof fn law_day_numbers_follow_the_calendar(a: Civil, b: Civil)
    requires
        exists_in_calendar(a),
        exists_in_calendar(b),
    ensures
        earlier(a, b) == (day_number(a) < day_number(b)),
        a == b <==> day_number(a) == day_number(b),
{
    if earlier(a, b) {
        lemma_earlier(a, b);
    } else if earlier(b, a) {
        lemma_earlier(b, a);
    }
}

proof fn lemma_earlier(a: Civil, b: Civil)
    requires
        exists_in_calendar(a),
        exists_in_calendar(b),
        earlier(a, b),
    ensures
        day_number(a) < day_number(b),
{
    if a.year < b.year {
        lemma_year_length(a.year);
        lemma_new_year(a.year, b.year);
        assert(days_before_month(a.year, a.month) + month_days(a.year, a.month) <= days_before_month(a.year, 13));
        assert(days_before_month(b.year, b.month) >= 0) by {
            if b.month > 1 {
                lemma_days_before_month(b.year, 1, b.month);
            }
        }
    } else if a.month < b.month {
        lemma_days_before_month(a.year, a.month, b.month);
    }
}

/// Days are counted one by one: the day after has the next number, within a month, from the last
/// day of a month to the first of the next one, and from the last of the year to the first of the
/// next one. Months have the lengths of the calendar, and every fourth year is a leap year, but
/// for three of four centuries.
pub proof fn law_days_are_counted_one_by_one(year: int, month: int, day: int)
    requires
        1 <= month <= 12,
    ensures
        day_number(Civil { year, month, day: day + 1 }) == day_number(Civil { year, month, day }) + 1,
        month < 12 ==> day_number(Civil { year, month: month + 1, day: 1 }) == day_number(
            Civil { year, month, day: month_days(year, month) },
        ) + 1,
        day_number(Civil { year: year + 1, month: 1, day: 1 }) == day_number(Civil { year, month: 12, day: 31 }) + 1,
        month_days(year, month) == if month == 2 {
            if year % 400 == 0 || (year % 4 == 0 && year % 100 != 0) {
                29int
            } else {
                28
            }
        } else if [4int, 6, 9, 11]@.contains(month) {
            30
        } else {
            31
        },
        day_number(Civil { year: 1, month: 1, day: 1 }) == 1,
{
    lemma_year_length(year);
    lemma_leap_days_step(year - 1);
    if year % 400 == 0 {
        lemma_multiple(year, 100, 4);
        lemma_multiple(year, 4, 100);
    }
    reveal_with_fuel(days_before_month, 14);
    let short = [4int, 6, 9, 11]@;
    assert(short[0] == 4 && short[1] == 6 && short[2] == 9 && short[3] == 11);
    if short.contains(month) {
        let k = choose|k: int| 0 <= k < short.len() && short[k] == month;
    }
}

/// A day is written as its year with four digits, its month and its day with two, and hyphens
/// between them.
pub proof fn law_dates_are_written_year_first(c: Civil)
    requires
        0 <= c.year <= 9999,
        1 <= c.month <= 12,
        1 <= c.day <= 31,
    ensures
        ({
            let t = civil_text(c);
            &&& t.len() == 10 && t[4] == '-' && t[7] == '-'
            &&& all_digits(t.subrange(0, 4)) && value(t.subrange(0, 4)) == c.year
            &&& all_digits(t.subrange(5, 7)) && value(t.subrange(5, 7)) == c.month
            &&& all_digits(t.subrange(8, 10)) && value(t.subrange(8, 10)) == c.day
        }),
{
    let t = civil_text(c);
    lemma_padded_digits(c.year as nat, 4);
    lemma_padded_digits(c.month as nat, 2);
    lemma_padded_digits(c.day as nat, 2);
    assert(t.subrange(0, 4) =~= padded(c.year as nat, 4));
    assert(t.subrange(5, 7) =~= padded(c.month as nat, 2));
    assert(t.subrange(8, 10) =~= padded(c.day as nat, 2));
    reveal_with_fuel(pow10, 6);
    assert(pow10(4) == 10000 && pow10(2) == 100);
    lemma_padded_value(c.year as nat, 4);
    lemma_padded_value(c.month as nat, 2);
    lemma_padded_value(c.day as nat, 2);
}

proof fn lemma_padded_value(n: nat, width: nat)
    requires
        n < pow10(width),
    ensures
        value(padded(n, width)) == n,
    decreases width,
{
    if width == 0 {
        assert(padded(n, 0).len() == 0);
    } else {
        let w = (width - 1) as nat;
        assert(pow10(width) == 10 * pow10(w));
        assert(n / 10 < pow10(w));
        lemma_padded_value(n / 10, w);
        lemma_padded_digits(n, width);
        let s = padded(n, width);
        assert(s.drop_last() =~= padded(n / 10, w));
        assert(s.last() == digit(n % 10));
    }
}

} // verus!

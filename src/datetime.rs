//! Calendar dates and wall-clock times on the proleptic Gregorian calendar.
use vstd::prelude::*;

verus! {

/// Smallest year a [`Date`] may hold.
pub const MIN_YEAR: i32 = 1;

/// Largest year a [`Date`] may hold.
pub const MAX_YEAR: i32 = 9999;

pub open spec fn is_leap(y: int) -> bool {
    (y % 4 == 0 && y % 100 != 0) || y % 400 == 0
}

pub open spec fn days_in_month(y: int, m: int) -> int {
    if m == 2 {
        if is_leap(y) { 29 } else { 28 }
    } else if m == 4 || m == 6 || m == 9 || m == 11 {
        30
    } else {
        31
    }
}

/// Days from 0001-01-01 to the first day of year `y`.
pub open spec fn days_before_year(y: int) -> int {
    365 * (y - 1) + (y - 1) / 4 - (y - 1) / 100 + (y - 1) / 400
}

/// Days from the first day of year `y` to the first day of month `m`.
pub open spec fn days_before_month(y: int, m: int) -> int
    decreases m,
{
    if m <= 1 {
        0
    } else {
        days_before_month(y, m - 1) + days_in_month(y, m - 1)
    }
}

/// A calendar date.
#[derive(Clone, Copy, Debug, PartialEq, Eq, Structural)]
pub struct Date {
    pub year: i32,
    pub month: u32,
    pub day: u32,
}

/// A wall-clock date and time, to the second.
#[derive(Clone, Copy, Debug, PartialEq, Eq, Structural)]
pub struct DateTime {
    pub date: Date,
    pub hour: u32,
    pub minute: u32,
    pub second: u32,
}

impl Date {
    pub open spec fn wf(self) -> bool {
        &&& MIN_YEAR <= self.year <= MAX_YEAR
        &&& 1 <= self.month <= 12
        &&& 1 <= self.day <= days_in_month(self.year as int, self.month as int)
    }

    /// Days since 0001-01-01 (which is day 0, a Monday).
    pub open spec fn day_number(self) -> int {
        days_before_year(self.year as int) + days_before_month(self.year as int, self.month as int)
            + self.day - 1
    }

    /// Day of the week counted from Monday (0) to Sunday (6).
    pub open spec fn weekday_spec(self) -> int {
        self.day_number() % 7
    }

    /// Chronological order: year, then month, then day.
    pub open spec fn le(self, other: Date) -> bool {
        self.year < other.year || (self.year == other.year && (self.month < other.month || (
        self.month == other.month && self.day <= other.day)))
    }

    pub open spec fn lt(self, other: Date) -> bool {
        self.le(other) && self != other
    }

    pub open spec fn succ_spec(self) -> Date {
        if self.day < days_in_month(self.year as int, self.month as int) {
            Date { day: (self.day + 1) as u32, ..self }
        } else if self.month < 12 {
            Date { year: self.year, month: (self.month + 1) as u32, day: 1 }
        } else {
            Date { year: (self.year + 1) as i32, month: 1, day: 1 }
        }
    }

    pub open spec fn pred_spec(self) -> Date {
        if self.day > 1 {
            Date { day: (self.day - 1) as u32, ..self }
        } else if self.month > 1 {
            Date {
                year: self.year,
                month: (self.month - 1) as u32,
                day: days_in_month(self.year as int, self.month - 1) as u32,
            }
        } else {
            Date { year: (self.year - 1) as i32, month: 12, day: 31 }
        }
    }

    pub open spec fn is_last(self) -> bool {
        self.year == MAX_YEAR && self.month == 12 && self.day == 31
    }

    pub open spec fn is_first(self) -> bool {
        self.year == MIN_YEAR && self.month == 1 && self.day == 1
    }
}

impl DateTime {
    pub open spec fn wf(self) -> bool {
        &&& self.date.wf()
        &&& self.hour < 24
        &&& self.minute < 60
        &&& self.second < 60
    }

    /// Seconds since 0001-01-01T00:00:00.
    pub open spec fn seconds(self) -> int {
        self.date.day_number() * 86400 + self.hour * 3600 + self.minute * 60 + self.second
    }

    pub open spec fn is_midnight(self) -> bool {
        self.hour == 0 && self.minute == 0 && self.second == 0
    }
}

proof fn lemma_div_step(y: int, k: int)
    requires
        k > 0,
    ensures
        y / k - (y - 1) / k == (if y % k == 0 { 1int } else { 0int }),
{
    vstd::arithmetic::div_mod::lemma_fundamental_div_mod(y, k);
    vstd::arithmetic::div_mod::lemma_fundamental_div_mod(y - 1, k);
    vstd::arithmetic::div_mod::lemma_mod_bound(y, k);
    vstd::arithmetic::div_mod::lemma_mod_bound(y - 1, k);
    let q = y / k;
    assert(q * k == k * q && (q - 1) * k == q * k - k) by (nonlinear_arith);
    if y % k == 0 {
        vstd::arithmetic::div_mod::lemma_fundamental_div_mod_converse(y - 1, k, y / k - 1, k - 1);
    } else {
        vstd::arithmetic::div_mod::lemma_fundamental_div_mod_converse(y - 1, k, y / k, y % k - 1);
    }
}

/// One year spans 365 days, one more in a leap year.
pub proof fn lemma_year_length(y: int)
    ensures
        days_before_year(y + 1) == days_before_year(y) + 365 + (if is_leap(y) { 1int } else { 0int }),
        days_before_month(y, 13) == 365 + (if is_leap(y) { 1int } else { 0int }),
{
    lemma_div_step(y, 4);
    lemma_div_step(y, 100);
    lemma_div_step(y, 400);
    assert(y % 400 == 0 ==> y % 100 == 0 && y % 4 == 0) by {
        vstd::arithmetic::div_mod::lemma_fundamental_div_mod(y, 400);
        vstd::arithmetic::div_mod::lemma_mod_bound(y, 400);
    }
    assert(y % 100 == 0 ==> y % 4 == 0) by {
        vstd::arithmetic::div_mod::lemma_fundamental_div_mod(y, 100);
        vstd::arithmetic::div_mod::lemma_mod_bound(y, 100);
    }
    reveal_with_fuel(days_before_month, 13);
}

proof fn lemma_days_before_month_bounds(y: int, m: int)
    requires
        1 <= m <= 13,
    ensures
        0 <= days_before_month(y, m) <= 31 * (m - 1),
    decreases m,
{
    if m > 1 {
        lemma_days_before_month_bounds(y, m - 1);
    }
}

/// Every representable date has a day number in a small non-negative range.
pub proof fn lemma_day_number_bounds(d: Date)
    requires
        d.wf(),
    ensures
        0 <= d.day_number() < 4_000_000,
{
    let x = d.year - 1;
    vstd::arithmetic::div_mod::lemma_fundamental_div_mod(x, 4);
    vstd::arithmetic::div_mod::lemma_fundamental_div_mod(x, 100);
    vstd::arithmetic::div_mod::lemma_fundamental_div_mod(x, 400);
    vstd::arithmetic::div_mod::lemma_mod_bound(x, 4);
    vstd::arithmetic::div_mod::lemma_mod_bound(x, 100);
    vstd::arithmetic::div_mod::lemma_mod_bound(x, 400);
    lemma_days_before_month_bounds(d.year as int, d.month as int);
}

proof fn lemma_days_before_month_grows(y: int, m1: int, m2: int)
    requires
        1 <= m1 < m2 <= 13,
    ensures
        days_before_month(y, m1) + days_in_month(y, m1) <= days_before_month(y, m2),
    decreases m2,
{
    if m2 > m1 + 1 {
        lemma_days_before_month_grows(y, m1, m2 - 1);
        assert(days_in_month(y, m2 - 1) >= 28);
    }
}

proof fn lemma_days_before_year_grows(y1: int, y2: int)
    requires
        y1 < y2,
    ensures
        days_before_year(y1) + days_before_month(y1, 13) <= days_before_year(y2),
    decreases y2 - y1,
{
    lemma_year_length(y1);
    if y2 > y1 + 1 {
        lemma_days_before_year_grows(y1 + 1, y2);
        lemma_year_length(y1 + 1);
    }
}

/// Day numbers follow the calendar order.
pub proof fn lemma_day_number_monotone(a: Date, b: Date)
    requires
        a.wf(),
        b.wf(),
        a.lt(b),
    ensures
        a.day_number() < b.day_number(),
{
    lemma_days_before_month_bounds(b.year as int, b.month as int);
    if a.year < b.year {
        lemma_days_before_month_grows(a.year as int, a.month as int, 13);
        lemma_days_before_year_grows(a.year as int, b.year as int);
    } else if a.month < b.month {
        lemma_days_before_month_grows(a.year as int, a.month as int, b.month as int);
    }
}

/// A representable date is determined by its day number.
pub proof fn lemma_day_number_injective(a: Date, b: Date)
    requires
        a.wf(),
        b.wf(),
        a.day_number() == b.day_number(),
    ensures
        a == b,
{
    if a != b {
        if a.le(b) {
            lemma_day_number_monotone(a, b);
        } else {
            lemma_day_number_monotone(b, a);
        }
    }
}

/// No representable date comes after the last one.
pub proof fn lemma_day_number_at_most_last(a: Date)
    requires
        a.wf(),
    ensures
        a.day_number() <= last_date().day_number(),
{
    if a != last_date() {
        lemma_day_number_monotone(a, last_date());
    }
}

/// Two days of the same weekday less than a week apart are the same day.
pub proof fn lemma_same_week_start(a: Date, b: Date, n: int)
    requires
        a.weekday_spec() == b.weekday_spec(),
        a.day_number() <= n < a.day_number() + 7,
        b.day_number() <= n < b.day_number() + 7,
    ensures
        a.day_number() == b.day_number(),
{
    vstd::arithmetic::div_mod::lemma_fundamental_div_mod(a.day_number(), 7);
    vstd::arithmetic::div_mod::lemma_fundamental_div_mod(b.day_number(), 7);
    vstd::arithmetic::div_mod::lemma_mod_bound(a.day_number(), 7);
    vstd::arithmetic::div_mod::lemma_mod_bound(b.day_number(), 7);
}

/// The day after a date is numbered one higher.
pub proof fn lemma_succ_day_number(d: Date)
    requires
        d.wf(),
    ensures
        d.succ_spec().day_number() == d.day_number() + 1,
        !d.is_last() ==> d.succ_spec().wf(),
{
    lemma_year_length(d.year as int);
}

/// The day before a date is numbered one lower.
pub proof fn lemma_pred_day_number(d: Date)
    requires
        d.wf(),
    ensures
        d.pred_spec().day_number() == d.day_number() - 1,
        !d.is_first() ==> d.pred_spec().wf(),
{
    lemma_year_length(d.year as int - 1);
}

pub fn is_leap_year(y: i32) -> (r: bool)
    requires
        MIN_YEAR <= y <= MAX_YEAR,
    ensures
        r == is_leap(y as int),
{
    (y % 4 == 0 && y % 100 != 0) || y % 400 == 0
}

pub fn month_length(y: i32, m: u32) -> (r: u32)
    requires
        MIN_YEAR <= y <= MAX_YEAR,
    ensures
        r == days_in_month(y as int, m as int),
{
    if m == 2 {
        if is_leap_year(y) {
            29
        } else {
            28
        }
    } else if m == 4 || m == 6 || m == 9 || m == 11 {
        30
    } else {
        31
    }
}

impl Date {
    /// Builds a date from its parts, or `None` when they name no day.
    pub fn from_ymd(year: i32, month: u32, day: u32) -> (r: Option<Date>)
        ensures
            r is Some <==> (Date { year, month, day }).wf(),
            r is Some ==> r->0 == (Date { year, month, day }),
    {
        if year < MIN_YEAR || year > MAX_YEAR || month < 1 || month > 12 {
            return None;
        }
        if day < 1 || day > month_length(year, month) {
            return None;
        }
        Some(Date { year, month, day })
    }

    /// The next day, or `None` on the last representable day.
    pub fn succ(self) -> (r: Option<Date>)
        requires
            self.wf(),
        ensures
            r is None <==> self.is_last(),
            r is Some ==> r->0 == self.succ_spec() && r->0.wf() && r->0.day_number()
                == self.day_number() + 1,
    {
        proof {
            lemma_succ_day_number(self);
        }
        if self.day < month_length(self.year, self.month) {
            Some(Date { day: self.day + 1, ..self })
        } else if self.month < 12 {
            Some(Date { year: self.year, month: self.month + 1, day: 1 })
        } else if self.year < MAX_YEAR {
            Some(Date { year: self.year + 1, month: 1, day: 1 })
        } else {
            None
        }
    }

    /// The previous day, or `None` on the first representable day.
    pub fn pred(self) -> (r: Option<Date>)
        requires
            self.wf(),
        ensures
            r is None <==> self.is_first(),
            r is Some ==> r->0 == self.pred_spec() && r->0.wf() && r->0.day_number()
                == self.day_number() - 1,
    {
        proof {
            lemma_pred_day_number(self);
        }
        if self.day > 1 {
            Some(Date { day: self.day - 1, ..self })
        } else if self.month > 1 {
            Some(
                Date {
                    year: self.year,
                    month: self.month - 1,
                    day: month_length(self.year, self.month - 1),
                },
            )
        } else if self.year > MIN_YEAR {
            Some(Date { year: self.year - 1, month: 12, day: 31 })
        } else {
            None
        }
    }
}


/// The last representable day.
pub open spec fn last_date() -> Date {
    Date { year: MAX_YEAR, month: 12, day: 31 }
}

/// The first day of the month after the one containing `d`.
pub open spec fn first_of_next_month(d: Date) -> Date {
    if d.month == 12 {
        Date { year: (d.year + 1) as i32, month: 1, day: 1 }
    } else {
        Date { year: d.year, month: (d.month + 1) as u32, day: 1 }
    }
}

/// The first day of the month before the one containing `d`.
pub open spec fn first_of_previous_month(d: Date) -> Date {
    if d.month == 1 {
        Date { year: (d.year - 1) as i32, month: 12, day: 1 }
    } else {
        Date { year: d.year, month: (d.month - 1) as u32, day: 1 }
    }
}

/// A month spans exactly its number of days.
pub proof fn lemma_month_span(d: Date)
    requires
        d.wf(),
    ensures
        first_of_next_month(d).day_number() - (Date { day: 1, ..d }).day_number() == days_in_month(
            d.year as int,
            d.month as int,
        ),
        28 <= days_in_month(d.year as int, d.month as int) <= 31,
{
    lemma_year_length(d.year as int);
    reveal_with_fuel(days_before_month, 2);
}

impl Date {
    /// Days since 0001-01-01.
    pub fn day_index(self) -> (r: u64)
        requires
            self.wf(),
        ensures
            r == self.day_number(),
    {
        let y: u64 = (self.year - 1) as u64;
        let mut acc: u64 = 0;
        let mut m: u32 = 1;
        while m < self.month
            invariant
                self.wf(),
                1 <= m <= self.month,
                acc == days_before_month(self.year as int, m as int),
                acc <= 31 * m,
            decreases self.month - m,
        {
            acc = acc + month_length(self.year, m) as u64;
            m = m + 1;
        }
        365 * y + y / 4 - y / 100 + y / 400 + acc + self.day as u64 - 1
    }

    /// Day of the week, Monday = 0 through Sunday = 6.
    pub fn weekday(self) -> (r: u32)
        requires
            self.wf(),
        ensures
            r == self.weekday_spec(),
            r < 7,
    {
        (self.day_index() % 7) as u32
    }

    /// The date `n` days later, or `None` when that passes the last representable day.
    pub fn add_days(self, n: u32) -> (r: Option<Date>)
        requires
            self.wf(),
        ensures
            r is Some ==> r->0.wf() && r->0.day_number() == self.day_number() + n,
            r is None ==> self.day_number() + n > last_date().day_number(),
    {
        let mut cur = self;
        let mut i: u32 = 0;
        while i < n
            invariant
                cur.wf(),
                i <= n,
                cur.day_number() == self.day_number() + i,
            decreases n - i,
        {
            match cur.succ() {
                Some(next) => {
                    cur = next;
                },
                None => {
                    return None;
                },
            }
            i = i + 1;
        }
        Some(cur)
    }

    /// The date `n` days earlier, or `None` when that passes the first representable day.
    pub fn sub_days(self, n: u32) -> (r: Option<Date>)
        requires
            self.wf(),
        ensures
            r is Some ==> r->0.wf() && r->0.day_number() == self.day_number() - n,
            r is None ==> self.day_number() - n < 0,
    {
        let mut cur = self;
        let mut i: u32 = 0;
        while i < n
            invariant
                cur.wf(),
                i <= n,
                cur.day_number() == self.day_number() - i,
            decreases n - i,
        {
            match cur.pred() {
                Some(prev) => {
                    cur = prev;
                },
                None => {
                    return None;
                },
            }
            i = i + 1;
        }
        Some(cur)
    }

    /// The latest date on or before this one that falls on `weekday`
    /// (Monday = 0 through Sunday = 6).
    pub fn week_start(self, weekday: u32) -> (r: Option<Date>)
        requires
            self.wf(),
            weekday < 7,
        ensures
            r is Some ==> {
                &&& r->0.wf()
                &&& r->0.weekday_spec() == weekday
                &&& r->0.day_number() <= self.day_number() < r->0.day_number() + 7
            },
            r is None ==> self.day_number() < 7,
            r is None ==> forall|s: Date|
                #![trigger s.weekday_spec()]
                s.wf() ==> !(s.weekday_spec() == weekday && s.day_number() <= self.day_number()
                    < s.day_number() + 7),
    {
        let wd = self.weekday();
        let back: u32 = (wd + 7 - weekday) % 7;
        let r = self.sub_days(back);
        proof {
            lemma_day_number_bounds(self);
            let n = self.day_number();
            assert((n - back) % 7 == weekday as int) by {
                vstd::arithmetic::div_mod::lemma_fundamental_div_mod(n, 7);
                vstd::arithmetic::div_mod::lemma_fundamental_div_mod(n - back, 7);
                vstd::arithmetic::div_mod::lemma_fundamental_div_mod_converse(
                    n - back,
                    7,
                    n / 7 - (if wd < weekday { 1int } else { 0int }),
                    weekday as int,
                );
            }
            if r is None {
                assert forall|s: Date|
                    #![trigger s.weekday_spec()]
                    s.wf() implies !(s.weekday_spec() == weekday && s.day_number()
                    <= self.day_number() < s.day_number() + 7) by {
                    if s.weekday_spec() == weekday && s.day_number() <= self.day_number()
                        < s.day_number() + 7 {
                        lemma_day_number_bounds(s);
                        vstd::arithmetic::div_mod::lemma_fundamental_div_mod(s.day_number(), 7);
                        vstd::arithmetic::div_mod::lemma_mod_bound(s.day_number(), 7);
                    }
                }
            }
        }
        r
    }

    /// The first day of this date's month.
    pub fn first_of_month(self) -> (r: Date)
        requires
            self.wf(),
        ensures
            r == (Date { day: 1, ..self }),
            r.wf(),
    {
        Date { day: 1, ..self }
    }

    /// The first day of the next month, or `None` past the last representable year.
    pub fn next_month_start(self) -> (r: Option<Date>)
        requires
            self.wf(),
        ensures
            r is None <==> (self.year == MAX_YEAR && self.month == 12),
            r is Some ==> r->0 == first_of_next_month(self) && r->0.wf(),
    {
        if self.month == 12 {
            if self.year == MAX_YEAR {
                None
            } else {
                Some(Date { year: self.year + 1, month: 1, day: 1 })
            }
        } else {
            Some(Date { year: self.year, month: self.month + 1, day: 1 })
        }
    }

    /// The first day of the previous month, or `None` before the first representable year.
    pub fn previous_month_start(self) -> (r: Option<Date>)
        requires
            self.wf(),
        ensures
            r is None <==> (self.year == MIN_YEAR && self.month == 1),
            r is Some ==> r->0 == first_of_previous_month(self) && r->0.wf(),
    {
        if self.month == 1 {
            if self.year == MIN_YEAR {
                None
            } else {
                Some(Date { year: self.year - 1, month: 12, day: 1 })
            }
        } else {
            Some(Date { year: self.year, month: self.month - 1, day: 1 })
        }
    }

    /// Chronological comparison.
    pub fn is_le(self, other: Date) -> (r: bool)
        ensures
            r == self.le(other),
    {
        self.year < other.year || (self.year == other.year && (self.month < other.month || (
        self.month == other.month && self.day <= other.day)))
    }
}

impl DateTime {
    /// Midnight at the start of `date`.
    pub fn midnight(date: Date) -> (r: DateTime)
        ensures
            r == (DateTime { date, hour: 0, minute: 0, second: 0 }),
    {
        DateTime { date, hour: 0, minute: 0, second: 0 }
    }

    /// Seconds since 0001-01-01T00:00:00.
    pub fn total_seconds(self) -> (r: u64)
        requires
            self.wf(),
        ensures
            r == self.seconds(),
    {
        proof {
            lemma_day_number_bounds(self.date);
        }
        self.date.day_index() * 86400 + self.hour as u64 * 3600 + self.minute as u64 * 60
            + self.second as u64
    }
}

} // verus!

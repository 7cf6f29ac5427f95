//! Reading timestamps, the clock and the local time zone through chrono.
use crate::datetime::{Date, DateTime};
use chrono::{Datelike, TimeZone, Timelike};
use vstd::prelude::*;

verus! {

/// The fields (year, month, day, hour, minute, second) that chrono reads from
/// a timestamp in the remote's `%Y-%m-%dT%H:%M:%S%.f` format.
pub uninterp spec fn chrono_fields(s: Seq<char>) -> Option<(i32, u32, u32, u32, u32, u32)>;

/// Relies on `chrono::NaiveDateTime::parse_from_str` with the format
/// `%Y-%m-%dT%H:%M:%S%.f` (fractional seconds optional): what it reads depends
/// on the text alone.
#[verifier::external_body]
fn naive_fields(s: &str) -> (r: Option<(i32, u32, u32, u32, u32, u32)>)
    ensures
        r == chrono_fields(s@),
{
    match chrono::NaiveDateTime::parse_from_str(s, "%Y-%m-%dT%H:%M:%S%.f") {
        Ok(t) => Some((t.year(), t.month(), t.day(), t.hour(), t.minute(), t.second())),
        Err(_) => None,
    }
}

pub open spec fn fields_to_date_time(t: (i32, u32, u32, u32, u32, u32)) -> DateTime {
    DateTime {
        date: Date { year: t.0, month: t.1, day: t.2 },
        hour: t.3,
        minute: t.4,
        second: t.5,
    }
}

pub open spec fn valid_fields(t: (i32, u32, u32, u32, u32, u32)) -> Option<DateTime> {
    if fields_to_date_time(t).wf() {
        Some(fields_to_date_time(t))
    } else {
        None
    }
}

/// The timestamp a text denotes, when chrono reads it and it lies in the
/// representable years.
pub open spec fn parsed(s: Seq<char>) -> Option<DateTime> {
    match chrono_fields(s) {
        Some(t) => valid_fields(t),
        None => None,
    }
}

fn checked_fields(t: (i32, u32, u32, u32, u32, u32)) -> (r: Option<DateTime>)
    ensures
        r == valid_fields(t),
{
    let (y, mo, d, h, mi, s) = t;
    match Date::from_ymd(y, mo, d) {
        Some(date) => {
            if h < 24 && mi < 60 && s < 60 {
                Some(DateTime { date, hour: h, minute: mi, second: s })
            } else {
                None
            }
        },
        None => None,
    }
}

/// Reads a remote timestamp such as `2025-03-14T10:00:00.0000000`.
pub fn parse_date_time(s: &str) -> (r: Option<DateTime>)
    ensures
        r == parsed(s@),
        r is Some ==> r->0.wf(),
{
    match naive_fields(s) {
        Some(t) => checked_fields(t),
        None => None,
    }
}

/// Relies on `chrono::Utc::now`: the current UTC wall-clock fields.
#[verifier::external_body]
fn utc_now_fields() -> (r: (i32, u32, u32, u32, u32, u32)) {
    let t = chrono::Utc::now().naive_utc();
    (t.year(), t.month(), t.day(), t.hour(), t.minute(), t.second())
}

/// Relies on `chrono::Local::now`: the current local wall-clock fields.
#[verifier::external_body]
fn local_now_fields() -> (r: (i32, u32, u32, u32, u32, u32)) {
    let t = chrono::Local::now().naive_local();
    (t.year(), t.month(), t.day(), t.hour(), t.minute(), t.second())
}

/// Relies on `chrono::Local::from_utc_datetime`: the local wall-clock fields
/// of a UTC instant, in the machine's time zone.
#[verifier::external_body]
fn local_fields_of_utc(t: DateTime) -> (r: (i32, u32, u32, u32, u32, u32))
    requires
        t.wf(),
{
    let d = chrono::NaiveDate::from_ymd_opt(t.date.year, t.date.month, t.date.day).unwrap();
    let n = d.and_hms_opt(t.hour, t.minute, t.second).unwrap();
    let l = chrono::Local.from_utc_datetime(&n).naive_local();
    (l.year(), l.month(), l.day(), l.hour(), l.minute(), l.second())
}

/// The current UTC time, when it lies in the representable years.
pub fn now_utc() -> (r: Option<DateTime>)
    ensures
        r is Some ==> r->0.wf(),
{
    checked_fields(utc_now_fields())
}

/// Today's local date, when it lies in the representable years.
pub fn local_today() -> (r: Option<Date>)
    ensures
        r is Some ==> r->0.wf(),
{
    match checked_fields(local_now_fields()) {
        Some(t) => Some(t.date),
        None => None,
    }
}

/// The local wall-clock time of a UTC instant; the instant itself when the
/// local time falls outside the representable years.
pub fn to_local(t: DateTime) -> (r: DateTime)
    requires
        t.wf(),
    ensures
        r.wf(),
{
    match checked_fields(local_fields_of_utc(t)) {
        Some(l) => l,
        None => t,
    }
}

} // verus!

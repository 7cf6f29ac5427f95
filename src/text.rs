//! Text helpers: zero-padded numbers, and the few text services taken from
//! std and outside crates.
use crate::datetime::{Date, DateTime};
use unicode_width::UnicodeWidthStr;
use vstd::prelude::*;
use vstd::string::StringExecFns;

verus! {

pub open spec fn digit_char(d: int) -> char {
    if d == 0 {
        '0'
    } else if d == 1 {
        '1'
    } else if d == 2 {
        '2'
    } else if d == 3 {
        '3'
    } else if d == 4 {
        '4'
    } else if d == 5 {
        '5'
    } else if d == 6 {
        '6'
    } else if d == 7 {
        '7'
    } else if d == 8 {
        '8'
    } else {
        '9'
    }
}

/// `n` written with exactly two digits.
pub open spec fn two_digits_spec(n: int) -> Seq<char> {
    seq![digit_char(n / 10), digit_char(n % 10)]
}

/// `n` written with exactly four digits.
pub open spec fn four_digits_spec(n: int) -> Seq<char> {
    seq![digit_char(n / 1000), digit_char((n / 100) % 10), digit_char((n / 10) % 10), digit_char(n % 10)]
}

/// `HH:MM`.
pub open spec fn hh_mm_spec(t: DateTime) -> Seq<char> {
    two_digits_spec(t.hour as int) + seq![':'] + two_digits_spec(t.minute as int)
}

/// `DD/MM`.
pub open spec fn dd_mm_spec(d: Date) -> Seq<char> {
    two_digits_spec(d.day as int) + seq!['/'] + two_digits_spec(d.month as int)
}

/// `DD/MM/YYYY`.
pub open spec fn dd_mm_yyyy_spec(d: Date) -> Seq<char> {
    dd_mm_spec(d) + seq!['/'] + four_digits_spec(d.year as int)
}

fn digit_str(d: u32) -> (r: &'static str)
    requires
        d < 10,
    ensures
        r@ == seq![digit_char(d as int)],
{
    proof {
        reveal_strlit("0");
        reveal_strlit("1");
        reveal_strlit("2");
        reveal_strlit("3");
        reveal_strlit("4");
        reveal_strlit("5");
        reveal_strlit("6");
        reveal_strlit("7");
        reveal_strlit("8");
        reveal_strlit("9");
    }
    match d {
        0 => "0",
        1 => "1",
        2 => "2",
        3 => "3",
        4 => "4",
        5 => "5",
        6 => "6",
        7 => "7",
        8 => "8",
        _ => "9",
    }
}

/// Appends `n` as two digits.
pub fn push_two_digits(s: &mut String, n: u32)
    requires
        n < 100,
    ensures
        final(s)@ == old(s)@ + two_digits_spec(n as int),
{
    s.append(digit_str(n / 10));
    s.append(digit_str(n % 10));
}

/// Appends `n` as four digits.
pub fn push_four_digits(s: &mut String, n: u32)
    requires
        n < 10000,
    ensures
        final(s)@ == old(s)@ + four_digits_spec(n as int),
{
    s.append(digit_str(n / 1000));
    s.append(digit_str((n / 100) % 10));
    s.append(digit_str((n / 10) % 10));
    s.append(digit_str(n % 10));
}

/// Appends `s2` to `s`.
pub fn push_str(s: &mut String, s2: &str)
    ensures
        final(s)@ == old(s)@ + s2@,
{
    s.append(s2);
}

/// Formats a time of day as `HH:MM`.
pub fn format_hh_mm(t: DateTime) -> (r: String)
    requires
        t.wf(),
    ensures
        r@ == hh_mm_spec(t),
{
    let mut s = String::new();
    push_two_digits(&mut s, t.hour);
    proof {
        reveal_strlit(":");
    }
    s.append(":");
    push_two_digits(&mut s, t.minute);
    s
}

/// Formats a date as `DD/MM`.
pub fn format_dd_mm(d: Date) -> (r: String)
    requires
        d.wf(),
    ensures
        r@ == dd_mm_spec(d),
{
    let mut s = String::new();
    push_two_digits(&mut s, d.day);
    proof {
        reveal_strlit("/");
    }
    s.append("/");
    push_two_digits(&mut s, d.month);
    s
}

/// Formats a date as `DD/MM/YYYY`.
pub fn format_dd_mm_yyyy(d: Date) -> (r: String)
    requires
        d.wf(),
    ensures
        r@ == dd_mm_yyyy_spec(d),
{
    let mut s = format_dd_mm(d);
    proof {
        reveal_strlit("/");
    }
    s.append("/");
    push_four_digits(&mut s, d.year as u32);
    s
}

/// `n` in decimal without leading zeros (for `n < 10000`).
pub open spec fn decimal_spec(n: int) -> Seq<char> {
    if n < 10 {
        seq![digit_char(n)]
    } else if n < 100 {
        two_digits_spec(n)
    } else if n < 1000 {
        seq![digit_char(n / 100)] + two_digits_spec(n % 100)
    } else {
        four_digits_spec(n)
    }
}

/// Appends `n` in decimal without leading zeros.
pub fn push_decimal(s: &mut String, n: u32)
    requires
        n < 10000,
    ensures
        final(s)@ == old(s)@ + decimal_spec(n as int),
{
    let ghost s0 = s@;
    if n < 10 {
        s.append(digit_str(n));
    } else if n < 100 {
        push_two_digits(s, n);
    } else if n < 1000 {
        s.append(digit_str(n / 100));
        push_two_digits(s, n % 100);
        assert(s@ =~= s0 + decimal_spec(n as int));
    } else {
        push_four_digits(s, n);
    }
}

/// What `str::to_lowercase` makes of a text.
pub uninterp spec fn lower_of(s: Seq<char>) -> Seq<char>;

/// Relies on `str::to_lowercase`: the result depends on the characters alone,
/// and an empty text stays empty.
#[verifier::external_body]
pub(crate) fn lowercase(s: &str) -> (r: String)
    ensures
        r@ == lower_of(s@),
        s@.len() == 0 ==> r@.len() == 0,
{
    s.to_lowercase()
}

/// Display width in terminal columns, as `unicode_width` computes it.
pub uninterp spec fn display_width(s: Seq<char>) -> nat;

/// Relies on `unicode_width::UnicodeWidthStr::width`: the column count depends
/// on the characters alone, and an empty text is zero columns wide.
#[verifier::external_body]
pub(crate) fn text_width(s: &str) -> (r: usize)
    ensures
        r == display_width(s@),
        s@.len() == 0 ==> r == 0,
{
    UnicodeWidthStr::width(s)
}

} // verus!

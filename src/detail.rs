//! The texts of the event-detail popup.
use crate::api::{Attendee, GraphEvent};
use crate::clock::{parse_date_time, parsed, to_local};
use crate::datetime::DateTime;
use crate::text::{dd_mm_yyyy_spec, format_dd_mm_yyyy, format_hh_mm, hh_mm_spec, push_str};
use vstd::prelude::*;
use vstd::string::StringExecFns;

verus! {

/// The plain text html2text renders from an HTML body at a column width
/// (`None` when it refuses, such as for a width too narrow).
pub uninterp spec fn html_text(html: Seq<char>, width: nat) -> Option<Seq<char>>;

/// Relies on `html2text::config::plain().string_from_read`: the rendering
/// depends on the markup and the width alone.
#[verifier::external_body]
fn html_to_text(html: &str, width: usize) -> (r: Option<String>)
    ensures
        match r {
            Some(t) => html_text(html@, width as nat) == Some(t@),
            None => html_text(html@, width as nat) is None,
        },
{
    match html2text::config::plain().string_from_read(html.as_bytes(), width) {
        Ok(t) => Some(t),
        Err(_) => None,
    }
}

/// The description shown for an event: `None` without a body, `None` as
/// text for an empty body, else the body rendered from HTML at `width`
/// columns (the raw body when it cannot be rendered).
pub fn description_text(e: &GraphEvent, width: usize) -> (r: Option<String>)
    ensures
        e.body is None <==> r is None,
        e.body matches Some(b) ==> r->0@ == if b.content@.len() == 0 {
            "None"@
        } else {
            match html_text(b.content@, width as nat) {
                Some(t) => t,
                None => b.content@,
            }
        },
{
    match &e.body {
        None => None,
        Some(b) => {
            if b.content.unicode_len() == 0 {
                Some(String::from_str("None"))
            } else {
                match html_to_text(b.content.as_str(), width) {
                    Some(t) => Some(t),
                    None => Some(b.content.clone()),
                }
            }
        },
    }
}

/// `DD/MM/YYYY HH:MM - HH:MM` from local start and end times.
pub open spec fn detail_time_spec(s: DateTime, e: DateTime) -> Seq<char> {
    dd_mm_yyyy_spec(s.date) + " "@ + hh_mm_spec(s) + " - "@ + hh_mm_spec(e)
}

/// The time line of the popup, in local time, or `Invalid time`.
pub fn detail_time_line(e: &GraphEvent) -> (r: String)
    ensures
        (parsed(e.start.date_time@) is None || parsed(e.end.date_time@) is None) ==> r@
            == "Invalid time"@,
        (parsed(e.start.date_time@) is Some && parsed(e.end.date_time@) is Some) ==> exists|
            ls: DateTime,
            le: DateTime,
        | r@ == detail_time_spec(ls, le),
{
    match (parse_date_time(e.start.date_time.as_str()), parse_date_time(e.end.date_time.as_str())) {
        (Some(s), Some(t)) => {
            let ls = to_local(s);
            let le = to_local(t);
            let mut r = format_dd_mm_yyyy(ls.date);
            push_str(&mut r, " ");
            push_str(&mut r, format_hh_mm(ls).as_str());
            push_str(&mut r, " - ");
            push_str(&mut r, format_hh_mm(le).as_str());
            assert(r@ =~= detail_time_spec(ls, le));
            r
        },
        _ => String::from_str("Invalid time"),
    }
}

/// The location line: its name, or `N/A`.
pub fn location_text(e: &GraphEvent) -> (r: String)
    ensures
        r@ == match e.location {
            Some(l) => l.display_name@,
            None => "N/A"@,
        },
{
    match &e.location {
        Some(l) => l.display_name.clone(),
        None => String::from_str("N/A"),
    }
}

/// The organizer line: `name <address>`, or `N/A`.
pub fn organizer_text(e: &GraphEvent) -> (r: String)
    ensures
        r@ == match e.organizer {
            Some(o) => o.email_address.name@ + " <"@ + o.email_address.address@ + ">"@,
            None => "N/A"@,
        },
{
    match &e.organizer {
        Some(o) => {
            let mut r = o.email_address.name.clone();
            push_str(&mut r, " <");
            push_str(&mut r, o.email_address.address.as_str());
            push_str(&mut r, ">");
            r
        },
        None => String::from_str("N/A"),
    }
}

/// An attendee's name, or `?` without an address record.
pub open spec fn attendee_name(a: Attendee) -> Seq<char> {
    match a.email_address {
        Some(e) => e.name@,
        None => "?"@,
    }
}

/// The names of the attendees joined by `, `.
pub open spec fn joined_names(s: Seq<Attendee>) -> Seq<char>
    decreases s.len(),
{
    if s.len() == 0 {
        seq![]
    } else if s.len() == 1 {
        attendee_name(s[0])
    } else {
        joined_names(s.drop_last()) + ", "@ + attendee_name(s.last())
    }
}

/// The attendee line: the names joined by `, `, or `None`.
pub fn attendees_text(e: &GraphEvent) -> (r: String)
    ensures
        r@ == if e.attendees@.len() == 0 {
            "None"@
        } else {
            joined_names(e.attendees@)
        },
{
    if e.attendees.len() == 0 {
        return String::from_str("None");
    }
    let mut r = String::new();
    let mut i: usize = 0;
    while i < e.attendees.len()
        invariant
            i <= e.attendees@.len(),
            r@ == joined_names(e.attendees@.subrange(0, i as int)),
        decreases e.attendees@.len() - i,
    {
        if i > 0 {
            push_str(&mut r, ", ");
        }
        match &e.attendees[i].email_address {
            Some(a) => push_str(&mut r, a.name.as_str()),
            None => push_str(&mut r, "?"),
        }
        proof {
            let sub = e.attendees@.subrange(0, i + 1);
            assert(sub.drop_last() =~= e.attendees@.subrange(0, i as int));
            assert(sub.last() == e.attendees@[i as int]);
            if i == 0 {
                assert(sub.len() == 1 && sub[0] == e.attendees@[0]);
                assert(r@ =~= attendee_name(e.attendees@[0]));
            }
        }
        i = i + 1;
    }
    proof {
        assert(e.attendees@.subrange(0, i as int) =~= e.attendees@);
    }
    r
}

} // verus!

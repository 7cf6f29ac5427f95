//! The texts the renderer draws: footer title, tab labels and event lines.
use crate::app::{App, ColorEvent, CurrentView, EventViewMode, MY_CALENDARS_ID};
use crate::clock::{parse_date_time, to_local};
use crate::config::str_eq;
use crate::datetime::{Date, DateTime};
use crate::text::{
    decimal_spec, dd_mm_spec, format_dd_mm, format_hh_mm, four_digits_spec, hh_mm_spec, push_decimal,
    push_four_digits, push_str, push_two_digits, two_digits_spec,
};
use vstd::prelude::*;
use vstd::string::StringExecFns;

verus! {

pub open spec fn month_name(m: int) -> Seq<char> {
    if m == 1 {
        "January"@
    } else if m == 2 {
        "February"@
    } else if m == 3 {
        "March"@
    } else if m == 4 {
        "April"@
    } else if m == 5 {
        "May"@
    } else if m == 6 {
        "June"@
    } else if m == 7 {
        "July"@
    } else if m == 8 {
        "August"@
    } else if m == 9 {
        "September"@
    } else if m == 10 {
        "October"@
    } else if m == 11 {
        "November"@
    } else {
        "December"@
    }
}

/// The full English name of month `m` (1 to 12).
pub fn month_name_of(m: u32) -> (r: &'static str)
    ensures
        r@ == month_name(m as int),
{
    if m == 1 {
        "January"
    } else if m == 2 {
        "February"
    } else if m == 3 {
        "March"
    } else if m == 4 {
        "April"
    } else if m == 5 {
        "May"
    } else if m == 6 {
        "June"
    } else if m == 7 {
        "July"
    } else if m == 8 {
        "August"
    } else if m == 9 {
        "September"
    } else if m == 10 {
        "October"
    } else if m == 11 {
        "November"
    } else {
        "December"
    }
}

pub open spec fn weekday_abbrev(w: int) -> Seq<char> {
    if w == 0 {
        "Mon"@
    } else if w == 1 {
        "Tue"@
    } else if w == 2 {
        "Wed"@
    } else if w == 3 {
        "Thu"@
    } else if w == 4 {
        "Fri"@
    } else if w == 5 {
        "Sat"@
    } else {
        "Sun"@
    }
}

/// The three-letter English name of weekday `w` (Monday = 0).
pub fn weekday_abbrev_of(w: u32) -> (r: &'static str)
    ensures
        r@ == weekday_abbrev(w as int),
{
    if w == 0 {
        "Mon"
    } else if w == 1 {
        "Tue"
    } else if w == 2 {
        "Wed"
    } else if w == 3 {
        "Thu"
    } else if w == 4 {
        "Fri"
    } else if w == 5 {
        "Sat"
    } else {
        "Sun"
    }
}

/// The first three letters of a month's name.
pub open spec fn month_abbrev(m: int) -> Seq<char> {
    month_name(m).subrange(0, 3)
}

fn month_abbrev_of(m: u32) -> (r: &'static str)
    ensures
        r@ == month_abbrev(m as int),
{
    proof {
        reveal_strlit("January");
        reveal_strlit("February");
        reveal_strlit("March");
        reveal_strlit("April");
        reveal_strlit("May");
        reveal_strlit("June");
        reveal_strlit("July");
        reveal_strlit("August");
        reveal_strlit("September");
        reveal_strlit("October");
        reveal_strlit("November");
        reveal_strlit("December");
        reveal_strlit("Jan");
        reveal_strlit("Feb");
        reveal_strlit("Mar");
        reveal_strlit("Apr");
        reveal_strlit("Jun");
        reveal_strlit("Jul");
        reveal_strlit("Aug");
        reveal_strlit("Sep");
        reveal_strlit("Oct");
        reveal_strlit("Nov");
        reveal_strlit("Dec");
    }
    let r = if m == 1 {
        "Jan"
    } else if m == 2 {
        "Feb"
    } else if m == 3 {
        "Mar"
    } else if m == 4 {
        "Apr"
    } else if m == 5 {
        "May"
    } else if m == 6 {
        "Jun"
    } else if m == 7 {
        "Jul"
    } else if m == 8 {
        "Aug"
    } else if m == 9 {
        "Sep"
    } else if m == 10 {
        "Oct"
    } else if m == 11 {
        "Nov"
    } else {
        "Dec"
    };
    assert(r@ =~= month_abbrev(m as int));
    r
}

/// The name of the scope shown: all calendars, my calendars, or the named
/// calendar (all calendars when the id matches none).
pub open spec fn scope_name(app: App) -> Seq<char> {
    match app.current_calendar_id {
        None => "All Calendars"@,
        Some(id) => if id@ == MY_CALENDARS_ID@ {
            "My Calendars"@
        } else if exists|i: int|
            0 <= i < app.calendars@.len() && (#[trigger] app.calendars@[i]).calendar.id@ == id@ {
            app.calendars@[choose|i: int|
                0 <= i < app.calendars@.len() && (#[trigger] app.calendars@[i]).calendar.id@ == id@
                    && forall|j: int|
                    0 <= j < i ==> (#[trigger] app.calendars@[j]).calendar.id@ != id@].calendar.name@
        } else {
            "All Calendars"@
        },
    }
}

/// The name of the scope shown.
pub fn calendar_display_name(app: &App) -> (r: String)
    ensures
        r@ == scope_name(*app),
{
    match &app.current_calendar_id {
        None => String::from_str("All Calendars"),
        Some(id) => {
            if str_eq(id.as_str(), MY_CALENDARS_ID) {
                return String::from_str("My Calendars");
            }
            let mut i: usize = 0;
            while i < app.calendars.len()
                invariant
                    i <= app.calendars@.len(),
                    app.current_calendar_id == Some(*id),
                    !(id@ == MY_CALENDARS_ID@),
                    forall|j: int| 0 <= j < i ==> (#[trigger] app.calendars@[j]).calendar.id@ != id@,
                decreases app.calendars@.len() - i,
            {
                if str_eq(app.calendars[i].calendar.id.as_str(), id.as_str()) {
                    proof {
                        let c = choose|c: int|
                            0 <= c < app.calendars@.len()
                                && (#[trigger] app.calendars@[c]).calendar.id@ == id@ && forall|j: int|
                                0 <= j < c ==> (#[trigger] app.calendars@[j]).calendar.id@ != id@;
                        assert(0 <= i < app.calendars@.len() && app.calendars@[i as int].calendar.id@
                            == id@ && forall|j: int|
                            0 <= j < i ==> (#[trigger] app.calendars@[j]).calendar.id@ != id@);
                        if c > i {
                            assert(app.calendars@[i as int].calendar.id@ != id@);
                        }
                    }
                    return app.calendars[i].calendar.name.clone();
                }
                i = i + 1;
            }
            String::from_str("All Calendars")
        },
    }
}

/// ` left middle right `, each part set off by single spaces.
pub open spec fn framed(left: Seq<char>, middle: Seq<char>, right: Seq<char>) -> Seq<char> {
    " "@ + left + " "@ + middle + " "@ + right + " "@
}

/// `Www, DD Mmm YYYY`.
pub open spec fn long_date(d: Date) -> Seq<char> {
    weekday_abbrev(d.weekday_spec()) + ", "@ + two_digits_spec(d.day as int) + " "@ + month_abbrev(
        d.month as int,
    ) + " "@ + four_digits_spec(d.year as int)
}

/// The part of the footer title between the arrows.
pub open spec fn footer_middle(app: App, week_start: Date, week_end: Date) -> Seq<char> {
    let name = scope_name(app);
    let d = app.displayed_date;
    match app.event_view_mode {
        EventViewMode::List => name,
        EventViewMode::Month => name + " - "@ + month_name(d.month as int) + " "@ + decimal_spec(
            d.year as int,
        ),
        EventViewMode::Week | EventViewMode::WorkWeek => name + " ("@ + dd_mm_spec(week_start)
            + " to "@ + dd_mm_spec(week_end) + ")"@,
        EventViewMode::Day => name + " ("@ + long_date(d) + ")"@,
    }
}

/// Days the week layouts span after their first day.
pub open spec fn week_span(mode: EventViewMode) -> int {
    if mode == EventViewMode::Week {
        6
    } else {
        4
    }
}

/// The first and last day of the week layout around the displayed date.
pub open spec fn is_week_bounds(app: App, p: (Date, Date)) -> bool {
    &&& p.0.wf()
    &&& p.1.wf()
    &&& crate::view::is_view_start(app.event_view_mode, app.displayed_date, p.0)
    &&& p.1.day_number() == p.0.day_number() + week_span(app.event_view_mode)
}

/// The period named by a week footer: the layout's first and last day, or
/// the displayed date twice where those days are not representable.
pub open spec fn week_bounds(app: App) -> (Date, Date) {
    if exists|p: (Date, Date)| #[trigger] is_week_bounds(app, p) {
        choose|p: (Date, Date)| #[trigger] is_week_bounds(app, p)
    } else {
        (app.displayed_date, app.displayed_date)
    }
}

/// The footer title.
pub open spec fn footer_text(app: App) -> Seq<char> {
    if app.current_view == CurrentView::Calendars {
        " Calendars "@
    } else {
        framed(
            app.symbols.left_arrow@,
            footer_middle(app, week_bounds(app).0, week_bounds(app).1),
            app.symbols.right_arrow@,
        )
    }
}

/// The footer title: the screen's name on the calendar list, else the
/// scope and the period shown between the navigation arrows. For the week
/// layouts the period runs from the layout's first day (Sunday, or Monday
/// for the work week) over seven or five days.
pub fn footer_title(app: &App) -> (r: String)
    requires
        app.wf(),
    ensures
        r@ == footer_text(*app),
{
    if app.current_view == CurrentView::Calendars {
        return String::from_str(" Calendars ");
    }
    let name = calendar_display_name(app);
    let d = app.displayed_date;
    let mut mid = name;
    let mut ws = d;
    let mut we = d;
    match app.event_view_mode {
        EventViewMode::List => {},
        EventViewMode::Month => {
            push_str(&mut mid, " - ");
            push_str(&mut mid, month_name_of(d.month));
            push_str(&mut mid, " ");
            push_decimal(&mut mid, d.year as u32);
        },
        EventViewMode::Week | EventViewMode::WorkWeek => {
            let span: u32 = if app.event_view_mode == EventViewMode::Week {
                6
            } else {
                4
            };
            let start = crate::view::layout_start(app.event_view_mode, d);
            if let Some(s) = start {
                let end = s.add_days(span);
                if let Some(e) = end {
                    ws = s;
                    we = e;
                }
                proof {
                    assert forall|p: (Date, Date)| #[trigger] is_week_bounds(*app, p) implies p == (
                    s,
                    end->0,
                    ) && end is Some by {
                        crate::datetime::lemma_same_week_start(p.0, s, d.day_number());
                        crate::datetime::lemma_day_number_injective(p.0, s);
                        crate::datetime::lemma_day_number_at_most_last(p.1);
                        if end is Some {
                            crate::datetime::lemma_day_number_injective(p.1, end->0);
                        }
                    }
                    if end is Some {
                        assert(is_week_bounds(*app, (s, end->0)));
                    }
                }
            }
            assert((ws, we) == week_bounds(*app));
            push_str(&mut mid, " (");
            push_str(&mut mid, format_dd_mm(ws).as_str());
            push_str(&mut mid, " to ");
            push_str(&mut mid, format_dd_mm(we).as_str());
            push_str(&mut mid, ")");
            assert(mid@ =~= footer_middle(*app, ws, we));
        },
        EventViewMode::Day => {
            push_str(&mut mid, " (");
            push_str(&mut mid, weekday_abbrev_of(d.weekday()));
            push_str(&mut mid, ", ");
            push_two_digits(&mut mid, d.day);
            push_str(&mut mid, " ");
            push_str(&mut mid, month_abbrev_of(d.month));
            push_str(&mut mid, " ");
            push_four_digits(&mut mid, d.year as u32);
            push_str(&mut mid, ")");
            assert(mid@ =~= footer_middle(*app, ws, we));
        },
    }
    let mut r = String::from_str(" ");
    push_str(&mut r, app.symbols.left_arrow.as_str());
    push_str(&mut r, " ");
    push_str(&mut r, mid.as_str());
    push_str(&mut r, " ");
    push_str(&mut r, app.symbols.right_arrow.as_str());
    push_str(&mut r, " ");
    assert(r@ =~= framed(app.symbols.left_arrow@, footer_middle(*app, ws, we), app.symbols.right_arrow@));
    r
}

/// The tab labels, in screen order: calendars, list, week, work week, day, month.
pub open spec fn tab_labels(app: App) -> Seq<Seq<char>> {
    seq![
        " "@ + app.symbols.calendar@ + " Cals "@,
        " \u{f03a} List "@,
        " "@ + app.symbols.clock@ + " Week "@,
        " \u{f0b1} Work "@,
        " \u{f185} Day "@,
        " \u{f133} Month "@,
    ]
}

/// The label of tab `i`.
pub fn tab_label(app: &App, i: usize) -> (r: String)
    requires
        i < 6,
    ensures
        r@ == tab_labels(*app)[i as int],
{
    if i == 0 {
        let mut s = String::from_str(" ");
        push_str(&mut s, app.symbols.calendar.as_str());
        push_str(&mut s, " Cals ");
        s
    } else if i == 1 {
        String::from_str(" \u{f03a} List ")
    } else if i == 2 {
        let mut s = String::from_str(" ");
        push_str(&mut s, app.symbols.clock.as_str());
        push_str(&mut s, " Week ");
        s
    } else if i == 3 {
        String::from_str(" \u{f0b1} Work ")
    } else if i == 4 {
        String::from_str(" \u{f185} Day ")
    } else {
        String::from_str(" \u{f133} Month ")
    }
}

/// The highlighted tab for the current screen and mode.
pub open spec fn tab_index_spec(view: CurrentView, mode: EventViewMode) -> int {
    match view {
        CurrentView::Calendars => 0,
        _ => match mode {
            EventViewMode::List => 1,
            EventViewMode::Week => 2,
            EventViewMode::WorkWeek => 3,
            EventViewMode::Day => 4,
            EventViewMode::Month => 5,
        },
    }
}

/// The highlighted tab.
pub fn tab_index(view: CurrentView, mode: EventViewMode) -> (r: usize)
    ensures
        r == tab_index_spec(view, mode),
{
    match view {
        CurrentView::Calendars => 0,
        _ => match mode {
            EventViewMode::List => 1,
            EventViewMode::Week => 2,
            EventViewMode::WorkWeek => 3,
            EventViewMode::Day => 4,
            EventViewMode::Month => 5,
        },
    }
}

/// `DD/MM | HH:MM - HH:MM | subject`, from local start and end times.
pub open spec fn list_line_spec(s: DateTime, e: DateTime, subject: Seq<char>) -> Seq<char> {
    dd_mm_spec(s.date) + " | "@ + hh_mm_spec(s) + " - "@ + hh_mm_spec(e) + " | "@ + subject
}

/// Formats a list row from local start and end times.
pub fn format_list_line(s: DateTime, e: DateTime, subject: &str) -> (r: String)
    requires
        s.wf(),
        e.wf(),
    ensures
        r@ == list_line_spec(s, e, subject@),
{
    let mut r = format_dd_mm(s.date);
    push_str(&mut r, " | ");
    push_str(&mut r, format_hh_mm(s).as_str());
    push_str(&mut r, " - ");
    push_str(&mut r, format_hh_mm(e).as_str());
    push_str(&mut r, " | ");
    push_str(&mut r, subject);
    r
}

/// The row of the event list: dates and times in local time, or
/// `[Invalid Date] | subject` when a timestamp cannot be read.
pub fn event_list_line(e: &ColorEvent) -> (r: String)
    ensures
        (crate::app::start_of(*e) is None || crate::view::end_of(*e) is None) ==> r@
            == "[Invalid Date] | "@ + e.event.subject@,
        (crate::app::start_of(*e) is Some && crate::view::end_of(*e) is Some) ==> exists|
            ls: DateTime,
            le: DateTime,
        | r@ == list_line_spec(ls, le, e.event.subject@),
{
    let s = parse_date_time(e.event.start.date_time.as_str());
    let t = parse_date_time(e.event.end.date_time.as_str());
    match (s, t) {
        (Some(s), Some(t)) => format_list_line(to_local(s), to_local(t), e.event.subject.as_str()),
        _ => {
            let mut r = String::from_str("[Invalid Date] | ");
            push_str(&mut r, e.event.subject.as_str());
            r
        },
    }
}

/// `HH:MM-HH:MM`, from local start and end times.
pub open spec fn time_span_spec(s: DateTime, e: DateTime) -> Seq<char> {
    hh_mm_spec(s) + "-"@ + hh_mm_spec(e)
}

/// Formats `HH:MM-HH:MM` from local start and end times.
pub fn format_time_span(s: DateTime, e: DateTime) -> (r: String)
    requires
        s.wf(),
        e.wf(),
    ensures
        r@ == time_span_spec(s, e),
{
    let mut r = format_hh_mm(s);
    push_str(&mut r, "-");
    push_str(&mut r, format_hh_mm(e).as_str());
    r
}

/// The local `HH:MM-HH:MM` of an event, when both timestamps can be read.
pub fn event_time_span(e: &ColorEvent) -> (r: Option<String>)
    ensures
        r is Some <==> (crate::app::start_of(*e) is Some && crate::view::end_of(*e) is Some),
        r is Some ==> exists|ls: DateTime, le: DateTime| r->0@ == time_span_spec(ls, le),
{
    let s = parse_date_time(e.event.start.date_time.as_str());
    let t = parse_date_time(e.event.end.date_time.as_str());
    match (s, t) {
        (Some(s), Some(t)) => Some(format_time_span(to_local(s), to_local(t))),
        _ => None,
    }
}

/// The text of an event in the week and day layouts:
/// `■ HH:MM-HH:MM subject`.
pub fn event_grid_line(e: &ColorEvent) -> (r: Option<String>)
    ensures
        r is Some <==> (crate::app::start_of(*e) is Some && crate::view::end_of(*e) is Some),
        r is Some ==> exists|ls: DateTime, le: DateTime|
            r->0@ == "\u{25a0} "@ + time_span_spec(ls, le) + " "@ + e.event.subject@,
{
    match event_time_span(e) {
        Some(span) => {
            let mut r = String::from_str("\u{25a0} ");
            push_str(&mut r, span.as_str());
            push_str(&mut r, " ");
            push_str(&mut r, e.event.subject.as_str());
            Some(r)
        },
        None => None,
    }
}

} // verus!

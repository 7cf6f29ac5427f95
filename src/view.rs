//! What each layout shows: the date window a mode covers, the days an event
//! is drawn on, and the month grid.
use crate::app::{start_of, ColorEvent, EventViewMode};
use crate::clock::{parse_date_time, parsed};
use crate::datetime::{
    days_in_month, last_date, lemma_day_number_at_most_last, lemma_day_number_injective,
    lemma_month_span, lemma_pred_day_number, lemma_same_week_start, Date, DateTime,
};
use vstd::prelude::*;

verus! {

/// Days covered by a mode around `d`: its month, a week, a work week or a day.
pub open spec fn view_length(mode: EventViewMode, d: Date) -> int {
    match mode {
        EventViewMode::List | EventViewMode::Month => days_in_month(d.year as int, d.month as int),
        EventViewMode::Week => 7,
        EventViewMode::WorkWeek => 5,
        EventViewMode::Day => 1,
    }
}

/// Where the window of `mode` around `d` starts.
pub open spec fn is_view_start(mode: EventViewMode, d: Date, s: Date) -> bool {
    match mode {
        EventViewMode::List | EventViewMode::Month => s == (Date { day: 1, ..d }),
        EventViewMode::Week => s.weekday_spec() == 6 && s.day_number() <= d.day_number()
            < s.day_number() + 7,
        EventViewMode::WorkWeek => s.weekday_spec() == 0 && s.day_number() <= d.day_number()
            < s.day_number() + 7,
        EventViewMode::Day => s == d,
    }
}

/// Every window is one day, a work week, a week, or a whole month.
pub proof fn lemma_view_length(mode: EventViewMode, d: Date)
    requires
        d.wf(),
    ensures
        view_length(mode, d) == 1 || view_length(mode, d) == 5 || view_length(mode, d) == 7 || (28
            <= view_length(mode, d) <= 31),
{
    lemma_month_span(d);
}

/// The window `[start, end)` that a mode shows around `d`, both ends at
/// midnight. `None` only when the window would leave the representable days.
pub fn get_view_date_range(mode: EventViewMode, d: Date) -> (r: Option<(DateTime, DateTime)>)
    requires
        d.wf(),
    ensures
        r is Some ==> {
            let (s, e) = r->0;
            &&& s.wf() && e.wf()
            &&& s.is_midnight() && e.is_midnight()
            &&& is_view_start(mode, d, s.date)
            &&& e.date.day_number() - s.date.day_number() == view_length(mode, d)
        },
        r is None ==> d.day_number() < 7 || d.day_number() + 31 > last_date().day_number(),
        mode == EventViewMode::List || mode == EventViewMode::Month ==> (r is None <==> (d.year
            == crate::datetime::MAX_YEAR && d.month == 12)),
        (mode == EventViewMode::List || mode == EventViewMode::Month) && r is Some ==> {
            let (s, e) = r->0;
            e.date == crate::datetime::first_of_next_month(d)
        },
        mode == EventViewMode::Day ==> (r is None <==> d.is_last()),
        (mode == EventViewMode::Week || mode == EventViewMode::WorkWeek) && r is None ==> d.day_number()
            < 7 || d.day_number() + 7 > last_date().day_number(),
{
    proof {
        lemma_month_span(d);
        lemma_day_number_at_most_last(d);
        if !(d.year == crate::datetime::MAX_YEAR && d.month == 12) {
            lemma_day_number_at_most_last(crate::datetime::first_of_next_month(d));
        }
        if d != last_date() {
            crate::datetime::lemma_day_number_monotone(d, last_date());
        }
    }
    let (start, len): (Option<Date>, u32) = match mode {
        EventViewMode::List | EventViewMode::Month => {
            (Some(d.first_of_month()), crate::datetime::month_length(d.year, d.month))
        },
        EventViewMode::Week => (d.week_start(6), 7),
        EventViewMode::WorkWeek => (d.week_start(0), 5),
        EventViewMode::Day => (Some(d), 1),
    };
    let start = match start {
        Some(s) => s,
        None => {
            return None;
        },
    };
    let end = match start.add_days(len) {
        Some(e) => e,
        None => {
            return None;
        },
    };
    proof {
        lemma_day_number_at_most_last(end);
        if (mode == EventViewMode::List || mode == EventViewMode::Month) && !(d.year
            == crate::datetime::MAX_YEAR && d.month == 12) {
            lemma_day_number_injective(end, crate::datetime::first_of_next_month(d));
        }
    }
    Some((DateTime::midnight(start), DateTime::midnight(end)))
}

/// The last day an event is drawn on: an end at midnight after the start
/// day belongs to the day before.
pub open spec fn effective_end_date(s: DateTime, e: DateTime) -> Date {
    if e.is_midnight() && s.date.lt(e.date) {
        e.date.pred_spec()
    } else {
        e.date
    }
}

/// The end of an event, when its timestamp can be read.
pub open spec fn end_of(e: ColorEvent) -> Option<DateTime> {
    parsed(e.event.end.date_time@)
}

/// Whether an event is drawn on `day`: from its start day through its
/// effective end day.
pub open spec fn renders_on(e: ColorEvent, day: Date) -> bool {
    match (start_of(e), end_of(e)) {
        (Some(s), Some(t)) => s.date.le(day) && day.le(effective_end_date(s, t)),
        _ => false,
    }
}

/// An event that does not end before it starts is drawn on its start day:
/// the effective end never falls before the start day.
pub proof fn lemma_effective_end_not_before_start(s: DateTime, e: DateTime)
    requires
        s.wf(),
        e.wf(),
        s.date.le(e.date),
    ensures
        s.date.le(effective_end_date(s, e)),
        effective_end_date(s, e).wf(),
{
    if e.is_midnight() && s.date.lt(e.date) {
        lemma_pred_day_number(e.date);
    }
}

/// The days an event is drawn on are exactly those from its start day
/// through its effective end day, inclusive: the end day, or the day before
/// it when the event ends at midnight after its start day.
pub proof fn lemma_render_days(e: ColorEvent, day: Date)
    requires
        start_of(e) is Some,
        end_of(e) is Some,
    ensures
        ({
            let s = start_of(e)->0;
            let t = end_of(e)->0;
            let last = if t.hour == 0 && t.minute == 0 && t.second == 0 && s.date.lt(t.date) {
                t.date.pred_spec()
            } else {
                t.date
            };
            renders_on(e, day) <==> (s.date.le(day) && day.le(last))
        }),
{
}

/// The last day an event is drawn on.
pub fn effective_end(s: DateTime, e: DateTime) -> (r: Date)
    requires
        s.wf(),
        e.wf(),
    ensures
        r == effective_end_date(s, e),
        r.wf(),
{
    let midnight = e.hour == 0 && e.minute == 0 && e.second == 0;
    if midnight && s.date.is_le(e.date) && s.date != e.date {
        match e.date.pred() {
            Some(p) => p,
            None => e.date,
        }
    } else {
        e.date
    }
}

/// Whether an event is drawn on `day`.
pub fn renders_on_day(e: &ColorEvent, day: Date) -> (r: bool)
    ensures
        r == renders_on(*e, day),
{
    let s = match parse_date_time(e.event.start.date_time.as_str()) {
        Some(s) => s,
        None => {
            return false;
        },
    };
    let t = match parse_date_time(e.event.end.date_time.as_str()) {
        Some(t) => t,
        None => {
            return false;
        },
    };
    s.date.is_le(day) && day.is_le(effective_end(s, t))
}

/// How many of the first `n` events are drawn on `day`.
pub open spec fn rendering_count(s: Seq<ColorEvent>, day: Date, n: int) -> nat
    decreases n,
{
    if n <= 0 {
        0
    } else {
        rendering_count(s, day, n - 1) + if renders_on(s[n - 1], day) {
            1nat
        } else {
            0nat
        }
    }
}

/// Positions, in list order, of the events drawn on `day`.
pub fn events_on_day(events: &Vec<ColorEvent>, day: Date) -> (r: Vec<usize>)
    ensures
        r@.len() == rendering_count(events@, day, events@.len() as int),
        forall|k: int| 0 <= k < r@.len() ==> rendering_count(events@, day, #[trigger] r@[k] as int) == k,
        forall|k: int|
            0 <= k < r@.len() ==> (#[trigger] r@[k]) < events@.len() && renders_on(
                events@[r@[k] as int],
                day,
            ),
        forall|k1: int, k2: int| 0 <= k1 < k2 < r@.len() ==> r@[k1] < r@[k2],
        forall|i: int|
            0 <= i < events@.len() && renders_on(#[trigger] events@[i], day) ==> r@.contains(
                i as usize,
            ),
{
    let mut out: Vec<usize> = Vec::new();
    let mut i: usize = 0;
    while i < events.len()
        invariant
            i <= events@.len(),
            forall|k: int|
                0 <= k < out@.len() ==> (#[trigger] out@[k]) < i && renders_on(
                    events@[out@[k] as int],
                    day,
                ),
            forall|k1: int, k2: int| 0 <= k1 < k2 < out@.len() ==> out@[k1] < out@[k2],
            forall|j: int|
                0 <= j < i && renders_on(#[trigger] events@[j], day) ==> out@.contains(j as usize),
            out@.len() == rendering_count(events@, day, i as int),
            forall|k: int| 0 <= k < out@.len() ==> rendering_count(events@, day, #[trigger] out@[k] as int) == k,
        decreases events@.len() - i,
    {
        let ghost before = out@;
        if renders_on_day(&events[i], day) {
            out.push(i);
            assert(out@[out@.len() - 1] == i);
        }
        proof {
            assert forall|j: int|
                0 <= j < i + 1 && renders_on(#[trigger] events@[j], day) implies out@.contains(
                j as usize,
            ) by {
                if j < i {
                    let k = choose|k: int| 0 <= k < before.len() && before[k] == j as usize;
                    assert(out@[k] == j as usize);
                } else {
                    assert(out@[out@.len() - 1] == i);
                }
            }
        }
        i = i + 1;
    }
    out
}

/// `g` is the first cell of the six-week month grid of `d`: the Monday on
/// or before the first of `d`'s month.
pub open spec fn is_grid_start(d: Date, g: Date) -> bool {
    &&& g.wf()
    &&& g.weekday_spec() == 0
    &&& g.day_number() <= (Date { day: 1, ..d }).day_number() < g.day_number() + 7
}

/// `day` is the date in cell (`row`, `col`) of the month grid of `d`.
pub open spec fn is_cell_date(d: Date, row: int, col: int, day: Date) -> bool {
    day.wf() && exists|g: Date|
        #![trigger is_grid_start(d, g)]
        is_grid_start(d, g) && day.day_number() == g.day_number() + row * 7 + col
}

/// The Monday on or before the first of `d`'s month: the first cell of the
/// six-week month grid. `None` only when that day is not representable.
pub fn month_grid_start(d: Date) -> (r: Option<Date>)
    requires
        d.wf(),
    ensures
        r is Some ==> is_grid_start(d, r->0),
        r is None ==> (Date { day: 1, ..d }).day_number() < 7 && forall|g: Date|
            #![trigger is_grid_start(d, g)]
            !is_grid_start(d, g),
{
    d.first_of_month().week_start(0)
}

/// The date in cell (`row`, `col`) of the month grid of `d`; `None` only
/// when that date is not representable.
pub fn month_cell_date(d: Date, row: u32, col: u32) -> (r: Option<Date>)
    requires
        d.wf(),
        row < 6,
        col < 7,
    ensures
        r is Some ==> is_cell_date(d, row as int, col as int, r->0),
        r is Some ==> forall|day: Date|
            #![trigger is_cell_date(d, row as int, col as int, day)]
            is_cell_date(d, row as int, col as int, day) ==> day == r->0,
        r is None ==> forall|day: Date|
            #![trigger is_cell_date(d, row as int, col as int, day)]
            !is_cell_date(d, row as int, col as int, day),
{
    match month_grid_start(d) {
        Some(g) => {
            let r = g.add_days(row * 7 + col);
            proof {
                let first = Date { day: 1, ..d };
                assert forall|day: Date|
                    #![trigger is_cell_date(d, row as int, col as int, day)]
                    is_cell_date(d, row as int, col as int, day) implies r is Some && day == r->0 by {
                    let g2 = choose|g2: Date|
                        #![trigger is_grid_start(d, g2)]
                        is_grid_start(d, g2) && day.day_number() == g2.day_number() + row * 7 + col;
                    lemma_same_week_start(g, g2, first.day_number());
                    if r is None {
                        lemma_day_number_at_most_last(day);
                    } else {
                        lemma_day_number_injective(day, r->0);
                    }
                }
                if r is Some {
                    assert(is_grid_start(d, g));
                }
            }
            r
        },
        None => None,
    }
}

/// The first day of the week layout around `d`: Sunday for the week view,
/// Monday for the work-week view, `d` itself otherwise. `None` only in the
/// first week of 0001, before which no such day exists.
pub fn layout_start(mode: EventViewMode, d: Date) -> (r: Option<Date>)
    requires
        d.wf(),
    ensures
        mode != EventViewMode::Week && mode != EventViewMode::WorkWeek ==> r == Some(d),
        (mode == EventViewMode::Week || mode == EventViewMode::WorkWeek) ==> {
            &&& r is Some ==> r->0.wf() && is_view_start(mode, d, r->0)
            &&& r is None ==> d.day_number() < 7 && forall|s: Date|
                #![trigger s.weekday_spec()]
                s.wf() ==> !is_view_start(mode, d, s)
        },
{
    match mode {
        EventViewMode::Week => d.week_start(6),
        EventViewMode::WorkWeek => d.week_start(0),
        _ => Some(d),
    }
}

} // verus!

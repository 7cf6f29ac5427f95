//! Mouse dispatch, hit-tested against the rectangles the renderer recorded.
use crate::app::{
    step_next, step_previous, App, CurrentView, EventViewMode, Rect, Transition,
    SWITCH_TRANSITION_MS,
};
use crate::app::ColorEvent;
use crate::datetime::{
    lemma_day_number_at_most_last, lemma_day_number_injective, lemma_same_week_start, Date,
    DateTime,
};
use crate::labels::time_span_spec;
use crate::view::is_view_start;
use crate::wrap::wrapped_height_spec;
use crate::input::{
    next_period, open_calendar_row, previous_period, scope_for_row, scope_view, stepped_back,
    stepped_forward, Outcome,
};
use crate::labels::{event_grid_line, footer_text, footer_title, tab_label, tab_labels};
use crate::text::{display_width, text_width};
use crate::view::{
    events_on_day, is_cell_date, layout_start, month_cell_date, rendering_count, renders_on,
};
use crate::wrap::wrapped_height;
use vstd::prelude::*;

verus! {

/// A mouse action, as far as the controller tells them apart.
#[derive(Clone, Copy, Debug, PartialEq, Eq, Structural)]
pub enum MouseKind {
    LeftDown,
    OtherDown,
    ScrollDown,
    ScrollUp,
    Other,
}

/// `rects[i]` is the first rectangle holding the cell (`col`, `row`).
pub open spec fn is_first_hit(rects: Seq<Rect>, col: u16, row: u16, i: int) -> bool {
    &&& 0 <= i < rects.len()
    &&& rects[i].has(col, row)
    &&& forall|k: int| 0 <= k < i ==> !(#[trigger] rects[k]).has(col, row)
}

/// The first rectangle holding the cell (`col`, `row`).
pub fn find_rect(rects: &Vec<Rect>, col: u16, row: u16) -> (r: Option<usize>)
    ensures
        r is Some ==> is_first_hit(rects@, col, row, r->0 as int),
        r is None ==> forall|k: int| 0 <= k < rects@.len() ==> !(#[trigger] rects@[k]).has(col, row),
{
    let mut i: usize = 0;
    while i < rects.len()
        invariant
            i <= rects@.len(),
            forall|k: int| 0 <= k < i ==> !(#[trigger] rects@[k]).has(col, row),
        decreases rects@.len() - i,
    {
        if rects[i].contains(col, row) {
            return Some(i);
        }
        i = i + 1;
    }
    None
}

/// The first rectangle spanning column `col`.
pub fn find_column(rects: &Vec<Rect>, col: u16) -> (r: Option<usize>)
    ensures
        r is Some ==> is_first_column(rects@, col, r->0 as int),
        r is None ==> forall|k: int|
            0 <= k < rects@.len() ==> !((#[trigger] rects@[k]).x <= col < rects@[k].right_spec()),
{
    let mut i: usize = 0;
    while i < rects.len()
        invariant
            i <= rects@.len(),
            forall|k: int| 0 <= k < i ==> !((#[trigger] rects@[k]).x <= col < rects@[k].right_spec()),
        decreases rects@.len() - i,
    {
        if col >= rects[i].x && col < rects[i].right() {
            return Some(i);
        }
        i = i + 1;
    }
    None
}

/// Switches to the list layout anchored at `day` (a click on an empty spot
/// of a day in the calendar layouts).
fn open_day_in_list(app: &mut App, day: Date, now_ms: u64)
    requires
        old(app).wf(),
        day.wf(),
    ensures
        final(app).wf(),
        *final(app) == (App {
            displayed_date: day,
            event_view_mode: EventViewMode::List,
            transition: Some(Transition { start_ms: now_ms, duration_ms: SWITCH_TRANSITION_MS }),
            ..*old(app)
        }),
{
    app.displayed_date = day;
    app.event_view_mode = EventViewMode::List;
    app.start_transition(SWITCH_TRANSITION_MS, now_ms);
}

/// Opens event `i` in the detail popup.
fn open_event(app: &mut App, i: usize)
    requires
        old(app).wf(),
        i < old(app).events@.len(),
    ensures
        final(app).wf(),
        *final(app) == (App {
            event_selected: Some(i),
            detail_view_scroll: 0,
            current_view: CurrentView::EventDetail,
            ..*old(app)
        }),
{
    app.event_selected = Some(i);
    app.detail_view_scroll = 0;
    app.current_view = CurrentView::EventDetail;
}

/// The effect of a click on event line `line` (0 for the first) of a
/// calendar day `day`: on the `k`-th line the `k`-th event drawn that day
/// opens in the detail popup; anywhere else (including negative lines) the
/// list layout opens at that day with the switch animation, and a refresh
/// is asked for.
pub open spec fn opens_line_or_day(
    old: App,
    new: App,
    r: Outcome,
    day: Date,
    line: int,
    now_ms: u64,
) -> bool {
    let n = rendering_count(old.events@, day, old.events@.len() as int);
    if 0 <= line < n {
        &&& r == Outcome::Continue
        &&& new.event_selected is Some
        &&& new.event_selected->0 < old.events@.len()
        &&& renders_on(old.events@[new.event_selected->0 as int], day)
        &&& rendering_count(old.events@, day, new.event_selected->0 as int) == line
        &&& new == (App {
            event_selected: new.event_selected,
            detail_view_scroll: 0,
            current_view: CurrentView::EventDetail,
            ..old
        })
    } else {
        &&& r == Outcome::Refresh
        &&& new == (App {
            displayed_date: day,
            event_view_mode: EventViewMode::List,
            transition: Some(Transition { start_ms: now_ms, duration_ms: SWITCH_TRANSITION_MS }),
            ..old
        })
    }
}

/// What a click at (`x`, `y`) on the month grid does: `o` is the state before, `n` after, `r` the outcome.
pub open spec fn month_click(o: App, n: App, r: Outcome, x: u16, y: u16, now_ms: u64) -> bool {
    &&& (!(exists|c: int| is_first_hit(o.month_cells@, x, y, c) && c < 42) ==> n
        == o && r == Outcome::Continue)
    &&& (forall|c: int, day: Date|
        #![trigger is_first_hit(o.month_cells@, x, y, c), is_cell_date(o.displayed_date, c / 7, c % 7, day)]
        is_first_hit(o.month_cells@, x, y, c) && c < 42 && is_cell_date(
            o.displayed_date,
            c / 7,
            c % 7,
            day,
        ) ==> opens_line_or_day(
            o,
            n,
            r,
            day,
            y - o.month_cells@[c].y - 2,
            now_ms,
        ))
    &&& (forall|c: int|
        #![trigger is_first_hit(o.month_cells@, x, y, c)]
        is_first_hit(o.month_cells@, x, y, c) && c < 42 && !(exists|day: Date|
            #[trigger] is_cell_date(o.displayed_date, c / 7, c % 7, day)) ==> n == o && r == Outcome::Continue)
}

/// A click at (`x`, `y`) on the month grid. Event lines start at the
/// third row of a day cell; see [`opens_line_or_day`].
pub fn click_month(app: &mut App, x: u16, y: u16, now_ms: u64) -> (r: Outcome)
    requires
        old(app).wf(),
    ensures
        final(app).wf(),
        r != Outcome::Quit,
        month_click(*old(app), *final(app), r, x, y, now_ms),
{
    let c = match find_rect(&app.month_cells, x, y) {
        Some(c) => c,
        None => {
            return Outcome::Continue;
        },
    };
    let ghost cells = app.month_cells@;
    proof {
        assert forall|c2: int| is_first_hit(cells, x, y, c2) implies c2 == c by {
            if c2 < c {
            } else if c2 > c {
                assert(!cells[c as int].has(x, y));
            }
        }
    }
    if c >= 42 {
        return Outcome::Continue;
    }
    let row = (c / 7) as u32;
    let col = (c % 7) as u32;
    let day = match month_cell_date(app.displayed_date, row, col) {
        Some(d) => d,
        None => {
            return Outcome::Continue;
        },
    };
    let cell_y = app.month_cells[c].y;
    let local_y = y - cell_y;
    let day_events = events_on_day(&app.events, day);
    if local_y >= 2 && ((local_y - 2) as usize) < day_events.len() {
        let k = (local_y - 2) as usize;
        let i = day_events[k];
        open_event(app, i);
        return Outcome::Continue;
    }
    open_day_in_list(app, day, now_ms);
    Outcome::Refresh
}

/// The text of an event in the week and day layouts, for local start `ls`
/// and end `le`.
pub open spec fn grid_text(e: ColorEvent, ls: DateTime, le: DateTime) -> Seq<char> {
    "\u{25a0} "@ + time_span_spec(ls, le) + " "@ + e.event.subject@
}

/// `i` is the position of the `k`-th event drawn on `day`.
pub open spec fn kth_on_day(evs: Seq<ColorEvent>, day: Date, k: int, i: int) -> bool {
    &&& 0 <= i < evs.len()
    &&& renders_on(evs[i], day)
    &&& rendering_count(evs, day, i) == k
}

/// `h` lists, in order, how many rows the texts of the events drawn on
/// `day` take when wrapped to `width` columns, the `k`-th event's times
/// being shown as the local times `t[k]`.
pub open spec fn day_heights(
    evs: Seq<ColorEvent>,
    day: Date,
    width: nat,
    h: Seq<usize>,
    t: Seq<(DateTime, DateTime)>,
) -> bool {
    &&& h.len() == rendering_count(evs, day, evs.len() as int)
    &&& t.len() == h.len()
    &&& forall|k: int, i: int|
        #![trigger h[k], kth_on_day(evs, day, k, i)]
        0 <= k < h.len() && kth_on_day(evs, day, k, i) ==> h[k] == wrapped_height_spec(
            grid_text(evs[i], t[k].0, t[k].1),
            width,
        )
}

/// Row `row` of the stacked texts falls on the lines of event `i`.
pub open spec fn line_hit(evs: Seq<ColorEvent>, day: Date, h: Seq<usize>, row: int, i: int) -> bool {
    exists|k: int|
        #![trigger kth_on_day(evs, day, k, i)]
        0 <= k < h.len() && stacked(h, k) <= row < stacked(h, k + 1) && kth_on_day(evs, day, k, i)
}

/// Row `row` falls on no event's lines.
pub open spec fn line_miss(h: Seq<usize>, row: int) -> bool {
    forall|k: int|
        #![trigger stacked(h, k)]
        0 <= k < h.len() ==> !(stacked(h, k) <= row < stacked(h, k + 1))
}

/// On the lines of an event drawn on `day` (rows counted from the first
/// text row) that event opens in the detail popup; on no event's lines,
/// `miss` holds.
pub open spec fn opens_hit_event(
    old: App,
    new: App,
    r: Outcome,
    day: Date,
    row: int,
    width: nat,
    miss: bool,
) -> bool {
    exists|h: Seq<usize>, t: Seq<(DateTime, DateTime)>|
        #![trigger day_heights(old.events@, day, width, h, t)]
        {
            &&& day_heights(old.events@, day, width, h, t)
            &&& forall|i: int|
                #![trigger line_hit(old.events@, day, h, row, i)]
                line_hit(old.events@, day, h, row, i) ==> r == Outcome::Continue && new == (App {
                    event_selected: Some(i as usize),
                    detail_view_scroll: 0,
                    current_view: CurrentView::EventDetail,
                    ..old
                })
            &&& line_miss(h, row) ==> miss
        }
}

/// `cols[c]` is the first column spanning column `x`.
pub open spec fn is_first_column(cols: Seq<Rect>, x: u16, c: int) -> bool {
    &&& 0 <= c < cols.len()
    &&& cols[c].x <= x < cols[c].right_spec()
    &&& forall|k: int| 0 <= k < c ==> !((#[trigger] cols[k]).x <= x < cols[k].right_spec())
}

/// `day` is the date of column `c` of the week layout of `mode` around `d`.
pub open spec fn is_column_date(mode: EventViewMode, d: Date, c: int, day: Date) -> bool {
    day.wf() && exists|s: Date|
        #![trigger is_view_start(mode, d, s)]
        s.wf() && is_view_start(mode, d, s) && day.day_number() == s.day_number() + c
}

/// Text width inside a column's borders.
pub open spec fn column_text_width(col: Rect) -> nat {
    if col.width >= 2 {
        (col.width - 2) as nat
    } else {
        0
    }
}

/// What a click at (`x`, `y`) on the week layouts does: `o` is the state before, `n` after, `r` the outcome.
pub open spec fn week_click(o: App, n: App, r: Outcome, x: u16, y: u16, now_ms: u64) -> bool {
    &&& (!o.event_list_area.inner_spec().has(x, y) ==> n == o && r
        == Outcome::Continue)
    &&& (forall|c: int, day: Date|
        #![trigger is_first_column(o.day_columns@, x, c), is_column_date(o.event_view_mode, o.displayed_date, c, day)]
        o.event_list_area.inner_spec().has(x, y) && is_first_column(
            o.day_columns@,
            x,
            c,
        ) && c <= 6 && is_column_date(
            o.event_view_mode,
            o.displayed_date,
            c,
            day,
        ) ==> {
            let row = y - o.event_list_area.inner_spec().y - 1;
            let to_list = r == Outcome::Refresh && n == (App {
                displayed_date: day,
                event_view_mode: EventViewMode::List,
                transition: Some(Transition { start_ms: now_ms, duration_ms: SWITCH_TRANSITION_MS }),
                ..o
            });
            &&& row < 0 ==> to_list
            &&& row >= 0 ==> opens_hit_event(
                o,
                n,
                r,
                day,
                row,
                column_text_width(o.day_columns@[c]),
                to_list,
            )
        })
}

/// A click in the week or work-week layout. The column under the click
/// gives the day. On the column's title row the list layout opens at that
/// day; on an event's wrapped lines that event opens; anywhere else in the
/// column the list layout opens at that day. Opening the list asks for a
/// refresh. A click outside the columns does nothing.
pub fn click_week(app: &mut App, x: u16, y: u16, now_ms: u64) -> (r: Outcome)
    requires
        old(app).wf(),
        old(app).event_list_area.x < u16::MAX,
        old(app).event_list_area.y < u16::MAX,
        old(app).event_view_mode == EventViewMode::Week || old(app).event_view_mode
            == EventViewMode::WorkWeek,
    ensures
        final(app).wf(),
        r != Outcome::Quit,
        week_click(*old(app), *final(app), r, x, y, now_ms),
{
    let inner = app.event_list_area.inner();
    if !inner.contains(x, y) {
        return Outcome::Continue;
    }
    let c = match find_column(&app.day_columns, x) {
        Some(c) => c,
        None => {
            return Outcome::Continue;
        },
    };
    let ghost cols = app.day_columns@;
    let ghost mode = app.event_view_mode;
    let ghost d = app.displayed_date;
    proof {
        assert forall|c2: int| is_first_column(cols, x, c2) implies c2 == c by {
            if c2 < c {
            } else if c2 > c {
                assert(!(cols[c as int].x <= x < cols[c as int].right_spec()));
            }
        }
    }
    if c > 6 {
        return Outcome::Continue;
    }
    let start = match layout_start(app.event_view_mode, app.displayed_date) {
        Some(s) => s,
        None => {
            return Outcome::Continue;
        },
    };
    let day_opt = start.add_days(c as u32);
    proof {
        assert forall|day2: Date|
            #![trigger is_column_date(mode, d, c as int, day2)]
            is_column_date(mode, d, c as int, day2) implies day_opt is Some && day2 == day_opt->0 by {
            let s2 = choose|s2: Date|
                #![trigger is_view_start(mode, d, s2)]
                s2.wf() && is_view_start(mode, d, s2) && day2.day_number() == s2.day_number() + c;
            lemma_same_week_start(s2, start, d.day_number());
            if day_opt is None {
                lemma_day_number_at_most_last(day2);
            } else {
                lemma_day_number_injective(day2, day_opt->0);
            }
        }
    }
    let day = match day_opt {
        Some(d) => d,
        None => {
            return Outcome::Continue;
        },
    };
    let local_y = y - inner.y;
    if local_y == 0 {
        open_day_in_list(app, day, now_ms);
        return Outcome::Refresh;
    }
    let content_y = (local_y - 1) as usize;
    let content_width = app.day_columns[c].width.saturating_sub(2) as usize;
    let ghost old_app = *app;
    let hit = hit_event_line(app, day, content_y, content_width);
    match hit {
        Some(i) => {
            open_event(app, i);
            proof {
                lemma_hit_unique(old_app.events@, day, content_y as int, content_width as nat, i as int);
            }
            Outcome::Continue
        },
        None => {
            open_day_in_list(app, day, now_ms);
            proof {
                lemma_miss_unique(old_app.events@, day, content_y as int, content_width as nat);
            }
            Outcome::Refresh
        },
    }
}

/// What a click at (`x`, `y`) on the day layout does: `o` is the state before, `n` after, `r` the outcome.
pub open spec fn day_click(o: App, n: App, r: Outcome, x: u16, y: u16) -> bool {
    &&& (r == Outcome::Continue)
    &&& (!o.event_list_area.inner_spec().has(x, y) ==> n == o)
    &&& (o.event_list_area.inner_spec().has(x, y) ==> opens_hit_event(
        o,
        n,
        r,
        o.displayed_date,
        y - o.event_list_area.inner_spec().y,
        o.event_list_area.inner_spec().width as nat,
        n == o,
    ))
}

/// A click in the day layout on an event's wrapped lines opens that event;
/// anywhere else it does nothing.
pub fn click_day(app: &mut App, x: u16, y: u16) -> (r: Outcome)
    requires
        old(app).wf(),
        old(app).event_list_area.x < u16::MAX,
        old(app).event_list_area.y < u16::MAX,
    ensures
        final(app).wf(),
        day_click(*old(app), *final(app), r, x, y),
{
    let inner = app.event_list_area.inner();
    if !inner.contains(x, y) {
        return Outcome::Continue;
    }
    let content_y = (y - inner.y) as usize;
    let width = inner.width as usize;
    let day = app.displayed_date;
    let ghost old_app = *app;
    match hit_event_line(app, day, content_y, width) {
        Some(i) => {
            open_event(app, i);
            proof {
                lemma_hit_unique(old_app.events@, day, content_y as int, width as nat, i as int);
            }
        },
        None => {
            proof {
                lemma_miss_unique(old_app.events@, day, content_y as int, width as nat);
            }
        },
    }
    Outcome::Continue
}

/// Rows taken by the first `k` of a stack of blocks of the given heights.
pub open spec fn stacked(heights: Seq<usize>, k: int) -> int
    decreases k,
{
    if k <= 0 {
        0
    } else {
        stacked(heights, k - 1) + heights[k - 1]
    }
}

proof fn lemma_stacked_grows(h: Seq<usize>, i: int, j: int)
    requires
        0 <= i <= j <= h.len(),
    ensures
        stacked(h, i) <= stacked(h, j),
    decreases j - i,
{
    if i < j {
        lemma_stacked_grows(h, i, j - 1);
    }
}

proof fn lemma_count_grows(evs: Seq<ColorEvent>, day: Date, i: int, j: int)
    requires
        0 <= i < j <= evs.len(),
        renders_on(evs[i], day),
    ensures
        rendering_count(evs, day, i) + 1 <= rendering_count(evs, day, j),
    decreases j - i,
{
    if j > i + 1 {
        lemma_count_grows(evs, day, i, j - 1);
    }
}

/// Only one event can be the `k`-th drawn on a day.
proof fn lemma_kth_unique(evs: Seq<ColorEvent>, day: Date, k: int, i: int, j: int)
    requires
        kth_on_day(evs, day, k, i),
        kth_on_day(evs, day, k, j),
    ensures
        i == j,
{
    if i < j {
        lemma_count_grows(evs, day, i, j);
    } else if j < i {
        lemma_count_grows(evs, day, j, i);
    }
}

/// For every stack of heights of a day's texts, the row falls on the lines
/// of at most the one event found.
proof fn lemma_hit_unique(evs: Seq<ColorEvent>, day: Date, row: int, width: nat, i: int)
    requires
        exists|h: Seq<usize>, t: Seq<(DateTime, DateTime)>|
            #![trigger day_heights(evs, day, width, h, t)]
            day_heights(evs, day, width, h, t) && line_hit(evs, day, h, row, i),
    ensures
        exists|h: Seq<usize>, t: Seq<(DateTime, DateTime)>|
            #![trigger day_heights(evs, day, width, h, t)]
            day_heights(evs, day, width, h, t) && line_hit(evs, day, h, row, i) && forall|i2: int|
                #![trigger line_hit(evs, day, h, row, i2)]
                line_hit(evs, day, h, row, i2) ==> i2 == i,
{
    let (h, t) = choose|h: Seq<usize>, t: Seq<(DateTime, DateTime)>|
        #![trigger day_heights(evs, day, width, h, t)]
        day_heights(evs, day, width, h, t) && line_hit(evs, day, h, row, i);
    let k = choose|k: int|
        #![trigger kth_on_day(evs, day, k, i)]
        0 <= k < h.len() && stacked(h, k) <= row < stacked(h, k + 1) && kth_on_day(evs, day, k, i);
    assert forall|i2: int|
        #![trigger line_hit(evs, day, h, row, i2)]
        line_hit(evs, day, h, row, i2) implies i2 == i by {
        let k2 = choose|k2: int|
            #![trigger kth_on_day(evs, day, k2, i2)]
            0 <= k2 < h.len() && stacked(h, k2) <= row < stacked(h, k2 + 1) && kth_on_day(
                evs,
                day,
                k2,
                i2,
            );
        if k2 < k {
            lemma_stacked_grows(h, k2 + 1, k);
        } else if k < k2 {
            lemma_stacked_grows(h, k + 1, k2);
        }
        lemma_kth_unique(evs, day, k, i, i2);
    }
}

proof fn lemma_miss_unique(evs: Seq<ColorEvent>, day: Date, row: int, width: nat)
    requires
        exists|h: Seq<usize>, t: Seq<(DateTime, DateTime)>|
            #![trigger day_heights(evs, day, width, h, t)]
            day_heights(evs, day, width, h, t) && line_miss(h, row),
    ensures
        exists|h: Seq<usize>, t: Seq<(DateTime, DateTime)>|
            #![trigger day_heights(evs, day, width, h, t)]
            day_heights(evs, day, width, h, t) && line_miss(h, row) && forall|i: int|
                #![trigger line_hit(evs, day, h, row, i)]
                !line_hit(evs, day, h, row, i),
{
    let (h, t) = choose|h: Seq<usize>, t: Seq<(DateTime, DateTime)>|
        #![trigger day_heights(evs, day, width, h, t)]
        day_heights(evs, day, width, h, t) && line_miss(h, row);
    assert forall|i: int|
        #![trigger line_hit(evs, day, h, row, i)]
        !line_hit(evs, day, h, row, i) by {
        if line_hit(evs, day, h, row, i) {
            let k = choose|k: int|
                #![trigger kth_on_day(evs, day, k, i)]
                0 <= k < h.len() && stacked(h, k) <= row < stacked(h, k + 1) && kth_on_day(
                    evs,
                    day,
                    k,
                    i,
                );
            assert(stacked(h, k) <= row);
        }
    }
}

/// Which block of a stack (first block at row 0) covers row `y`.
pub fn block_at_row(heights: &Vec<usize>, y: usize) -> (r: Option<usize>)
    ensures
        r is Some ==> r->0 < heights@.len() && stacked(heights@, r->0 as int) <= y < stacked(
            heights@,
            r->0 + 1,
        ),
        r is None ==> stacked(heights@, heights@.len() as int) <= y,
{
    let mut top: usize = 0;
    let mut k: usize = 0;
    while k < heights.len()
        invariant
            k <= heights@.len(),
            top == stacked(heights@, k as int),
            top <= y,
        decreases heights@.len() - k,
    {
        let h = heights[k];
        if y - top < h {
            return Some(k);
        }
        top = top + h;
        k = k + 1;
    }
    None
}

/// The event, among those drawn on `day`, whose wrapped text covers row
/// `content_y` when the texts are stacked in list order at `width` columns.
fn hit_event_line(app: &App, day: Date, content_y: usize, width: usize) -> (r: Option<usize>)
    requires
        app.wf(),
    ensures
        r is Some ==> r->0 < app.events@.len() && exists|h: Seq<usize>, t: Seq<(DateTime, DateTime)>|
            #![trigger day_heights(app.events@, day, width as nat, h, t)]
            day_heights(app.events@, day, width as nat, h, t) && line_hit(
                app.events@,
                day,
                h,
                content_y as int,
                r->0 as int,
            ),
        r is None ==> exists|h: Seq<usize>, t: Seq<(DateTime, DateTime)>|
            #![trigger day_heights(app.events@, day, width as nat, h, t)]
            day_heights(app.events@, day, width as nat, h, t) && line_miss(h, content_y as int),
{
    let day_events = events_on_day(&app.events, day);
    let ghost evs = app.events@;
    let mut heights: Vec<usize> = Vec::new();
    let ghost mut ts: Seq<(DateTime, DateTime)> = Seq::empty();
    let mut k: usize = 0;
    while k < day_events.len()
        invariant
            evs == app.events@,
            k <= day_events@.len(),
            heights@.len() == k,
            ts.len() == k,
            forall|j: int|
                0 <= j < day_events@.len() ==> (#[trigger] day_events@[j]) < evs.len()
                    && renders_on(evs[day_events@[j] as int], day),
            forall|j: int|
                0 <= j < k ==> #[trigger] heights@[j] == wrapped_height_spec(
                    grid_text(evs[day_events@[j] as int], ts[j].0, ts[j].1),
                    width as nat,
                ),
        decreases day_events@.len() - k,
    {
        let e = &app.events[day_events[k]];
        assert(renders_on(evs[day_events@[k as int] as int], day));
        let h = match event_grid_line(e) {
            Some(text) => {
                proof {
                    let (l1, l2) = choose|l1: DateTime, l2: DateTime|
                        text@ == "\u{25a0} "@ + time_span_spec(l1, l2) + " "@ + e.event.subject@;
                    ts = ts.push((l1, l2));
                }
                wrapped_height(text.as_str(), width)
            },
            None => {
                proof {
                    ts = ts.push(arbitrary());
                }
                0
            },
        };
        heights.push(h);
        proof {
            assert(heights@[k as int] == h);
            assert forall|j: int|
                0 <= j < k + 1 implies #[trigger] heights@[j] == wrapped_height_spec(
                grid_text(evs[day_events@[j] as int], ts[j].0, ts[j].1),
                width as nat,
            ) by {
                if j < k {
                }
            }
        }
        k = k + 1;
    }
    let ghost hs = heights@;
    proof {
        assert forall|k2: int, i: int|
            #![trigger hs[k2], kth_on_day(evs, day, k2, i)]
            0 <= k2 < hs.len() && kth_on_day(evs, day, k2, i) implies hs[k2] == wrapped_height_spec(
            grid_text(evs[i], ts[k2].0, ts[k2].1),
            width as nat,
        ) by {
            assert(kth_on_day(evs, day, k2, day_events@[k2] as int));
            lemma_kth_unique(evs, day, k2, i, day_events@[k2] as int);
        }
        assert(hs.len() == rendering_count(evs, day, evs.len() as int));
        assert(day_heights(evs, day, width as nat, hs, ts));
    }
    match block_at_row(&heights, content_y) {
        Some(k) => {
            proof {
                assert(kth_on_day(evs, day, k as int, day_events@[k as int] as int));
            }
            Some(day_events[k])
        },
        None => {
            proof {
                assert forall|k2: int|
                    #![trigger stacked(hs, k2)]
                    0 <= k2 < hs.len() implies !(stacked(hs, k2) <= content_y < stacked(hs, k2 + 1)) by {
                    lemma_stacked_grows(hs, k2 + 1, hs.len() as int);
                }
            }
            None
        },
    }
}

/// The first column of the right-aligned footer title drawn in `area`.
pub open spec fn footer_start(app: App) -> int {
    let end = app.footer_title_area.right_spec();
    let w = if display_width(footer_text(app)) > 65535 {
        65535
    } else {
        display_width(footer_text(app)) as int
    };
    if end >= w {
        end - w
    } else {
        0
    }
}

/// What a click at (`x`, `y`) on the footer does: `o` is the state before, `n` after, `r` the outcome.
pub open spec fn footer_click(o: App, n: App, r: Outcome, x: u16, y: u16) -> bool {
    &&& ({
        let start = footer_start(o);
        let end = o.footer_title_area.right_spec();
        let on = o.footer_title_area.has(x, y) && start <= x < end;
        &&& on && x < start + 4 ==> r == Outcome::Refresh && n == (App {
            displayed_date: n.displayed_date,
            ..o
        }) && stepped_back(
            o.event_view_mode,
            o.displayed_date,
            n.displayed_date,
        )
        &&& on && x >= start + 4 && x >= end - 4 ==> r == Outcome::Refresh && n == (
        App { displayed_date: n.displayed_date, ..o }) && stepped_forward(
            o.event_view_mode,
            o.displayed_date,
            n.displayed_date,
        )
        &&& !(on && (x < start + 4 || x >= end - 4)) ==> r == Outcome::Continue && n
            == o
    })
}

/// A click on the footer title: its first four columns step back a period,
/// its last four step forward; both ask for a refresh. Anything else does
/// nothing.
pub fn click_footer(app: &mut App, x: u16, y: u16) -> (r: Outcome)
    requires
        old(app).wf(),
    ensures
        final(app).wf(),
        footer_click(*old(app), *final(app), r, x, y),
{
    let area = app.footer_title_area;
    if !area.contains(x, y) {
        return Outcome::Continue;
    }
    let title = footer_title(app);
    let w = text_width(title.as_str());
    let end_x = area.right();
    let width: u16 = if w > 65535 {
        65535
    } else {
        w as u16
    };
    let start_x = end_x.saturating_sub(width);
    if x >= start_x && x < end_x {
        if (x as u32) < start_x as u32 + 4 {
            previous_period(app);
            return Outcome::Refresh;
        } else if end_x >= 4 && x >= end_x - 4 {
            next_period(app);
            return Outcome::Refresh;
        }
    }
    Outcome::Continue
}

/// The columns a tab takes in the tab bar: its label and the divider and padding.
pub open spec fn tab_width(app: App, i: int) -> int {
    display_width(tab_labels(app)[i]) as int + 3
}

/// The columns taken by the first `i` tabs.
pub open spec fn tabs_before(app: App, i: int) -> int
    decreases i,
{
    if i <= 0 {
        0
    } else {
        tabs_before(app, i - 1) + tab_width(app, i - 1)
    }
}

/// The screen and layout that tab `i` (1 to 5) shows.
pub open spec fn tab_mode(i: int) -> EventViewMode {
    if i == 1 {
        EventViewMode::List
    } else if i == 2 {
        EventViewMode::Week
    } else if i == 3 {
        EventViewMode::WorkWeek
    } else if i == 4 {
        EventViewMode::Day
    } else {
        EventViewMode::Month
    }
}

/// Column of a click relative to the inside of the tab bar's border.
pub open spec fn tab_column(area: Rect, x: u16) -> int {
    let left = if area.x + 1 > u16::MAX {
        u16::MAX as int
    } else {
        area.x + 1
    };
    if x >= left {
        x - left
    } else {
        0
    }
}

/// What a click at (`x`, `y`) on the tab bar does: `o` is the state before, `n` after, `r` the outcome.
pub open spec fn tabs_click(o: App, n: App, r: Outcome, x: u16, y: u16) -> bool {
    &&& (!o.tabs_area.has(x, y) ==> n == o && r == Outcome::Continue)
    &&& ({
        let rel = tab_column(o.tabs_area, x);
        &&& o.tabs_area.has(x, y) && rel >= tabs_before(o, 6) ==> n
            == o && r == Outcome::Continue
        &&& forall|i: int|
            #![trigger tabs_before(o, i)]
            0 <= i < 6 && o.tabs_area.has(x, y) && tabs_before(o, i) <= rel
                < tabs_before(o, i + 1) ==> if i == 0 {
                r == Outcome::Continue && n == (App {
                    current_view: CurrentView::Calendars,
                    ..o
                })
            } else {
                r == Outcome::Refresh && n == (App {
                    current_view: CurrentView::Events,
                    event_view_mode: tab_mode(i),
                    ..o
                })
            }
    })
}

/// A click on the tab bar: the tab whose columns hold the click is chosen.
/// Tab 0 shows the calendar list; tabs 1 to 5 show an events layout and ask
/// for a refresh. A click past the last tab, or outside the bar, does nothing.
pub fn click_tabs(app: &mut App, x: u16, y: u16) -> (r: Outcome)
    requires
        old(app).wf(),
    ensures
        final(app).wf(),
        r != Outcome::Quit,
        tabs_click(*old(app), *final(app), r, x, y),
{
    let area = app.tabs_area;
    if !area.contains(x, y) {
        return Outcome::Continue;
    }
    let relative_x: u128 = x.saturating_sub(area.x.saturating_add(1)) as u128;
    let ghost rel = tab_column(area, x);
    let mut sum: u128 = 0;
    let mut i: usize = 0;
    while i < 6
        invariant
            old(app).wf(),
            *app == *old(app),
            old(app).tabs_area.has(x, y),
            i <= 6,
            sum == tabs_before(*old(app), i as int),
            sum <= i * (usize::MAX as int + 3),
            relative_x == rel,
            rel == tab_column(old(app).tabs_area, x),
            rel >= sum,
        decreases 6 - i,
    {
        let label = tab_label(app, i);
        let width = text_width(label.as_str()) as u128 + 3;
        proof {
            assert forall|j: int| 0 <= j <= i + 1 implies #[trigger] tabs_before(*old(app), j)
                <= tabs_before(*old(app), i + 1) by {
                lemma_tabs_before_grows(*old(app), j, i + 1);
            }
        }
        if relative_x < sum + width {
            proof {
                lemma_tabs_before_grows(*old(app), i + 1, 6);
                assert forall|k: int|
                    #![trigger tabs_before(*old(app), k)]
                    0 <= k < 6 && tabs_before(*old(app), k) <= rel < tabs_before(*old(app), k + 1)
                        implies k == i by {
                    if k < i {
                        lemma_tabs_before_grows(*old(app), k + 1, i as int);
                    } else if k > i {
                        lemma_tabs_before_grows(*old(app), i + 1, k);
                    }
                }
            }
            if i == 0 {
                app.current_view = CurrentView::Calendars;
                return Outcome::Continue;
            }
            app.current_view = CurrentView::Events;
            app.event_view_mode = if i == 1 {
                EventViewMode::List
            } else if i == 2 {
                EventViewMode::Week
            } else if i == 3 {
                EventViewMode::WorkWeek
            } else if i == 4 {
                EventViewMode::Day
            } else {
                EventViewMode::Month
            };
            return Outcome::Refresh;
        }
        sum = sum + width;
        i = i + 1;
    }
    proof {
        assert forall|k: int|
            #![trigger tabs_before(*old(app), k)]
            0 <= k < 6 implies !(tabs_before(*old(app), k) <= rel < tabs_before(*old(app), k + 1)) by {
            lemma_tabs_before_grows(*old(app), k + 1, 6);
        }
    }
    Outcome::Continue
}

proof fn lemma_tabs_before_grows(app: App, i: int, j: int)
    requires
        0 <= i <= j,
    ensures
        tabs_before(app, i) <= tabs_before(app, j),
    decreases j - i,
{
    if i < j {
        lemma_tabs_before_grows(app, i, j - 1);
    }
}

/// `y` is a row inside the top and bottom border of `area`, at (`x`, `y`).
pub open spec fn inside_rows(area: Rect, x: u16, y: u16) -> bool {
    area.has(x, y) && area.y < y < area.bottom_spec() - 1
}

/// What a click at (`x`, `y`) on the calendar list does: `o` is the state before, `n` after, `r` the outcome.
pub open spec fn calendar_list_click(o: App, n: App, r: Outcome, x: u16, y: u16, now_ms: u64) -> bool {
    &&& ({
        let area = o.calendar_list_area;
        let row = y - area.y - 1;
        if inside_rows(area, x, y) && row < o.calendars@.len() + 2 {
            &&& r == Outcome::Refresh
            &&& n == (App {
                calendar_selected: Some(row as usize),
                current_calendar_id: n.current_calendar_id,
                current_view: CurrentView::Events,
                transition: Some(Transition { start_ms: now_ms, duration_ms: SWITCH_TRANSITION_MS }),
                ..o
            })
            &&& scope_view(n.current_calendar_id) == scope_for_row(o, row)
        } else {
            r == Outcome::Continue && n == o
        }
    })
}

/// A click on row `k` inside the calendar list's border (0 is "all",
/// 1 "my calendars", `k + 2` calendar `k`) selects and opens that scope and
/// asks for a refresh; anything else does nothing.
pub fn click_calendar_list(app: &mut App, x: u16, y: u16, now_ms: u64) -> (r: Outcome)
    requires
        old(app).wf(),
    ensures
        final(app).wf(),
        calendar_list_click(*old(app), *final(app), r, x, y, now_ms),
{
    let area = app.calendar_list_area;
    if !area.contains(x, y) {
        return Outcome::Continue;
    }
    if y > area.y && y < area.bottom() - 1 {
        let index = (y - area.y - 1) as usize;
        if index < app.calendars.len() + 2 {
            app.calendar_selected = Some(index);
            open_calendar_row(app, index, now_ms);
            return Outcome::Refresh;
        }
    }
    Outcome::Continue
}

/// What a click at (`x`, `y`) on the event list does: `o` is the state before, `n` after, `r` the outcome.
pub open spec fn event_list_click(o: App, n: App, r: Outcome, x: u16, y: u16) -> bool {
    &&& (r == Outcome::Continue)
    &&& ({
        let area = o.event_list_area;
        let i = o.event_list_offset + (y - area.y - 1);
        if inside_rows(area, x, y) && i < o.events@.len() {
            n == (App {
                event_selected: Some(i as usize),
                detail_view_scroll: 0,
                current_view: CurrentView::EventDetail,
                ..o
            })
        } else {
            n == o
        }
    })
}

/// A click on row `k` inside the event list's border opens the event shown
/// there (the list's first shown row plus `k`); anything else does nothing.
pub fn click_event_list(app: &mut App, x: u16, y: u16) -> (r: Outcome)
    requires
        old(app).wf(),
    ensures
        final(app).wf(),
        event_list_click(*old(app), *final(app), r, x, y),
{
    let area = app.event_list_area;
    if !area.contains(x, y) {
        return Outcome::Continue;
    }
    if y > area.y && y < area.bottom() - 1 {
        let visual = (y - area.y - 1) as usize;
        if app.event_list_offset < app.events.len() && visual < app.events.len()
            - app.event_list_offset {
            let i = app.event_list_offset + visual;
            open_event(app, i);
        }
    }
    Outcome::Continue
}

/// Dispatches a mouse action at column `x`, row `y`.
///
/// Any press closes an open help or legend popup. With the detail popup
/// open, a left click outside it closes it and one inside does nothing.
/// Otherwise a left click is tried on the help glyph, the footer arrows,
/// the tabs, then the current screen's content. The wheel moves the list
/// selection, the displayed period of the calendar layouts, or the detail
/// scroll.
pub fn handle_mouse(app: &mut App, kind: MouseKind, x: u16, y: u16, now_ms: u64) -> (r: Outcome)
    requires
        old(app).wf(),
    ensures
        final(app).wf(),
        r != Outcome::Quit,
        old(app).show_help && (kind == MouseKind::LeftDown || kind == MouseKind::OtherDown) ==> *final(app) == (App { show_help: false, ..*old(app) }),
        old(app).show_help ==> r == Outcome::Continue,
        !old(app).show_help && old(app).show_legend ==> r == Outcome::Continue,
        !old(app).show_help && !old(app).show_legend && old(app).current_view
            == CurrentView::EventDetail && kind == MouseKind::LeftDown ==> r == Outcome::Continue
            && *final(app) == if old(app).popup_area.has(x, y) {
            *old(app)
        } else {
            App {
                current_view: CurrentView::Events,
                transition: Some(Transition { start_ms: now_ms, duration_ms: SWITCH_TRANSITION_MS }),
                ..*old(app)
            }
        },
        !old(app).show_help && !old(app).show_legend && old(app).current_view
            != CurrentView::EventDetail && kind == MouseKind::LeftDown && old(app).help_area.has(x, y)
            ==> r == Outcome::Continue && *final(app) == (App { show_help: true, ..*old(app) }),
        ({
            let plain = !old(app).show_help && !old(app).show_legend;
            let v = old(app).current_view;
            let listing = v == CurrentView::Calendars || (v == CurrentView::Events && old(app).event_view_mode == EventViewMode::List);
            &&& plain && kind == MouseKind::ScrollDown && v == CurrentView::Calendars ==> r
                == Outcome::Continue && *final(app) == (App {
                calendar_selected: step_next(old(app).calendar_selected, old(app).list_len()),
                ..*old(app)
            })
            &&& plain && kind == MouseKind::ScrollUp && v == CurrentView::Calendars ==> r
                == Outcome::Continue && *final(app) == (App {
                calendar_selected: step_previous(old(app).calendar_selected, old(app).list_len()),
                ..*old(app)
            })
            &&& plain && kind == MouseKind::ScrollDown && v == CurrentView::Events && listing ==> r
                == Outcome::Continue && *final(app) == (App {
                event_selected: step_next(old(app).event_selected, old(app).list_len()),
                ..*old(app)
            })
            &&& plain && kind == MouseKind::ScrollUp && v == CurrentView::Events && listing ==> r
                == Outcome::Continue && *final(app) == (App {
                event_selected: step_previous(old(app).event_selected, old(app).list_len()),
                ..*old(app)
            })
            &&& plain && kind == MouseKind::ScrollDown && v == CurrentView::Events && !listing ==> r
                == Outcome::Refresh && *final(app) == (App {
                displayed_date: final(app).displayed_date,
                ..*old(app)
            }) && stepped_forward(
                old(app).event_view_mode,
                old(app).displayed_date,
                final(app).displayed_date,
            )
            &&& plain && kind == MouseKind::ScrollUp && v == CurrentView::Events && !listing ==> r
                == Outcome::Refresh && *final(app) == (App {
                displayed_date: final(app).displayed_date,
                ..*old(app)
            }) && stepped_back(
                old(app).event_view_mode,
                old(app).displayed_date,
                final(app).displayed_date,
            )
            &&& plain && kind == MouseKind::ScrollDown && v == CurrentView::EventDetail ==> r
                == Outcome::Continue && *final(app) == (App {
                detail_view_scroll: if old(app).detail_view_scroll == u16::MAX {
                    u16::MAX
                } else {
                    (old(app).detail_view_scroll + 1) as u16
                },
                ..*old(app)
            })
            &&& plain && kind == MouseKind::ScrollUp && v == CurrentView::EventDetail ==> r
                == Outcome::Continue && *final(app) == (App {
                detail_view_scroll: if old(app).detail_view_scroll == 0 {
                    0
                } else {
                    (old(app).detail_view_scroll - 1) as u16
                },
                ..*old(app)
            })
            &&& plain && (kind == MouseKind::Other || kind == MouseKind::OtherDown) ==> r
                == Outcome::Continue && *final(app) == *old(app)
        }),
        ({
            let o = *old(app);
            let n = *final(app);
            let left = !o.show_help && !o.show_legend && o.current_view != CurrentView::EventDetail
                && kind == MouseKind::LeftDown && !o.help_area.has(x, y);
            let content = left && !o.footer_title_area.has(x, y) && !o.tabs_area.has(x, y);
            let bordered = o.event_list_area.x < u16::MAX && o.event_list_area.y < u16::MAX;
            let mode = o.event_view_mode;
            &&& left && o.footer_title_area.has(x, y) ==> footer_click(o, n, r, x, y)
            &&& left && !o.footer_title_area.has(x, y) && o.tabs_area.has(x, y) ==> tabs_click(
                o,
                n,
                r,
                x,
                y,
            )
            &&& content && o.current_view == CurrentView::Calendars ==> calendar_list_click(
                o,
                n,
                r,
                x,
                y,
                now_ms,
            )
            &&& content && o.current_view == CurrentView::Events && mode == EventViewMode::List
                ==> event_list_click(o, n, r, x, y)
            &&& content && o.current_view == CurrentView::Events && mode == EventViewMode::Month
                ==> month_click(o, n, r, x, y, now_ms)
            &&& content && o.current_view == CurrentView::Events && (mode == EventViewMode::Week
                || mode == EventViewMode::WorkWeek) ==> if bordered {
                week_click(o, n, r, x, y, now_ms)
            } else {
                n == o && r == Outcome::Continue
            }
            &&& content && o.current_view == CurrentView::Events && mode == EventViewMode::Day ==> if bordered {
                day_click(o, n, r, x, y)
            } else {
                n == o && r == Outcome::Continue
            }
        }),
{
    if app.show_help {
        if let MouseKind::LeftDown | MouseKind::OtherDown = kind {
            app.show_help = false;
        }
        return Outcome::Continue;
    }
    if app.show_legend {
        if let MouseKind::LeftDown | MouseKind::OtherDown = kind {
            app.show_legend = false;
        }
        return Outcome::Continue;
    }
    match kind {
        MouseKind::LeftDown => {
            if app.current_view == CurrentView::EventDetail {
                if !app.popup_area.contains(x, y) {
                    app.current_view = CurrentView::Events;
                    app.start_transition(SWITCH_TRANSITION_MS, now_ms);
                }
                return Outcome::Continue;
            }
            if app.help_area.contains(x, y) {
                app.show_help = true;
                return Outcome::Continue;
            }
            if app.footer_title_area.contains(x, y) {
                return click_footer(app, x, y);
            }
            if app.tabs_area.contains(x, y) {
                return click_tabs(app, x, y);
            }
            match app.current_view {
                CurrentView::Calendars => click_calendar_list(app, x, y, now_ms),
                _ => match app.event_view_mode {
                    EventViewMode::List => click_event_list(app, x, y),
                    EventViewMode::Month => click_month(app, x, y, now_ms),
                    EventViewMode::Week | EventViewMode::WorkWeek => {
                        if app.event_list_area.x < u16::MAX && app.event_list_area.y < u16::MAX {
                            click_week(app, x, y, now_ms)
                        } else {
                            Outcome::Continue
                        }
                    },
                    EventViewMode::Day => {
                        if app.event_list_area.x < u16::MAX && app.event_list_area.y < u16::MAX {
                            click_day(app, x, y)
                        } else {
                            Outcome::Continue
                        }
                    },
                },
            }
        },
        MouseKind::ScrollDown => match app.current_view {
            CurrentView::Calendars => {
                app.next_item();
                Outcome::Continue
            },
            CurrentView::Events => {
                if app.event_view_mode == EventViewMode::List {
                    app.next_item();
                    Outcome::Continue
                } else {
                    next_period(app);
                    Outcome::Refresh
                }
            },
            CurrentView::EventDetail => {
                app.scroll_down();
                Outcome::Continue
            },
        },
        MouseKind::ScrollUp => match app.current_view {
            CurrentView::Calendars => {
                app.previous_item();
                Outcome::Continue
            },
            CurrentView::Events => {
                if app.event_view_mode == EventViewMode::List {
                    app.previous_item();
                    Outcome::Continue
                } else {
                    previous_period(app);
                    Outcome::Refresh
                }
            },
            CurrentView::EventDetail => {
                app.scroll_up();
                Outcome::Continue
            },
        },
        _ => Outcome::Continue,
    }
}

} // verus!

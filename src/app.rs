//! The view model: what is shown, what is selected, and the navigation
//! operations on it.
use crate::api::{GraphCalendar, GraphEvent};
use crate::clock::{parse_date_time, parsed};
use crate::datetime::{first_of_next_month, first_of_previous_month, Date, DateTime};
use crate::notifications::NotificationManager;
use crate::theme::{Color, Symbols, Theme};
use vstd::prelude::*;

verus! {

/// Calendar id that stands for "every shareable calendar".
pub const MY_CALENDARS_ID: &'static str = "MY_CALENDARS";

/// Length of the animation armed by view switches, in milliseconds.
pub const SWITCH_TRANSITION_MS: u64 = 300;

/// A view-switch animation: when it started (milliseconds on the
/// controller's monotonic clock) and how long it lasts.
#[derive(Clone, Copy, Debug, PartialEq, Eq, Structural)]
pub struct Transition {
    pub start_ms: u64,
    pub duration_ms: u64,
}

impl Transition {
    pub open spec fn finished_at(self, now_ms: u64) -> bool {
        now_ms >= self.start_ms && now_ms - self.start_ms >= self.duration_ms
    }

    /// Whether the animation is over at `now_ms`.
    pub fn is_finished(&self, now_ms: u64) -> (r: bool)
        ensures
            r == self.finished_at(now_ms),
    {
        now_ms >= self.start_ms && now_ms - self.start_ms >= self.duration_ms
    }
}

/// The layouts of the events screen.
#[derive(Clone, Copy, Debug, PartialEq, Eq, Structural)]
pub enum EventViewMode {
    List,
    Month,
    Week,
    WorkWeek,
    Day,
}

/// The mode after `m` in the cycle List, Week, WorkWeek, Day, Month.
pub open spec fn next_mode(m: EventViewMode) -> EventViewMode {
    match m {
        EventViewMode::List => EventViewMode::Week,
        EventViewMode::Week => EventViewMode::WorkWeek,
        EventViewMode::WorkWeek => EventViewMode::Day,
        EventViewMode::Day => EventViewMode::Month,
        EventViewMode::Month => EventViewMode::List,
    }
}

/// Cycling the view mode five times comes back to the mode one started from.
pub proof fn lemma_toggle_five_times(m: EventViewMode)
    ensures
        next_mode(next_mode(next_mode(next_mode(next_mode(m))))) == m,
{
}

/// The screens of the application.
#[derive(Clone, Copy, Debug, PartialEq, Eq, Structural)]
pub enum CurrentView {
    Calendars,
    Events,
    EventDetail,
}

/// A screen rectangle, recorded by the renderer for hit-testing.
#[derive(Clone, Copy, Debug, PartialEq, Eq, Structural)]
pub struct Rect {
    pub x: u16,
    pub y: u16,
    pub width: u16,
    pub height: u16,
}

impl Rect {
    pub open spec fn right_spec(self) -> int {
        if self.x + self.width > u16::MAX {
            u16::MAX as int
        } else {
            self.x + self.width
        }
    }

    pub open spec fn bottom_spec(self) -> int {
        if self.y + self.height > u16::MAX {
            u16::MAX as int
        } else {
            self.y + self.height
        }
    }

    pub open spec fn has(self, col: u16, row: u16) -> bool {
        self.x <= col < self.right_spec() && self.y <= row < self.bottom_spec()
    }

    /// The empty rectangle at the origin.
    pub fn empty() -> (r: Rect)
        ensures
            r == (Rect { x: 0, y: 0, width: 0, height: 0 }),
    {
        Rect { x: 0, y: 0, width: 0, height: 0 }
    }

    /// One past the last column (saturating).
    pub fn right(&self) -> (r: u16)
        ensures
            r == self.right_spec(),
    {
        self.x.saturating_add(self.width)
    }

    /// One past the last row (saturating).
    pub fn bottom(&self) -> (r: u16)
        ensures
            r == self.bottom_spec(),
    {
        self.y.saturating_add(self.height)
    }

    /// Whether the cell at (`col`, `row`) lies inside.
    pub fn contains(&self, col: u16, row: u16) -> (r: bool)
        ensures
            r == self.has(col, row),
    {
        col >= self.x && col < self.right() && row >= self.y && row < self.bottom()
    }

    pub open spec fn inner_spec(self) -> Rect {
        if self.width < 2 || self.height < 2 {
            Rect { x: self.x, y: self.y, width: 0, height: 0 }
        } else {
            Rect {
                x: (self.x + 1) as u16,
                y: (self.y + 1) as u16,
                width: (self.width - 2) as u16,
                height: (self.height - 2) as u16,
            }
        }
    }

    /// The area inside a one-cell border.
    pub fn inner(&self) -> (r: Rect)
        requires
            self.x < u16::MAX,
            self.y < u16::MAX,
        ensures
            r == self.inner_spec(),
    {
        if self.width < 2 || self.height < 2 {
            Rect { x: self.x, y: self.y, width: 0, height: 0 }
        } else {
            Rect { x: self.x + 1, y: self.y + 1, width: self.width - 2, height: self.height - 2 }
        }
    }
}

/// A calendar with its display colour.
#[derive(Debug)]
pub struct ColorCalendar {
    pub calendar: GraphCalendar,
    pub color: Color,
}

/// An event with the colour of the calendar it came from.
#[derive(Debug)]
pub struct ColorEvent {
    pub event: GraphEvent,
    pub color: Color,
}

/// The start of an event, when its timestamp can be read.
pub open spec fn start_of(e: ColorEvent) -> Option<DateTime> {
    parsed(e.event.start.date_time@)
}

/// Reads the start of an event.
pub fn event_start(e: &ColorEvent) -> (r: Option<DateTime>)
    ensures
        r == start_of(*e),
        r is Some ==> r->0.wf(),
{
    parse_date_time(e.event.start.date_time.as_str())
}

/// The whole state of the interactive client.
#[derive(Debug)]
pub struct App {
    pub client_id: String,
    pub access_token: String,
    pub calendars: Vec<ColorCalendar>,
    pub events: Vec<ColorEvent>,
    /// Selected row of the calendar list: 0 is "all", 1 is "my calendars",
    /// `k + 2` is calendar `k`.
    pub calendar_selected: Option<usize>,
    pub event_selected: Option<usize>,
    /// First row shown by the scrolled event list.
    pub event_list_offset: usize,
    pub current_view: CurrentView,
    pub event_view_mode: EventViewMode,
    pub current_calendar_id: Option<String>,
    pub detail_view_scroll: u16,
    pub displayed_date: Date,
    pub transition: Option<Transition>,
    pub calendar_list_area: Rect,
    pub event_list_area: Rect,
    pub help_area: Rect,
    /// Where the footer title (with the navigation arrows) was drawn.
    pub footer_title_area: Rect,
    /// Where the tab bar was drawn.
    pub tabs_area: Rect,
    /// Where the event-detail popup was drawn.
    pub popup_area: Rect,
    /// The month grid's day cells, row by row (six rows of seven).
    pub month_cells: Vec<Rect>,
    /// The columns of the week or work-week layout, first day first.
    pub day_columns: Vec<Rect>,
    pub show_help: bool,
    pub show_legend: bool,
    pub theme: Theme,
    pub symbols: Symbols,
    pub notification_manager: NotificationManager,
}

/// Selection after moving down a list of `len` rows, wrapping around.
pub open spec fn step_next(sel: Option<usize>, len: int) -> Option<usize> {
    if len == 0 {
        sel
    } else {
        match sel {
            None => Some(0),
            Some(i) => Some(((i + 1) % len) as usize),
        }
    }
}

/// Selection after moving up a list of `len` rows, wrapping around.
pub open spec fn step_previous(sel: Option<usize>, len: int) -> Option<usize> {
    if len == 0 {
        sel
    } else {
        match sel {
            None => Some((len - 1) as usize),
            Some(i) => Some(((i + len - 1) % len) as usize),
        }
    }
}

pub open spec fn valid_selection(sel: Option<usize>, len: int) -> bool {
    match sel {
        Some(i) => i < len,
        None => true,
    }
}

/// A run of moves (`true` down, `false` up) over a list of `len` rows.
pub open spec fn run_moves(moves: Seq<bool>, sel: Option<usize>, len: int) -> Option<usize>
    decreases moves.len(),
{
    if moves.len() == 0 {
        sel
    } else {
        let s = run_moves(moves.drop_last(), sel, len);
        if moves.last() {
            step_next(s, len)
        } else {
            step_previous(s, len)
        }
    }
}

/// Moving up and down a non-empty list keeps the selection on one of its
/// rows, and any move at all selects a row.
pub proof fn lemma_moves_stay_in_range(moves: Seq<bool>, sel: Option<usize>, len: int)
    requires
        len >= 1,
        len <= usize::MAX,
        valid_selection(sel, len),
    ensures
        valid_selection(run_moves(moves, sel, len), len),
        moves.len() > 0 ==> run_moves(moves, sel, len) is Some,
    decreases moves.len(),
{
    if moves.len() > 0 {
        lemma_moves_stay_in_range(moves.drop_last(), sel, len);
    }
}

proof fn lemma_wrap_back(sel: Option<usize>, len: int)
    requires
        len >= 1,
        valid_selection(sel, len),
    ensures
        sel is Some ==> (sel->0 + len - 1) % len == if sel->0 == 0 {
            len - 1
        } else {
            sel->0 - 1
        },
{
    if let Some(i) = sel {
        if i == 0 {
            vstd::arithmetic::div_mod::lemma_fundamental_div_mod_converse(len - 1, len, 0, len - 1);
        } else {
            vstd::arithmetic::div_mod::lemma_fundamental_div_mod_converse(i + len - 1, len, 1, i - 1);
        }
    }
}

/// `p` holds of `s[j]` and of no earlier element.
pub open spec fn is_first_where(s: Seq<ColorEvent>, p: spec_fn(ColorEvent) -> bool, j: int) -> bool {
    &&& 0 <= j < s.len()
    &&& p(s[j])
    &&& forall|k: int| 0 <= k < j ==> !p(#[trigger] s[k])
}

/// `p` holds of `s[j]`, `j < end`, and of no element between `j` and `end`.
pub open spec fn is_last_before(s: Seq<ColorEvent>, p: spec_fn(ColorEvent) -> bool, end: int, j: int) -> bool {
    &&& 0 <= j < end
    &&& j < s.len()
    &&& p(s[j])
    &&& forall|k: int| j < k < end ==> !p(#[trigger] s[k])
}

pub open spec fn starts_after_day(d: Date) -> spec_fn(ColorEvent) -> bool {
    |e: ColorEvent|
        match start_of(e) {
            Some(t) => d.lt(t.date),
            None => false,
        }
}

pub open spec fn starts_before_day(d: Date) -> spec_fn(ColorEvent) -> bool {
    |e: ColorEvent|
        match start_of(e) {
            Some(t) => t.date.lt(d),
            None => false,
        }
}

pub open spec fn starts_on_day(d: Date) -> spec_fn(ColorEvent) -> bool {
    |e: ColorEvent|
        match start_of(e) {
            Some(t) => t.date == d,
            None => false,
        }
}

/// Distance in seconds between an event's start and `now`, if it has one.
pub open spec fn distance(e: ColorEvent, now: DateTime) -> Option<int> {
    match start_of(e) {
        Some(t) => Some(
            if t.seconds() >= now.seconds() {
                t.seconds() - now.seconds()
            } else {
                now.seconds() - t.seconds()
            },
        ),
        None => None,
    }
}

/// `j` is the earliest event whose start is closest to `now`; 0 when no
/// start can be read.
pub open spec fn is_nearest(s: Seq<ColorEvent>, now: DateTime, j: int) -> bool {
    if exists|k: int| 0 <= k < s.len() && (#[trigger] distance(s[k], now)) is Some {
        &&& 0 <= j < s.len()
        &&& distance(s[j], now) is Some
        &&& forall|k: int|
            0 <= k < s.len() && (#[trigger] distance(s[k], now)) is Some ==> distance(s[j], now)->0
                <= distance(s[k], now)->0
        &&& forall|k: int|
            0 <= k < j && (#[trigger] distance(s[k], now)) is Some ==> distance(s[j], now)->0
                < distance(s[k], now)->0
    } else {
        j == 0
    }
}

impl App {
    pub open spec fn wf(self) -> bool {
        &&& self.displayed_date.wf()
        &&& self.calendars@.len() + 2 <= usize::MAX
        &&& valid_selection(self.calendar_selected, self.calendars@.len() + 2int)
        &&& valid_selection(self.event_selected, self.events@.len() as int)
    }

    /// A client on the calendar list with the first row selected, showing
    /// the month of `today` once events are opened.
    pub fn new(
        client_id: String,
        access_token: String,
        theme: Theme,
        symbols: Symbols,
        notification_manager: NotificationManager,
        today: Date,
    ) -> (r: Self)
        requires
            today.wf(),
        ensures
            r.wf(),
            r.client_id == client_id,
            r.access_token == access_token,
            r.calendars@.len() == 0,
            r.events@.len() == 0,
            r.calendar_selected == Some(0usize),
            r.event_selected is None,
            r.current_view == CurrentView::Calendars,
            r.event_view_mode == EventViewMode::List,
            r.current_calendar_id is None,
            r.detail_view_scroll == 0,
            r.displayed_date == today,
            r.transition is None,
            !r.show_help && !r.show_legend,
            r.theme == theme,
            r.symbols == symbols,
            r.notification_manager == notification_manager,
    {
        App {
            client_id,
            access_token,
            calendars: Vec::new(),
            events: Vec::new(),
            calendar_selected: Some(0),
            event_selected: None,
            event_list_offset: 0,
            current_view: CurrentView::Calendars,
            event_view_mode: EventViewMode::List,
            current_calendar_id: None,
            detail_view_scroll: 0,
            displayed_date: today,
            transition: None,
            calendar_list_area: Rect::empty(),
            event_list_area: Rect::empty(),
            help_area: Rect::empty(),
            footer_title_area: Rect::empty(),
            tabs_area: Rect::empty(),
            popup_area: Rect::empty(),
            month_cells: Vec::new(),
            day_columns: Vec::new(),
            show_help: false,
            show_legend: false,
            theme,
            symbols,
            notification_manager,
        }
    }

    /// How long to wait for input: 16 ms while an animation runs, else 250 ms.
    pub fn poll_timeout_ms(&self) -> (r: u64)
        ensures
            r == if self.transition is Some {
                16u64
            } else {
                250u64
            },
    {
        if self.transition.is_some() {
            16
        } else {
            250
        }
    }

    /// Drops the animation once it is over at `now_ms`.
    pub fn clear_finished_transition(&mut self, now_ms: u64)
        ensures
            *final(self) == (App {
                transition: match old(self).transition {
                    Some(t) => if t.finished_at(now_ms) {
                        None
                    } else {
                        Some(t)
                    },
                    None => None,
                },
                ..*old(self)
            }),
    {
        if let Some(t) = self.transition {
            if t.is_finished(now_ms) {
                self.transition = None;
            }
        }
    }

    /// Arms an animation of `ms` milliseconds starting at `now_ms`.
    pub fn start_transition(&mut self, ms: u64, now_ms: u64)
        ensures
            *final(self) == (App {
                transition: Some(Transition { start_ms: now_ms, duration_ms: ms }),
                ..*old(self)
            }),
    {
        self.transition = Some(Transition { start_ms: now_ms, duration_ms: ms });
    }

    /// Moves to the next view mode and arms the switch animation.
    pub fn toggle_event_view(&mut self, now_ms: u64)
        ensures
            *final(self) == (App {
                event_view_mode: next_mode(old(self).event_view_mode),
                transition: Some(Transition { start_ms: now_ms, duration_ms: SWITCH_TRANSITION_MS }),
                ..*old(self)
            }),
    {
        self.event_view_mode = match self.event_view_mode {
            EventViewMode::List => EventViewMode::Week,
            EventViewMode::Week => EventViewMode::WorkWeek,
            EventViewMode::WorkWeek => EventViewMode::Day,
            EventViewMode::Day => EventViewMode::Month,
            EventViewMode::Month => EventViewMode::List,
        };
        self.start_transition(SWITCH_TRANSITION_MS, now_ms);
    }

    /// Shows the first day of the next month (unchanged in the last
    /// representable month).
    pub fn next_month(&mut self)
        requires
            old(self).wf(),
        ensures
            final(self).wf(),
            *final(self) == (App { displayed_date: final(self).displayed_date, ..*old(self) }),
            final(self).displayed_date == if old(self).displayed_date.year == crate::datetime::MAX_YEAR
                && old(self).displayed_date.month == 12 {
                old(self).displayed_date
            } else {
                first_of_next_month(old(self).displayed_date)
            },
    {
        if let Some(d) = self.displayed_date.next_month_start() {
            self.displayed_date = d;
        }
    }

    /// Shows the first day of the previous month (unchanged in the first
    /// representable month).
    pub fn previous_month(&mut self)
        requires
            old(self).wf(),
        ensures
            final(self).wf(),
            *final(self) == (App { displayed_date: final(self).displayed_date, ..*old(self) }),
            final(self).displayed_date == if old(self).displayed_date.year == crate::datetime::MIN_YEAR
                && old(self).displayed_date.month == 1 {
                old(self).displayed_date
            } else {
                first_of_previous_month(old(self).displayed_date)
            },
    {
        if let Some(d) = self.displayed_date.previous_month_start() {
            self.displayed_date = d;
        }
    }

    /// Moves the displayed date `n` days ahead, when that date exists.
    fn shift_forward(&mut self, n: u32)
        requires
            old(self).wf(),
        ensures
            final(self).wf(),
            *final(self) == (App { displayed_date: final(self).displayed_date, ..*old(self) }),
            final(self).displayed_date == old(self).displayed_date || final(self).displayed_date.day_number() == old(self).displayed_date.day_number() + n,
            old(self).displayed_date.day_number() + n <= crate::datetime::last_date().day_number()
                ==> final(self).displayed_date.day_number() == old(self).displayed_date.day_number() + n,
    {
        if let Some(d) = self.displayed_date.add_days(n) {
            self.displayed_date = d;
        }
    }

    /// Moves the displayed date `n` days back, when that date exists.
    fn shift_backward(&mut self, n: u32)
        requires
            old(self).wf(),
        ensures
            final(self).wf(),
            *final(self) == (App { displayed_date: final(self).displayed_date, ..*old(self) }),
            final(self).displayed_date == old(self).displayed_date || final(self).displayed_date.day_number() == old(self).displayed_date.day_number() - n,
            old(self).displayed_date.day_number() >= n ==> final(self).displayed_date.day_number()
                == old(self).displayed_date.day_number() - n,
    {
        if let Some(d) = self.displayed_date.sub_days(n) {
            self.displayed_date = d;
        }
    }

    /// Shows the date one week later (unchanged past the last representable day).
    pub fn next_week(&mut self)
        requires
            old(self).wf(),
        ensures
            final(self).wf(),
            *final(self) == (App { displayed_date: final(self).displayed_date, ..*old(self) }),
            final(self).displayed_date == old(self).displayed_date || final(self).displayed_date.day_number() == old(self).displayed_date.day_number() + 7,
            old(self).displayed_date.day_number() + 7 <= crate::datetime::last_date().day_number()
                ==> final(self).displayed_date.day_number() == old(self).displayed_date.day_number() + 7,
    {
        self.shift_forward(7);
    }

    /// Shows the date one week earlier (unchanged before the first representable day).
    pub fn previous_week(&mut self)
        requires
            old(self).wf(),
        ensures
            final(self).wf(),
            *final(self) == (App { displayed_date: final(self).displayed_date, ..*old(self) }),
            final(self).displayed_date == old(self).displayed_date || final(self).displayed_date.day_number() == old(self).displayed_date.day_number() - 7,
            old(self).displayed_date.day_number() >= 7 ==> final(self).displayed_date.day_number()
                == old(self).displayed_date.day_number() - 7,
    {
        self.shift_backward(7);
    }

    /// Shows the next day (unchanged on the last representable day).
    pub fn next_day(&mut self)
        requires
            old(self).wf(),
        ensures
            final(self).wf(),
            *final(self) == (App { displayed_date: final(self).displayed_date, ..*old(self) }),
            final(self).displayed_date == if old(self).displayed_date.is_last() {
                old(self).displayed_date
            } else {
                old(self).displayed_date.succ_spec()
            },
    {
        if let Some(d) = self.displayed_date.succ() {
            self.displayed_date = d;
        }
    }

    /// Shows the previous day (unchanged on the first representable day).
    pub fn previous_day(&mut self)
        requires
            old(self).wf(),
        ensures
            final(self).wf(),
            *final(self) == (App { displayed_date: final(self).displayed_date, ..*old(self) }),
            final(self).displayed_date == if old(self).displayed_date.is_first() {
                old(self).displayed_date
            } else {
                old(self).displayed_date.pred_spec()
            },
    {
        if let Some(d) = self.displayed_date.pred() {
            self.displayed_date = d;
        }
    }

    /// Length of the list that the current screen navigates: the calendars
    /// plus the two aggregate rows, or the events.
    pub open spec fn list_len(self) -> int {
        match self.current_view {
            CurrentView::Calendars => self.calendars@.len() + 2int,
            _ => self.events@.len() as int,
        }
    }

    /// Moves the selection of the current list one row down, wrapping around.
    pub fn next_item(&mut self)
        requires
            old(self).wf(),
        ensures
            final(self).wf(),
            old(self).current_view == CurrentView::Calendars ==> *final(self) == (App {
                calendar_selected: step_next(old(self).calendar_selected, old(self).list_len()),
                ..*old(self)
            }),
            old(self).current_view == CurrentView::Events ==> *final(self) == (App {
                event_selected: step_next(old(self).event_selected, old(self).list_len()),
                ..*old(self)
            }),
            old(self).current_view == CurrentView::EventDetail ==> *final(self) == *old(self),
    {
        match self.current_view {
            CurrentView::Calendars => {
                let len = self.calendars.len() + 2;
                self.calendar_selected = Some(
                    match self.calendar_selected {
                        None => 0,
                        Some(i) => (i + 1) % len,
                    },
                );
            },
            CurrentView::Events => {
                let len = self.events.len();
                if len == 0 {
                    return ;
                }
                self.event_selected = Some(
                    match self.event_selected {
                        None => 0,
                        Some(i) => (i + 1) % len,
                    },
                );
            },
            CurrentView::EventDetail => {},
        }
    }

    /// Moves the selection of the current list one row up, wrapping around.
    pub fn previous_item(&mut self)
        requires
            old(self).wf(),
        ensures
            final(self).wf(),
            old(self).current_view == CurrentView::Calendars ==> *final(self) == (App {
                calendar_selected: step_previous(old(self).calendar_selected, old(self).list_len()),
                ..*old(self)
            }),
            old(self).current_view == CurrentView::Events ==> *final(self) == (App {
                event_selected: step_previous(old(self).event_selected, old(self).list_len()),
                ..*old(self)
            }),
            old(self).current_view == CurrentView::EventDetail ==> *final(self) == *old(self),
    {
        match self.current_view {
            CurrentView::Calendars => {
                let len = self.calendars.len() + 2;
                proof {
                    lemma_wrap_back(self.calendar_selected, len as int);
                }
                self.calendar_selected = Some(
                    match self.calendar_selected {
                        None => len - 1,
                        Some(i) => if i == 0 {
                            len - 1
                        } else {
                            i - 1
                        },
                    },
                );
            },
            CurrentView::Events => {
                let len = self.events.len();
                if len == 0 {
                    return ;
                }
                proof {
                    lemma_wrap_back(self.event_selected, len as int);
                }
                self.event_selected = Some(
                    match self.event_selected {
                        None => len - 1,
                        Some(i) => if i == 0 {
                            len - 1
                        } else {
                            i - 1
                        },
                    },
                );
            },
            CurrentView::EventDetail => {},
        }
    }

    /// The selected event, if any.
    pub fn get_selected_event(&self) -> (r: Option<&ColorEvent>)
        ensures
            r == (match self.event_selected {
                Some(i) => if i < self.events@.len() {
                    Some(&self.events@[i as int])
                } else {
                    None
                },
                None => None,
            }),
    {
        match self.event_selected {
            Some(i) => {
                if i < self.events.len() {
                    Some(&self.events[i])
                } else {
                    None
                }
            },
            None => None,
        }
    }

    /// Scrolls the detail view one line down (saturating).
    pub fn scroll_down(&mut self)
        ensures
            *final(self) == (App {
                detail_view_scroll: if old(self).detail_view_scroll == u16::MAX {
                    u16::MAX
                } else {
                    (old(self).detail_view_scroll + 1) as u16
                },
                ..*old(self)
            }),
    {
        self.detail_view_scroll = self.detail_view_scroll.saturating_add(1);
    }

    /// Scrolls the detail view one line up (saturating).
    pub fn scroll_up(&mut self)
        ensures
            *final(self) == (App {
                detail_view_scroll: if old(self).detail_view_scroll == 0 {
                    0
                } else {
                    (old(self).detail_view_scroll - 1) as u16
                },
                ..*old(self)
            }),
    {
        self.detail_view_scroll = self.detail_view_scroll.saturating_sub(1);
    }

    /// Selects the first event of the list that starts on a later day than
    /// the selected one. Nothing changes when no event is selected, the
    /// selected start cannot be read, or no later day exists.
    pub fn jump_to_next_day(&mut self)
        requires
            old(self).wf(),
        ensures
            final(self).wf(),
            *final(self) == (App { event_selected: final(self).event_selected, ..*old(self) }),
            ({
                let evs = old(self).events@;
                let sel = old(self).event_selected;
                if sel is Some && sel->0 < evs.len() && start_of(evs[sel->0 as int]) is Some {
                    let p = starts_after_day(start_of(evs[sel->0 as int])->0.date);
                    if exists|j: int| 0 <= j < evs.len() && p(#[trigger] evs[j]) {
                        final(self).event_selected is Some && is_first_where(
                            evs,
                            p,
                            final(self).event_selected->0 as int,
                        )
                    } else {
                        final(self).event_selected == sel
                    }
                } else {
                    final(self).event_selected == sel
                }
            }),
    {
        let i = match self.event_selected {
            Some(i) => i,
            None => {
                return ;
            },
        };
        if i >= self.events.len() {
            return ;
        }
        let current = match event_start(&self.events[i]) {
            Some(t) => t.date,
            None => {
                return ;
            },
        };
        let ghost p = starts_after_day(current);
        let mut j: usize = 0;
        while j < self.events.len()
            invariant
                self.wf(),
                *self == *old(self),
                j <= self.events@.len(),
                old(self).event_selected == Some(i),
                i < self.events@.len(),
                start_of(self.events@[i as int]) is Some,
                start_of(self.events@[i as int])->0.date == current,
                p == starts_after_day(current),
                forall|k: int| 0 <= k < j ==> !p(#[trigger] self.events@[k]),
            decreases self.events@.len() - j,
        {
            let after = match event_start(&self.events[j]) {
                Some(t) => current.is_le(t.date) && current != t.date,
                None => false,
            };
            assert(p(self.events@[j as int]) == after);
            if after {
                self.event_selected = Some(j);
                return ;
            }
            j = j + 1;
        }
    }

    /// Selects the first event of the closest earlier day on which an event
    /// before the selected one starts. Nothing changes when no event is
    /// selected, the selected start cannot be read, or no earlier day exists.
    pub fn jump_to_previous_day(&mut self)
        requires
            old(self).wf(),
        ensures
            final(self).wf(),
            *final(self) == (App { event_selected: final(self).event_selected, ..*old(self) }),
            ({
                let evs = old(self).events@;
                let sel = old(self).event_selected;
                if sel is Some && sel->0 < evs.len() && start_of(evs[sel->0 as int]) is Some {
                    let i = sel->0 as int;
                    let p = starts_before_day(start_of(evs[i])->0.date);
                    if exists|k: int| 0 <= k < i && p(#[trigger] evs[k]) {
                        let k = choose|k: int| is_last_before(evs, p, i, k);
                        &&& is_last_before(evs, p, i, k)
                        &&& final(self).event_selected is Some
                        &&& is_first_where(
                            evs,
                            starts_on_day(start_of(evs[k])->0.date),
                            final(self).event_selected->0 as int,
                        )
                    } else {
                        final(self).event_selected == sel
                    }
                } else {
                    final(self).event_selected == sel
                }
            }),
    {
        let i = match self.event_selected {
            Some(i) => i,
            None => {
                return ;
            },
        };
        if i >= self.events.len() {
            return ;
        }
        let current = match event_start(&self.events[i]) {
            Some(t) => t.date,
            None => {
                return ;
            },
        };
        let ghost p = starts_before_day(current);
        let ghost evs = self.events@;
        let mut k: usize = i;
        while k > 0
            invariant
                self.wf(),
                *self == *old(self),
                evs == self.events@,
                k <= i < evs.len(),
                old(self).event_selected == Some(i),
                p == starts_before_day(current),
                start_of(evs[i as int]) is Some,
                start_of(evs[i as int])->0.date == current,
                forall|m: int| k <= m < i ==> !p(#[trigger] evs[m]),
            decreases k,
        {
            k = k - 1;
            let target = match event_start(&self.events[k]) {
                Some(t) => {
                    if t.date.is_le(current) && t.date != current {
                        Some(t.date)
                    } else {
                        None
                    }
                },
                None => None,
            };
            if let Some(target) = target {
                proof {
                    assert(p(evs[k as int]));
                    assert(is_last_before(evs, p, i as int, k as int));
                    let c = choose|c: int| is_last_before(evs, p, i as int, c);
                    if c < k {
                        assert(!p(evs[k as int]));
                    } else if c > k {
                        assert(!p(evs[c]));
                    }
                    assert((choose|c: int| is_last_before(evs, p, i as int, c)) == k as int);
                    assert(start_of(evs[k as int])->0.date == target);
                }
                let ghost q = starts_on_day(target);
                let mut j: usize = 0;
                while j < self.events.len()
                    invariant
                        self.wf(),
                        *self == *old(self),
                        evs == self.events@,
                        k < i < evs.len(),
                        old(self).event_selected == Some(i),
                        j <= evs.len(),
                        start_of(evs[i as int]) is Some,
                        start_of(evs[i as int])->0.date == current,
                        p == starts_before_day(current),
                        is_last_before(evs, p, i as int, k as int),
                        (choose|c: int| is_last_before(evs, p, i as int, c)) == k as int,
                        start_of(evs[k as int])->0.date == target,
                        q == starts_on_day(target),
                        q(evs[k as int]),
                        forall|m: int| 0 <= m < j ==> !q(#[trigger] evs[m]),
                    decreases evs.len() - j,
                {
                    let same = match event_start(&self.events[j]) {
                        Some(t) => t.date == target,
                        None => false,
                    };
                    assert(q(self.events@[j as int]) == same);
                    if same {
                        self.event_selected = Some(j);
                        return ;
                    }
                    j = j + 1;
                }
                return ;
            }
        }
    }

    /// Selects the event whose start is closest to `now` (the earliest of
    /// equally close ones; the first event when no start can be read) and
    /// shows its day. With no events, clears the selection.
    pub fn select_nearest_event(&mut self, now: DateTime)
        requires
            old(self).wf(),
            now.wf(),
        ensures
            final(self).wf(),
            *final(self) == (App {
                event_selected: final(self).event_selected,
                displayed_date: final(self).displayed_date,
                ..*old(self)
            }),
            old(self).events@.len() == 0 ==> final(self).event_selected is None
                && final(self).displayed_date == old(self).displayed_date,
            old(self).events@.len() > 0 ==> {
                &&& final(self).event_selected is Some
                &&& is_nearest(old(self).events@, now, final(self).event_selected->0 as int)
                &&& final(self).displayed_date == match start_of(
                    old(self).events@[final(self).event_selected->0 as int],
                ) {
                    Some(t) => t.date,
                    None => old(self).displayed_date,
                }
            },
    {
        if self.events.len() == 0 {
            self.event_selected = None;
            return ;
        }
        proof {
            crate::datetime::lemma_day_number_bounds(now.date);
        }
        let now_s = now.total_seconds();
        let ghost evs = self.events@;
        let mut best: Option<(usize, u64)> = None;
        let mut i: usize = 0;
        while i < self.events.len()
            invariant
                self.wf(),
                *self == *old(self),
                evs == self.events@,
                now.wf(),
                now_s == now.seconds(),
                i <= evs.len(),
                match best {
                    None => forall|k: int| 0 <= k < i ==> (#[trigger] distance(evs[k], now)) is None,
                    Some((b, d)) => {
                        &&& b < i
                        &&& distance(evs[b as int], now) == Some(d as int)
                        &&& forall|k: int|
                            0 <= k < i && (#[trigger] distance(evs[k], now)) is Some ==> d
                                <= distance(evs[k], now)->0
                        &&& forall|k: int|
                            0 <= k < b && (#[trigger] distance(evs[k], now)) is Some ==> d
                                < distance(evs[k], now)->0
                    },
                },
            decreases evs.len() - i,
        {
            if let Some(t) = event_start(&self.events[i]) {
                proof {
                    crate::datetime::lemma_day_number_bounds(t.date);
                }
                let ts = t.total_seconds();
                let diff = if ts >= now_s {
                    ts - now_s
                } else {
                    now_s - ts
                };
                let better = match best {
                    None => true,
                    Some((_, d)) => diff < d,
                };
                if better {
                    best = Some((i, diff));
                }
            }
            i = i + 1;
        }
        let nearest = match best {
            Some((b, _)) => b,
            None => 0,
        };
        self.event_selected = Some(nearest);
        if let Some(t) = event_start(&self.events[nearest]) {
            self.displayed_date = t.date;
        }
    }
}

} // verus!

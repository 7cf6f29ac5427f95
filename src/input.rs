//! Keyboard dispatch: what each key does on each screen.
use crate::app::{
    next_mode, step_next, step_previous, App, CurrentView, EventViewMode, Transition,
    MY_CALENDARS_ID, SWITCH_TRANSITION_MS,
};
use crate::datetime::{
    first_of_next_month, first_of_previous_month, last_date, Date, MAX_YEAR, MIN_YEAR,
};
use vstd::prelude::*;
use vstd::string::StringExecFns;

verus! {

/// A key press, as far as the controller tells keys apart.
#[derive(Clone, Copy, Debug, PartialEq, Eq, Structural)]
pub enum Key {
    Char(char),
    Enter,
    Esc,
    Tab,
    Up,
    Down,
    Left,
    Right,
    Other,
}

/// What the controller does after an input.
#[derive(Clone, Copy, Debug, PartialEq, Eq, Structural)]
pub enum Outcome {
    Continue,
    Quit,
    /// Run the refresh pipeline.
    Refresh,
}

/// The scope chosen by a row of the calendar list.
pub open spec fn scope_for_row(app: App, row: int) -> Option<Seq<char>> {
    if row == 0 {
        None
    } else if row == 1 {
        Some(MY_CALENDARS_ID@)
    } else {
        Some(app.calendars@[row - 2].calendar.id@)
    }
}

pub open spec fn scope_view(s: Option<String>) -> Option<Seq<char>> {
    match s {
        Some(id) => Some(id@),
        None => None,
    }
}

/// Opens the events of the scope on calendar-list row `row`: 0 is every
/// calendar, 1 the shareable ones, `k + 2` calendar `k`.
pub fn open_calendar_row(app: &mut App, row: usize, now_ms: u64)
    requires
        old(app).wf(),
        row < old(app).calendars@.len() + 2,
    ensures
        final(app).wf(),
        *final(app) == (App {
            current_calendar_id: final(app).current_calendar_id,
            current_view: CurrentView::Events,
            transition: Some(Transition { start_ms: now_ms, duration_ms: SWITCH_TRANSITION_MS }),
            ..*old(app)
        }),
        scope_view(final(app).current_calendar_id) == scope_for_row(*old(app), row as int),
{
    if row == 0 {
        app.current_calendar_id = None;
    } else if row == 1 {
        app.current_calendar_id = Some(String::from_str(MY_CALENDARS_ID));
    } else {
        app.current_calendar_id = Some(app.calendars[row - 2].calendar.id.clone());
    }
    app.current_view = CurrentView::Events;
    app.start_transition(SWITCH_TRANSITION_MS, now_ms);
}

/// `new` is `old` stepped back by the period of `mode` (a month to its
/// first day, seven days, or one day); at the edge of the representable
/// days the date stays.
pub open spec fn stepped_back(mode: EventViewMode, old: Date, new: Date) -> bool {
    match mode {
        EventViewMode::List | EventViewMode::Month => new == if old.year == MIN_YEAR && old.month
            == 1 {
            old
        } else {
            first_of_previous_month(old)
        },
        EventViewMode::Week | EventViewMode::WorkWeek => (new == old || new.day_number()
            == old.day_number() - 7) && (old.day_number() >= 7 ==> new.day_number()
            == old.day_number() - 7),
        EventViewMode::Day => new == if old.is_first() {
            old
        } else {
            old.pred_spec()
        },
    }
}

/// `new` is `old` stepped forward by the period of `mode`.
pub open spec fn stepped_forward(mode: EventViewMode, old: Date, new: Date) -> bool {
    match mode {
        EventViewMode::List | EventViewMode::Month => new == if old.year == MAX_YEAR && old.month
            == 12 {
            old
        } else {
            first_of_next_month(old)
        },
        EventViewMode::Week | EventViewMode::WorkWeek => (new == old || new.day_number()
            == old.day_number() + 7) && (old.day_number() + 7 <= last_date().day_number()
            ==> new.day_number() == old.day_number() + 7),
        EventViewMode::Day => new == if old.is_last() {
            old
        } else {
            old.succ_spec()
        },
    }
}

/// Steps the displayed date back by the current layout's period: a month
/// for the list and month layouts, a week for the week layouts, a day for
/// the day layout.
pub fn previous_period(app: &mut App)
    requires
        old(app).wf(),
    ensures
        final(app).wf(),
        *final(app) == (App { displayed_date: final(app).displayed_date, ..*old(app) }),
        stepped_back(old(app).event_view_mode, old(app).displayed_date, final(app).displayed_date),
{
    match app.event_view_mode {
        EventViewMode::List | EventViewMode::Month => app.previous_month(),
        EventViewMode::Week | EventViewMode::WorkWeek => app.previous_week(),
        EventViewMode::Day => app.previous_day(),
    }
}

/// Steps the displayed date forward by the current layout's period.
pub fn next_period(app: &mut App)
    requires
        old(app).wf(),
    ensures
        final(app).wf(),
        *final(app) == (App { displayed_date: final(app).displayed_date, ..*old(app) }),
        stepped_forward(old(app).event_view_mode, old(app).displayed_date, final(app).displayed_date),
{
    match app.event_view_mode {
        EventViewMode::List | EventViewMode::Month => app.next_month(),
        EventViewMode::Week | EventViewMode::WorkWeek => app.next_week(),
        EventViewMode::Day => app.next_day(),
    }
}

pub open spec fn is_char(k: Key, c: char) -> bool {
    k == Key::Char(c)
}

/// Dispatches a key press. Keys are dropped while an animation runs; an
/// open help or legend popup takes every key (closing on Esc, `q`, Enter
/// or its own key); `?` and `l`/`L` open them; otherwise the screen's own
/// bindings apply.
pub fn handle_key(app: &mut App, key: Key, today: Date, now_ms: u64) -> (r: Outcome)
    requires
        old(app).wf(),
        today.wf(),
    ensures
        final(app).wf(),
        old(app).transition is Some ==> *final(app) == *old(app) && r == Outcome::Continue,
        old(app).transition is None && old(app).show_help ==> r == Outcome::Continue && *final(app)
            == (App {
            show_help: !(key == Key::Esc || is_char(key, 'q') || is_char(key, '?') || key
                == Key::Enter),
            ..*old(app)
        }),
        old(app).transition is None && !old(app).show_help && old(app).show_legend ==> r
            == Outcome::Continue && *final(app) == (App {
            show_legend: !(key == Key::Esc || is_char(key, 'q') || is_char(key, 'l') || is_char(
                key,
                'L',
            ) || key == Key::Enter),
            ..*old(app)
        }),
        ({
            let plain = old(app).transition is None && !old(app).show_help && !old(app).show_legend;
            &&& plain && is_char(key, '?') ==> r == Outcome::Continue && *final(app) == (App {
                show_help: true,
                ..*old(app)
            })
            &&& plain && (is_char(key, 'l') || is_char(key, 'L')) ==> r == Outcome::Continue
                && *final(app) == (App { show_legend: true, ..*old(app) })
        }),
        ({
            let bound = old(app).transition is None && !old(app).show_help && !old(app).show_legend
                && !is_char(key, '?') && !is_char(key, 'l') && !is_char(key, 'L');
            let v = old(app).current_view;
            &&& bound && is_char(key, 'q') ==> r == Outcome::Quit && *final(app) == *old(app)
            &&& bound && v == CurrentView::Calendars && key == Key::Down ==> r == Outcome::Continue
                && *final(app) == (App {
                calendar_selected: step_next(old(app).calendar_selected, old(app).list_len()),
                ..*old(app)
            })
            &&& bound && v == CurrentView::Calendars && key == Key::Up ==> r == Outcome::Continue
                && *final(app) == (App {
                calendar_selected: step_previous(old(app).calendar_selected, old(app).list_len()),
                ..*old(app)
            })
            &&& bound && v == CurrentView::Calendars && key == Key::Enter ==> match old(
                app,
            ).calendar_selected {
                Some(row) => r == Outcome::Refresh && final(app).current_view == CurrentView::Events
                    && scope_view(final(app).current_calendar_id) == scope_for_row(
                    *old(app),
                    row as int,
                ) && final(app).transition == Some(
                    Transition { start_ms: now_ms, duration_ms: SWITCH_TRANSITION_MS },
                ),
                None => r == Outcome::Continue && *final(app) == *old(app),
            }
            &&& bound && v == CurrentView::Events && (is_char(key, 'b') || key == Key::Esc) ==> r
                == Outcome::Continue && *final(app) == (App {
                current_view: CurrentView::Calendars,
                event_view_mode: EventViewMode::List,
                displayed_date: today,
                transition: Some(Transition { start_ms: now_ms, duration_ms: SWITCH_TRANSITION_MS }),
                ..*old(app)
            })
            &&& bound && v == CurrentView::Events && is_char(key, 'r') ==> r == Outcome::Refresh
                && *final(app) == *old(app)
            &&& bound && v == CurrentView::Events && key == Key::Tab ==> r == Outcome::Refresh
                && *final(app) == (App {
                event_view_mode: next_mode(old(app).event_view_mode),
                transition: Some(Transition { start_ms: now_ms, duration_ms: SWITCH_TRANSITION_MS }),
                ..*old(app)
            })
            &&& bound && v == CurrentView::Events && key == Key::Enter ==> r == Outcome::Continue
                && *final(app) == if old(app).event_selected is Some && old(app).event_selected->0
                < old(app).events@.len() {
                App { detail_view_scroll: 0, current_view: CurrentView::EventDetail, ..*old(app) }
            } else {
                *old(app)
            }
            &&& bound && v == CurrentView::Events && key == Key::Down ==> r == Outcome::Continue
                && *final(app) == (App {
                event_selected: step_next(old(app).event_selected, old(app).list_len()),
                ..*old(app)
            })
            &&& bound && v == CurrentView::Events && key == Key::Up ==> r == Outcome::Continue
                && *final(app) == (App {
                event_selected: step_previous(old(app).event_selected, old(app).list_len()),
                ..*old(app)
            })
            &&& bound && v == CurrentView::Events && (is_char(key, 'a') || is_char(key, 'd')) ==> r
                == Outcome::Refresh && *final(app) == (App {
                displayed_date: final(app).displayed_date,
                ..*old(app)
            })
            &&& bound && v == CurrentView::Events && is_char(key, 'a') ==> stepped_back(
                old(app).event_view_mode,
                old(app).displayed_date,
                final(app).displayed_date,
            )
            &&& bound && v == CurrentView::Events && is_char(key, 'd') ==> stepped_forward(
                old(app).event_view_mode,
                old(app).displayed_date,
                final(app).displayed_date,
            )
            &&& bound && v == CurrentView::Events && (key == Key::Left || key == Key::Right) ==> r
                == Outcome::Continue && *final(app) == (App {
                event_selected: final(app).event_selected,
                ..*old(app)
            })
            &&& bound && v == CurrentView::EventDetail && (is_char(key, 'b') || key == Key::Esc) ==> r
                == Outcome::Continue && *final(app) == (App {
                current_view: CurrentView::Events,
                transition: Some(Transition { start_ms: now_ms, duration_ms: SWITCH_TRANSITION_MS }),
                ..*old(app)
            })
            &&& bound && v == CurrentView::EventDetail && (key == Key::Down || key == Key::Up) ==> r
                == Outcome::Continue && *final(app) == (App {
                detail_view_scroll: final(app).detail_view_scroll,
                ..*old(app)
            })
        }),
{
    if app.transition.is_some() {
        return Outcome::Continue;
    }
    if app.show_help {
        match key {
            Key::Esc | Key::Char('q') | Key::Char('?') | Key::Enter => {
                app.show_help = false;
            },
            _ => {},
        }
        return Outcome::Continue;
    }
    if app.show_legend {
        match key {
            Key::Esc | Key::Char('q') | Key::Char('l') | Key::Char('L') | Key::Enter => {
                app.show_legend = false;
            },
            _ => {},
        }
        return Outcome::Continue;
    }
    match key {
        Key::Char('?') => {
            app.show_help = true;
            return Outcome::Continue;
        },
        Key::Char('l') | Key::Char('L') => {
            app.show_legend = true;
            return Outcome::Continue;
        },
        _ => {},
    }
    match app.current_view {
        CurrentView::Calendars => match key {
            Key::Char('q') => Outcome::Quit,
            Key::Down => {
                app.next_item();
                Outcome::Continue
            },
            Key::Up => {
                app.previous_item();
                Outcome::Continue
            },
            Key::Enter => {
                match app.calendar_selected {
                    Some(row) => {
                        open_calendar_row(app, row, now_ms);
                        Outcome::Refresh
                    },
                    None => Outcome::Continue,
                }
            },
            _ => Outcome::Continue,
        },
        CurrentView::Events => match key {
            Key::Char('q') => Outcome::Quit,
            Key::Char('b') | Key::Esc => {
                app.current_view = CurrentView::Calendars;
                app.event_view_mode = EventViewMode::List;
                app.displayed_date = today;
                app.start_transition(SWITCH_TRANSITION_MS, now_ms);
                Outcome::Continue
            },
            Key::Char('r') => Outcome::Refresh,
            Key::Tab => {
                app.toggle_event_view(now_ms);
                Outcome::Refresh
            },
            Key::Enter => {
                if app.get_selected_event().is_some() {
                    app.detail_view_scroll = 0;
                    app.current_view = CurrentView::EventDetail;
                }
                Outcome::Continue
            },
            Key::Down => {
                app.next_item();
                Outcome::Continue
            },
            Key::Up => {
                app.previous_item();
                Outcome::Continue
            },
            Key::Char('a') => {
                previous_period(app);
                Outcome::Refresh
            },
            Key::Char('d') => {
                next_period(app);
                Outcome::Refresh
            },
            Key::Left => {
                app.jump_to_previous_day();
                Outcome::Continue
            },
            Key::Right => {
                app.jump_to_next_day();
                Outcome::Continue
            },
            _ => Outcome::Continue,
        },
        CurrentView::EventDetail => match key {
            Key::Char('q') => Outcome::Quit,
            Key::Char('b') | Key::Esc => {
                app.current_view = CurrentView::Events;
                app.start_transition(SWITCH_TRANSITION_MS, now_ms);
                Outcome::Continue
            },
            Key::Down => {
                app.scroll_down();
                Outcome::Continue
            },
            Key::Up => {
                app.scroll_up();
                Outcome::Continue
            },
            _ => Outcome::Continue,
        },
    }
}

} // verus!

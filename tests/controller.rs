use cal365_tui::api::{DateTimeTimeZone, GraphCalendar, GraphEvent};
use cal365_tui::app::{App, ColorCalendar, ColorEvent, CurrentView, EventViewMode, Rect, MY_CALENDARS_ID};
use cal365_tui::datetime::{Date, DateTime};
use cal365_tui::input::{handle_key, Key, Outcome};
use cal365_tui::mouse::{block_at_row, click_month, handle_mouse, MouseKind};
use cal365_tui::notifications::NotificationManager;
use cal365_tui::refresh::{
    calendars_in_scope, collect_fetch_results, handle_message, show_cached_events, AppEvent,
    FetchOutcome, MessageAction, RefreshReport,
};
use cal365_tui::theme::{Color, Symbols, Theme};

fn date(y: i32, m: u32, d: u32) -> Date {
    Date::from_ymd(y, m, d).unwrap()
}

fn at(y: i32, m: u32, d: u32, h: u32, mi: u32) -> DateTime {
    DateTime { date: date(y, m, d), hour: h, minute: mi, second: 0 }
}

fn stamp(s: &str) -> DateTimeTimeZone {
    DateTimeTimeZone { date_time: s.to_string(), _time_zone: "UTC".to_string() }
}

fn graph_event(id: &str, start: &str, end: &str, subject: &str) -> GraphEvent {
    GraphEvent {
        id: id.to_string(),
        subject: subject.to_string(),
        start: stamp(start),
        end: stamp(end),
        body: None,
        attendees: Vec::new(),
        location: None,
        organizer: None,
    }
}

fn event(id: &str, start: &str, end: &str) -> ColorEvent {
    ColorEvent { event: graph_event(id, start, end, id), color: Color::White }
}

fn calendar(id: &str, name: &str, share: Option<bool>) -> ColorCalendar {
    ColorCalendar {
        calendar: GraphCalendar { id: id.to_string(), name: name.to_string(), can_share: share },
        color: Color::White,
    }
}

fn app() -> App {
    let mut a = App::new(
        "X".to_string(),
        "token".to_string(),
        Theme::default_theme(),
        Symbols::ascii(),
        NotificationManager::new(true, 15),
        date(2025, 3, 14),
    );
    a.calendars.push(calendar("a", "Work", Some(true)));
    a.calendars.push(calendar("b", "Personal", None));
    a
}

#[test]
fn scope_selects_calendars() {
    let a = app();
    assert_eq!(calendars_in_scope(&a.calendars, &None), vec![0, 1]);
    assert_eq!(calendars_in_scope(&a.calendars, &Some(MY_CALENDARS_ID.to_string())), vec![0]);
    assert_eq!(calendars_in_scope(&a.calendars, &Some("b".to_string())), vec![1]);
    assert_eq!(calendars_in_scope(&a.calendars, &Some("zzz".to_string())), Vec::<usize>::new());
}

#[test]
fn refused_token_anywhere_reports_token_expired() {
    let results = vec![
        FetchOutcome::Loaded(vec![graph_event("e1", "2025-03-03T09:00:00", "2025-03-03T10:00:00", "A")]),
        FetchOutcome::AuthExpired,
    ];
    let report = collect_fetch_results(results, &vec![Color::White, Color::White]);
    assert!(matches!(report, RefreshReport::TokenExpired));
}

#[test]
fn fetched_events_keep_order_and_colours() {
    let red = Color::Rgb(255, 0, 0);
    let blue = Color::Rgb(0, 0, 255);
    let results = vec![
        FetchOutcome::Loaded(vec![
            graph_event("e1", "2025-03-03T09:00:00", "2025-03-03T10:00:00", "A"),
            graph_event("e2", "2025-03-01T09:00:00", "2025-03-01T10:00:00", "B"),
        ]),
        FetchOutcome::Failed,
        FetchOutcome::Loaded(vec![graph_event("e3", "2025-03-02T09:00:00", "2025-03-02T10:00:00", "C")]),
    ];
    match collect_fetch_results(results, &vec![red, Color::White, blue]) {
        RefreshReport::Loaded(v) => {
            let got: Vec<(String, Color)> =
                v.iter().map(|c| (c.event.id.clone(), c.color)).collect();
            assert_eq!(
                got,
                vec![("e1".to_string(), red), ("e2".to_string(), red), ("e3".to_string(), blue)]
            );
        }
        RefreshReport::TokenExpired => panic!("no token was refused"),
    }
}

#[test]
fn cached_events_are_sorted_and_first_selected() {
    let mut a = app();
    show_cached_events(&mut a, vec![event("late", "2025-03-20T09:00:00", "x"), event("early", "2025-03-02T09:00:00", "x")]);
    assert_eq!(a.events[0].event.id, "early");
    assert_eq!(a.event_selected, Some(0));
    show_cached_events(&mut a, Vec::new());
    assert_eq!(a.events.len(), 2);
}

#[test]
fn loaded_events_are_sorted_and_nearest_selected() {
    let mut a = app();
    a.current_view = CurrentView::Events;
    let loaded = vec![
        event("c", "2025-03-20T09:00:00", "2025-03-20T10:00:00"),
        event("a", "2025-03-02T09:00:00", "2025-03-02T10:00:00"),
        event("b", "2025-03-14T09:30:00", "2025-03-14T10:00:00"),
    ];
    let (action, notes) = handle_message(&mut a, AppEvent::EventsLoaded(loaded), at(2025, 3, 14, 9, 20));
    assert_eq!(action, MessageAction::Nothing);
    let ids: Vec<&str> = a.events.iter().map(|e| e.event.id.as_str()).collect();
    assert_eq!(ids, vec!["a", "b", "c"]);
    assert!(a.events.windows(2).all(|w| w[0].event.start.date_time <= w[1].event.start.date_time));
    assert_eq!(a.event_selected, Some(1));
    assert_eq!(a.displayed_date, date(2025, 3, 14));
    assert_eq!(notes.len(), 1);
    assert_eq!(notes[0].title, "b");
    let (_, notes) = handle_message(&mut a, AppEvent::EventsLoaded(Vec::new()), at(2025, 3, 14, 9, 20));
    assert!(notes.is_empty());
    assert!(a.events.is_empty());
    assert_eq!(a.event_selected, None);
}

#[test]
fn timer_refresh_only_in_events_view() {
    let mut a = app();
    assert_eq!(handle_message(&mut a, AppEvent::Refresh, at(2025, 3, 14, 9, 0)).0, MessageAction::Nothing);
    a.current_view = CurrentView::Events;
    assert_eq!(handle_message(&mut a, AppEvent::Refresh, at(2025, 3, 14, 9, 0)).0, MessageAction::Refresh);
    let before = a.events.len();
    assert_eq!(
        handle_message(&mut a, AppEvent::TokenExpired, at(2025, 3, 14, 9, 0)).0,
        MessageAction::RenewToken
    );
    assert_eq!(a.events.len(), before);
}

#[test]
fn enter_on_calendar_rows_picks_the_scope() {
    let today = date(2025, 3, 14);
    let mut a = app();
    assert_eq!(handle_key(&mut a, Key::Enter, today, 100), Outcome::Refresh);
    assert_eq!(a.current_calendar_id, None);
    assert_eq!(a.current_view, CurrentView::Events);
    assert!(a.transition.is_some());
    // keys are dropped while the animation runs
    assert_eq!(handle_key(&mut a, Key::Char('q'), today, 150), Outcome::Continue);
    a.clear_finished_transition(400);
    assert!(a.transition.is_none());
    assert_eq!(handle_key(&mut a, Key::Char('b'), today, 500), Outcome::Continue);
    assert_eq!(a.current_view, CurrentView::Calendars);
    a.transition = None;
    a.calendar_selected = Some(1);
    handle_key(&mut a, Key::Enter, today, 900);
    assert_eq!(a.current_calendar_id, Some(MY_CALENDARS_ID.to_string()));
    a.transition = None;
    a.current_view = CurrentView::Calendars;
    a.calendar_selected = Some(3);
    handle_key(&mut a, Key::Enter, today, 1000);
    assert_eq!(a.current_calendar_id, Some("b".to_string()));
}

#[test]
fn event_keys() {
    let today = date(2025, 3, 14);
    let mut a = app();
    a.current_view = CurrentView::Events;
    assert_eq!(a.poll_timeout_ms(), 250);
    assert_eq!(handle_key(&mut a, Key::Tab, today, 0), Outcome::Refresh);
    assert_eq!(a.event_view_mode, EventViewMode::Week);
    assert_eq!(a.poll_timeout_ms(), 16);
    a.transition = None;
    assert_eq!(handle_key(&mut a, Key::Char('d'), today, 0), Outcome::Refresh);
    assert_eq!(a.displayed_date, date(2025, 3, 21));
    a.event_view_mode = EventViewMode::Month;
    assert_eq!(handle_key(&mut a, Key::Char('a'), today, 0), Outcome::Refresh);
    assert_eq!(a.displayed_date, date(2025, 2, 1));
    assert_eq!(handle_key(&mut a, Key::Char('r'), today, 0), Outcome::Refresh);
    assert_eq!(handle_key(&mut a, Key::Enter, today, 0), Outcome::Continue);
    assert_eq!(a.current_view, CurrentView::Events);
    a.events.push(event("e", "2025-03-14T09:00:00", "2025-03-14T10:00:00"));
    a.event_selected = Some(0);
    a.detail_view_scroll = 7;
    handle_key(&mut a, Key::Enter, today, 0);
    assert_eq!(a.current_view, CurrentView::EventDetail);
    assert_eq!(a.detail_view_scroll, 0);
    handle_key(&mut a, Key::Down, today, 0);
    assert_eq!(a.detail_view_scroll, 1);
    handle_key(&mut a, Key::Char('?'), today, 0);
    assert!(a.show_help);
    handle_key(&mut a, Key::Char('x'), today, 0);
    assert!(a.show_help);
    handle_key(&mut a, Key::Esc, today, 0);
    assert!(!a.show_help);
    handle_key(&mut a, Key::Char('L'), today, 0);
    assert!(a.show_legend);
    handle_key(&mut a, Key::Char('l'), today, 0);
    assert!(!a.show_legend);
    assert_eq!(handle_key(&mut a, Key::Char('q'), today, 0), Outcome::Quit);
}

fn month_app() -> App {
    let mut a = app();
    a.current_view = CurrentView::Events;
    a.event_view_mode = EventViewMode::Month;
    a.displayed_date = date(2025, 3, 20);
    for row in 0..6u16 {
        for col in 0..7u16 {
            a.month_cells.push(Rect { x: 1 + col * 10, y: 3 + row * 6, width: 10, height: 6 });
        }
    }
    a.events = vec![
        event("before", "2025-03-01T09:00:00", "2025-03-01T10:00:00"),
        event("first", "2025-03-13T08:00:00", "2025-03-13T09:00:00"),
        event("other", "2025-03-14T08:00:00", "2025-03-14T09:00:00"),
        event("second", "2025-03-13T11:00:00", "2025-03-13T12:00:00"),
    ];
    a
}

#[test]
fn month_click_on_event_line_opens_it() {
    let mut a = month_app();
    a.detail_view_scroll = 4;
    // row 2, column 3 is 2025-03-13; its second event line is the cell's fourth row
    let cell = a.month_cells[2 * 7 + 3];
    let r = click_month(&mut a, cell.x + 2, cell.y + 3, 10);
    assert_eq!(r, Outcome::Continue);
    assert_eq!(a.event_selected, Some(3));
    assert_eq!(a.current_view, CurrentView::EventDetail);
    assert_eq!(a.detail_view_scroll, 0);
}

#[test]
fn month_click_on_empty_line_opens_the_day_in_the_list() {
    let mut a = month_app();
    let cell = a.month_cells[2 * 7 + 3];
    let r = click_month(&mut a, cell.x + 2, cell.y + 5, 10);
    assert_eq!(r, Outcome::Refresh);
    assert_eq!(a.event_view_mode, EventViewMode::List);
    assert_eq!(a.displayed_date, date(2025, 3, 13));
    assert_eq!(a.current_view, CurrentView::Events);
    let mut b = month_app();
    assert_eq!(click_month(&mut b, 500, 500, 10), Outcome::Continue);
    assert_eq!(b.displayed_date, date(2025, 3, 20));
}

#[test]
fn mouse_dispatch_through_recorded_areas() {
    let mut a = month_app();
    a.help_area = Rect { x: 0, y: 40, width: 10, height: 1 };
    let r = handle_mouse(&mut a, MouseKind::LeftDown, 3, 40, 0);
    assert_eq!(r, Outcome::Continue);
    assert!(a.show_help);
    handle_mouse(&mut a, MouseKind::OtherDown, 70, 2, 0);
    assert!(!a.show_help);
    let cell = a.month_cells[2 * 7 + 3];
    handle_mouse(&mut a, MouseKind::LeftDown, cell.x + 1, cell.y + 2, 0);
    assert_eq!(a.event_selected, Some(1));
    assert_eq!(a.current_view, CurrentView::EventDetail);
    a.popup_area = Rect { x: 10, y: 10, width: 20, height: 10 };
    handle_mouse(&mut a, MouseKind::LeftDown, 15, 15, 0);
    assert_eq!(a.current_view, CurrentView::EventDetail);
    handle_mouse(&mut a, MouseKind::LeftDown, 0, 0, 0);
    assert_eq!(a.current_view, CurrentView::Events);
    a.transition = None;
    assert_eq!(handle_mouse(&mut a, MouseKind::ScrollDown, 0, 0, 0), Outcome::Refresh);
    assert_eq!(a.displayed_date, date(2025, 4, 1));
}

#[test]
fn footer_arrows_step_the_period() {
    let mut a = app();
    a.current_view = CurrentView::Events;
    a.footer_title_area = Rect { x: 10, y: 40, width: 50, height: 1 };
    // " < All Calendars > " is 19 columns, right-aligned: columns 41..60
    assert_eq!(handle_mouse(&mut a, MouseKind::LeftDown, 42, 40, 0), Outcome::Refresh);
    assert_eq!(a.displayed_date, date(2025, 2, 1));
    assert_eq!(handle_mouse(&mut a, MouseKind::LeftDown, 58, 40, 0), Outcome::Refresh);
    assert_eq!(a.displayed_date, date(2025, 3, 1));
    assert_eq!(handle_mouse(&mut a, MouseKind::LeftDown, 50, 40, 0), Outcome::Continue);
    assert_eq!(handle_mouse(&mut a, MouseKind::LeftDown, 20, 40, 0), Outcome::Continue);
    assert_eq!(a.displayed_date, date(2025, 3, 1));
}

#[test]
fn tab_clicks_switch_screens() {
    let mut a = app();
    a.tabs_area = Rect { x: 0, y: 0, width: 68, height: 3 };
    assert_eq!(handle_mouse(&mut a, MouseKind::LeftDown, 16, 1, 0), Outcome::Refresh);
    assert_eq!(a.current_view, CurrentView::Events);
    assert_eq!(a.event_view_mode, EventViewMode::List);
    assert_eq!(handle_mouse(&mut a, MouseKind::LeftDown, 2, 1, 0), Outcome::Continue);
    assert_eq!(a.current_view, CurrentView::Calendars);
}

#[test]
fn list_clicks_open_rows() {
    let mut a = app();
    a.calendar_list_area = Rect { x: 0, y: 3, width: 40, height: 10 };
    assert_eq!(handle_mouse(&mut a, MouseKind::LeftDown, 5, 3, 0), Outcome::Continue);
    assert_eq!(handle_mouse(&mut a, MouseKind::LeftDown, 5, 5, 0), Outcome::Refresh);
    assert_eq!(a.calendar_selected, Some(1));
    assert_eq!(a.current_calendar_id, Some(MY_CALENDARS_ID.to_string()));
    assert_eq!(a.current_view, CurrentView::Events);
    a.transition = None;
    a.event_list_area = Rect { x: 0, y: 3, width: 60, height: 10 };
    a.events = vec![
        event("a", "2025-03-02T09:00:00", "2025-03-02T10:00:00"),
        event("b", "2025-03-03T09:00:00", "2025-03-03T10:00:00"),
    ];
    assert_eq!(handle_mouse(&mut a, MouseKind::LeftDown, 5, 9, 0), Outcome::Continue);
    assert_eq!(a.current_view, CurrentView::Events);
    handle_mouse(&mut a, MouseKind::LeftDown, 5, 5, 0);
    assert_eq!(a.event_selected, Some(1));
    assert_eq!(a.current_view, CurrentView::EventDetail);
}

fn week_app(mode: EventViewMode) -> App {
    let mut a = month_app();
    a.event_view_mode = mode;
    a.displayed_date = date(2025, 3, 13);
    a.event_list_area = Rect { x: 0, y: 3, width: 72, height: 20 };
    for k in 0..7u16 {
        a.day_columns.push(Rect { x: 1 + 10 * k, y: 4, width: 10, height: 18 });
    }
    a
}

#[test]
fn week_click_uses_wrapped_heights() {
    // Sunday 2025-03-09 starts the week; column 4 is Thursday 2025-03-13.
    // Each event line wraps to three rows at eight columns.
    let mut a = week_app(EventViewMode::Week);
    assert_eq!(handle_mouse(&mut a, MouseKind::LeftDown, 45, 8, 0), Outcome::Continue);
    assert_eq!(a.event_selected, Some(3));
    assert_eq!(a.current_view, CurrentView::EventDetail);
    let mut b = week_app(EventViewMode::Week);
    assert_eq!(handle_mouse(&mut b, MouseKind::LeftDown, 45, 6, 0), Outcome::Continue);
    assert_eq!(b.event_selected, Some(1));
    let mut c = week_app(EventViewMode::Week);
    assert_eq!(handle_mouse(&mut c, MouseKind::LeftDown, 45, 4, 0), Outcome::Refresh);
    assert_eq!(c.event_view_mode, EventViewMode::List);
    assert_eq!(c.displayed_date, date(2025, 3, 13));
    let mut d = week_app(EventViewMode::Week);
    assert_eq!(handle_mouse(&mut d, MouseKind::LeftDown, 45, 20, 0), Outcome::Refresh);
    assert_eq!(d.displayed_date, date(2025, 3, 13));
}

#[test]
fn day_click_opens_the_event_on_that_line() {
    let mut a = week_app(EventViewMode::Day);
    assert_eq!(handle_mouse(&mut a, MouseKind::LeftDown, 10, 5, 0), Outcome::Continue);
    assert_eq!(a.event_selected, Some(3));
    assert_eq!(a.current_view, CurrentView::EventDetail);
    let mut b = week_app(EventViewMode::Day);
    handle_mouse(&mut b, MouseKind::LeftDown, 10, 12, 0);
    assert_eq!(b.current_view, CurrentView::Events);
}

#[test]
fn wheel_moves_selection_or_period() {
    let mut a = app();
    handle_mouse(&mut a, MouseKind::ScrollDown, 0, 0, 0);
    assert_eq!(a.calendar_selected, Some(1));
    handle_mouse(&mut a, MouseKind::ScrollUp, 0, 0, 0);
    handle_mouse(&mut a, MouseKind::ScrollUp, 0, 0, 0);
    assert_eq!(a.calendar_selected, Some(3));
    a.current_view = CurrentView::Events;
    a.event_view_mode = EventViewMode::Day;
    assert_eq!(handle_mouse(&mut a, MouseKind::ScrollUp, 0, 0, 0), Outcome::Refresh);
    assert_eq!(a.displayed_date, date(2025, 3, 13));
    a.current_view = CurrentView::EventDetail;
    handle_mouse(&mut a, MouseKind::ScrollDown, 0, 0, 0);
    assert_eq!(a.detail_view_scroll, 1);
}

#[test]
fn stacked_blocks_cover_rows() {
    let heights = vec![3usize, 0, 2];
    assert_eq!(block_at_row(&heights, 0), Some(0));
    assert_eq!(block_at_row(&heights, 2), Some(0));
    assert_eq!(block_at_row(&heights, 3), Some(2));
    assert_eq!(block_at_row(&heights, 4), Some(2));
    assert_eq!(block_at_row(&heights, 5), None);
    assert_eq!(block_at_row(&Vec::new(), 0), None);
}

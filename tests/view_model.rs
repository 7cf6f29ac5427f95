use cal365_tui::api::{DateTimeTimeZone, GraphCalendar, GraphEvent};
use cal365_tui::app::{App, ColorCalendar, ColorEvent, CurrentView, EventViewMode, Transition};
use cal365_tui::datetime::{Date, DateTime};
use cal365_tui::notifications::NotificationManager;
use cal365_tui::ordering::sort_events_by_start;
use cal365_tui::theme::{calendar_color, Color, Symbols, Theme};
use cal365_tui::view::{events_on_day, renders_on_day};

fn date(y: i32, m: u32, d: u32) -> Date {
    Date::from_ymd(y, m, d).unwrap()
}

fn at(y: i32, m: u32, d: u32, h: u32, mi: u32) -> DateTime {
    DateTime { date: date(y, m, d), hour: h, minute: mi, second: 0 }
}

fn stamp(s: &str) -> DateTimeTimeZone {
    DateTimeTimeZone { date_time: s.to_string(), _time_zone: "UTC".to_string() }
}

fn event(id: &str, start: &str, end: &str, subject: &str) -> ColorEvent {
    ColorEvent {
        event: GraphEvent {
            id: id.to_string(),
            subject: subject.to_string(),
            start: stamp(start),
            end: stamp(end),
            body: None,
            attendees: Vec::new(),
            location: None,
            organizer: None,
        },
        color: Color::White,
    }
}

fn calendar(id: &str, name: &str, share: Option<bool>) -> ColorCalendar {
    ColorCalendar {
        calendar: GraphCalendar { id: id.to_string(), name: name.to_string(), can_share: share },
        color: Color::White,
    }
}

fn app() -> App {
    App::new(
        "X".to_string(),
        "token".to_string(),
        Theme::default_theme(),
        Symbols::ascii(),
        NotificationManager::new(true, 15),
        date(2025, 3, 14),
    )
}

#[test]
fn new_client_opens_on_calendar_list() {
    let mut a = app();
    a.calendars.push(calendar("a", "Work", Some(true)));
    a.calendars.push(calendar("b", "Personal", None));
    assert_eq!(a.current_view, CurrentView::Calendars);
    assert_eq!(a.calendar_selected, Some(0));
    assert_eq!(a.event_selected, None);
    assert_eq!(a.event_view_mode, EventViewMode::List);
    assert_eq!(a.transition, None);
}

#[test]
fn calendar_colors_cycle_through_palette() {
    assert_eq!(calendar_color(0), Color::Rgb(203, 166, 247));
    assert_eq!(calendar_color(11), Color::Rgb(180, 190, 254));
    assert_eq!(calendar_color(12), calendar_color(0));
    assert_eq!(calendar_color(25), calendar_color(1));
}

#[test]
fn selection_wraps_in_both_directions() {
    let mut a = app();
    a.calendars.push(calendar("a", "Work", Some(true)));
    // calendar list: 3 rows
    a.next_item();
    a.next_item();
    assert_eq!(a.calendar_selected, Some(2));
    a.next_item();
    assert_eq!(a.calendar_selected, Some(0));
    a.previous_item();
    assert_eq!(a.calendar_selected, Some(2));
    for _ in 0..17 {
        a.previous_item();
        assert!(a.calendar_selected.unwrap() < 3);
    }
    a.current_view = CurrentView::Events;
    a.next_item();
    assert_eq!(a.event_selected, None);
    a.events.push(event("e1", "2025-03-14T09:00:00", "2025-03-14T10:00:00", "A"));
    a.events.push(event("e2", "2025-03-15T09:00:00", "2025-03-15T10:00:00", "B"));
    a.previous_item();
    assert_eq!(a.event_selected, Some(1));
    a.next_item();
    assert_eq!(a.event_selected, Some(0));
}

#[test]
fn toggling_five_times_returns_to_the_start() {
    let mut a = app();
    let mut seen = Vec::new();
    for k in 0..5u64 {
        a.toggle_event_view(k);
        seen.push(a.event_view_mode);
    }
    assert_eq!(
        seen,
        vec![
            EventViewMode::Week,
            EventViewMode::WorkWeek,
            EventViewMode::Day,
            EventViewMode::Month,
            EventViewMode::List
        ]
    );
    assert_eq!(a.transition, Some(Transition { start_ms: 4, duration_ms: 300 }));
}

#[test]
fn month_and_week_steps_move_the_displayed_date() {
    let mut a = app();
    a.next_month();
    assert_eq!(a.displayed_date, date(2025, 4, 1));
    a.previous_month();
    a.previous_month();
    assert_eq!(a.displayed_date, date(2025, 2, 1));
    a.next_week();
    assert_eq!(a.displayed_date, date(2025, 2, 8));
    a.previous_week();
    a.previous_week();
    assert_eq!(a.displayed_date, date(2025, 1, 25));
    a.next_day();
    assert_eq!(a.displayed_date, date(2025, 1, 26));
    a.previous_day();
    assert_eq!(a.displayed_date, date(2025, 1, 25));
}

#[test]
fn scrolling_saturates() {
    let mut a = app();
    a.scroll_up();
    assert_eq!(a.detail_view_scroll, 0);
    a.scroll_down();
    a.scroll_down();
    a.scroll_up();
    assert_eq!(a.detail_view_scroll, 1);
    a.detail_view_scroll = u16::MAX;
    a.scroll_down();
    assert_eq!(a.detail_view_scroll, u16::MAX);
}

fn day_list() -> Vec<ColorEvent> {
    vec![
        event("a", "2025-03-12T09:00:00", "2025-03-12T10:00:00", "A"),
        event("b", "2025-03-13T08:00:00", "2025-03-13T09:00:00", "B"),
        event("c", "2025-03-13T11:00:00", "2025-03-13T12:00:00", "C"),
        event("d", "2025-03-15T09:00:00", "2025-03-15T10:00:00", "D"),
    ]
}

#[test]
fn jumps_between_days() {
    let mut a = app();
    a.events = day_list();
    a.event_selected = Some(1);
    a.jump_to_next_day();
    assert_eq!(a.event_selected, Some(3));
    a.jump_to_next_day();
    assert_eq!(a.event_selected, Some(3));
    a.jump_to_previous_day();
    assert_eq!(a.event_selected, Some(1));
    a.event_selected = Some(2);
    a.jump_to_previous_day();
    assert_eq!(a.event_selected, Some(0));
    a.jump_to_previous_day();
    assert_eq!(a.event_selected, Some(0));
    a.event_selected = None;
    a.jump_to_next_day();
    assert_eq!(a.event_selected, None);
}

#[test]
fn nearest_event_is_selected_and_shown() {
    let mut a = app();
    a.events = day_list();
    a.select_nearest_event(at(2025, 3, 13, 10, 40));
    assert_eq!(a.event_selected, Some(2));
    assert_eq!(a.displayed_date, date(2025, 3, 13));
    a.events.clear();
    a.select_nearest_event(at(2025, 3, 13, 10, 40));
    assert_eq!(a.event_selected, None);
}

#[test]
fn nearest_event_with_unreadable_starts_is_the_first() {
    let mut a = app();
    a.events = vec![event("x", "junk", "junk", "X"), event("y", "junk", "junk", "Y")];
    a.select_nearest_event(at(2025, 3, 13, 10, 40));
    assert_eq!(a.event_selected, Some(0));
    assert_eq!(a.displayed_date, date(2025, 3, 14));
}

#[test]
fn midnight_end_belongs_to_the_previous_day() {
    let e = event("m", "2025-03-14T10:00:00", "2025-03-15T00:00:00", "M");
    assert!(renders_on_day(&e, date(2025, 3, 14)));
    assert!(!renders_on_day(&e, date(2025, 3, 15)));
    assert!(!renders_on_day(&e, date(2025, 3, 13)));
    let long = event("l", "2025-03-14T10:00:00", "2025-03-16T12:00:00", "L");
    assert!(renders_on_day(&long, date(2025, 3, 14)));
    assert!(renders_on_day(&long, date(2025, 3, 15)));
    assert!(renders_on_day(&long, date(2025, 3, 16)));
    assert!(!renders_on_day(&long, date(2025, 3, 17)));
    let same_day = event("s", "2025-03-14T00:00:00", "2025-03-14T00:00:00", "S");
    assert!(renders_on_day(&same_day, date(2025, 3, 14)));
}

#[test]
fn events_on_day_lists_positions_in_order() {
    let evs = vec![
        event("a", "2025-03-12T09:00:00", "2025-03-14T10:00:00", "A"),
        event("b", "2025-03-13T08:00:00", "2025-03-13T09:00:00", "B"),
        event("c", "2025-03-14T11:00:00", "2025-03-14T12:00:00", "C"),
    ];
    assert_eq!(events_on_day(&evs, date(2025, 3, 13)), vec![0, 1]);
    assert_eq!(events_on_day(&evs, date(2025, 3, 14)), vec![0, 2]);
    assert_eq!(events_on_day(&evs, date(2025, 3, 16)), Vec::<usize>::new());
}

#[test]
fn sorting_orders_by_start_text() {
    let evs = vec![
        event("c", "2025-03-15T09:00:00", "x", "C"),
        event("a", "2025-03-13T09:00:00", "x", "A"),
        event("b", "2025-03-13T09:00:00.5", "x", "B"),
        event("d", "2025-03-01T00:00:00", "x", "D"),
    ];
    let sorted = sort_events_by_start(evs);
    let ids: Vec<String> = sorted.iter().map(|e| e.event.id.clone()).collect();
    assert_eq!(ids, vec!["d", "a", "b", "c"]);
    assert!(sort_events_by_start(Vec::new()).is_empty());
}

#[test]
fn sorting_keeps_equal_starts_in_order() {
    let evs = vec![
        event("x1", "2025-03-13T09:00:00", "x", "X1"),
        event("early", "2025-03-01T09:00:00", "x", "E"),
        event("x2", "2025-03-13T09:00:00", "x", "X2"),
        event("x3", "2025-03-13T09:00:00", "x", "X3"),
    ];
    let ids: Vec<String> = sort_events_by_start(evs).iter().map(|e| e.event.id.clone()).collect();
    assert_eq!(ids, vec!["early", "x1", "x2", "x3"]);
}

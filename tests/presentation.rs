use cal365_tui::api::{Attendee, DateTimeTimeZone, EmailAddress, GraphEvent, ItemBody, Location, Organizer};
use cal365_tui::app::{App, ColorEvent, CurrentView, EventViewMode};
use cal365_tui::config::{ConfigSymbols, ConfigTheme};
use cal365_tui::datetime::{Date, DateTime};
use cal365_tui::detail::{attendees_text, description_text, location_text, organizer_text};
use cal365_tui::labels::{event_list_line, footer_title, format_list_line, tab_index, tab_label};
use cal365_tui::notifications::NotificationManager;
use cal365_tui::text::{format_dd_mm_yyyy, format_hh_mm};
use cal365_tui::theme::{parse_color, Color, Symbols, Theme};
use cal365_tui::wrap::wrapped_height;

fn date(y: i32, m: u32, d: u32) -> Date {
    Date::from_ymd(y, m, d).unwrap()
}

fn at(y: i32, m: u32, d: u32, h: u32, mi: u32) -> DateTime {
    DateTime { date: date(y, m, d), hour: h, minute: mi, second: 0 }
}

fn stamp(s: &str) -> DateTimeTimeZone {
    DateTimeTimeZone { date_time: s.to_string(), _time_zone: "UTC".to_string() }
}

fn graph_event(id: &str, start: &str, subject: &str) -> GraphEvent {
    GraphEvent {
        id: id.to_string(),
        subject: subject.to_string(),
        start: stamp(start),
        end: stamp(start),
        body: None,
        attendees: Vec::new(),
        location: None,
        organizer: None,
    }
}

fn app() -> App {
    App::new(
        "X".to_string(),
        "token".to_string(),
        Theme::default_theme(),
        Symbols::ascii(),
        NotificationManager::new(true, 15),
        date(2025, 3, 14),
    )
}

#[test]
fn reminder_fires_once_per_event() {
    let mut n = NotificationManager::new(true, 15);
    let events = vec![
        graph_event("e1", "2025-03-14T09:10:00", "Standup"),
        graph_event("e2", "2025-03-14T09:30:00", "Later"),
        graph_event("e3", "2025-03-14T08:50:00", "Earlier"),
        graph_event("e4", "garbage", "Broken"),
    ];
    let now = at(2025, 3, 14, 9, 0);
    let first = n.check_and_notify(&events, now);
    assert_eq!(first.len(), 1);
    assert_eq!(first[0].title, "Standup");
    assert_eq!(first[0].event_index, 0);
    assert!(first[0].body.starts_with("Starting at "));
    assert_eq!(first[0].body.len(), 17);
    assert!(n.check_and_notify(&events, now).is_empty());
    assert!(n.check_and_notify(&events, now).is_empty());
    assert!(n.check_and_notify(&events, at(2025, 3, 14, 9, 11)).is_empty());
    let later = n.check_and_notify(&events, at(2025, 3, 14, 9, 20));
    assert_eq!(later.len(), 1);
    assert_eq!(later[0].title, "Later");
}

#[test]
fn reminder_window_edges() {
    let events = vec![
        graph_event("now", "2025-03-14T09:00:00", "At now"),
        graph_event("edge", "2025-03-14T09:15:00", "At edge"),
        graph_event("past", "2025-03-14T09:15:01", "Past edge"),
        graph_event("edge", "2025-03-14T09:15:00", "Duplicate id"),
    ];
    let mut n = NotificationManager::new(true, 15);
    let r = n.check_and_notify(&events, at(2025, 3, 14, 9, 0));
    let titles: Vec<&str> = r.iter().map(|x| x.title.as_str()).collect();
    assert_eq!(titles, vec!["At edge"]);
    let mut off = NotificationManager::new(false, 15);
    assert!(off.check_and_notify(&events, at(2025, 3, 14, 9, 0)).is_empty());
}

#[test]
fn time_formats() {
    assert_eq!(format_hh_mm(at(2025, 3, 14, 9, 5)), "09:05");
    assert_eq!(format_dd_mm_yyyy(date(2025, 3, 4)), "04/03/2025");
    assert_eq!(
        format_list_line(at(2025, 3, 14, 9, 5), at(2025, 3, 14, 10, 30), "Standup"),
        "14/03 | 09:05 - 10:30 | Standup"
    );
    let bad = ColorEvent { event: graph_event("x", "nope", "Broken"), color: Color::White };
    assert_eq!(event_list_line(&bad), "[Invalid Date] | Broken");
}

#[test]
fn footer_titles() {
    let mut a = app();
    assert_eq!(footer_title(&a), " Calendars ");
    a.current_view = CurrentView::Events;
    assert_eq!(footer_title(&a), " < All Calendars > ");
    a.event_view_mode = EventViewMode::Month;
    assert_eq!(footer_title(&a), " < All Calendars - March 2025 > ");
    a.event_view_mode = EventViewMode::Week;
    assert_eq!(footer_title(&a), " < All Calendars (09/03 to 15/03) > ");
    a.event_view_mode = EventViewMode::WorkWeek;
    assert_eq!(footer_title(&a), " < All Calendars (10/03 to 14/03) > ");
    a.event_view_mode = EventViewMode::Day;
    assert_eq!(footer_title(&a), " < All Calendars (Fri, 14 Mar 2025) > ");
    a.current_calendar_id = Some("MY_CALENDARS".to_string());
    a.event_view_mode = EventViewMode::List;
    assert_eq!(footer_title(&a), " < My Calendars > ");
}

#[test]
fn tabs() {
    let a = app();
    assert_eq!(tab_label(&a, 0), " [C] Cals ");
    assert_eq!(tab_label(&a, 2), " [T] Week ");
    assert_eq!(tab_index(CurrentView::Calendars, EventViewMode::Day), 0);
    assert_eq!(tab_index(CurrentView::EventDetail, EventViewMode::Month), 5);
}

#[test]
fn colours_parse_from_hex() {
    assert_eq!(parse_color("#ff8000"), Color::Rgb(255, 128, 0));
    assert_eq!(parse_color("#1E1E2E"), Color::Rgb(30, 30, 46));
    assert_eq!(parse_color("#zz0010"), Color::Rgb(255, 0, 16));
    assert_eq!(parse_color("ff8000"), Color::White);
    assert_eq!(parse_color("#ff80"), Color::White);
    assert_eq!(parse_color("#aaaaa\u{e9}"), Color::White);
    assert_eq!(parse_color("#ab\u{e9}cd"), Color::White);
}

#[test]
fn themes_by_name() {
    let custom = ConfigTheme {
        background: "#000000".to_string(),
        foreground: "#ffffff".to_string(),
        yellow: "bad".to_string(),
        ..ConfigTheme::default()
    };
    let themes = Some(vec![("mine".to_string(), custom)]);
    let t = Theme::from_string("MINE", &themes);
    assert_eq!(t.background, Color::Rgb(0, 0, 0));
    assert_eq!(t.foreground, Color::Rgb(255, 255, 255));
    assert_eq!(t.yellow, Color::White);
    assert_eq!(Theme::from_string("other", &themes), Theme::default_theme());
    assert_eq!(Theme::from_string("mine", &None), Theme::default_theme());
    assert_eq!(Theme::catppuccin_mocha().background, Color::Rgb(30, 30, 46));
}

#[test]
fn symbol_sets_by_name() {
    let s = Symbols::from_string("ASCII", &None);
    assert_eq!(s.left_arrow, "<");
    let s = Symbols::from_string("Unicode", &None);
    assert_eq!(s.help, "?");
    let s = Symbols::from_string("whatever", &None);
    assert_eq!(s.help, "\u{f128}");
    let custom = ConfigSymbols { help: Some("H".to_string()), ..ConfigSymbols::default() };
    let fonts = Some(vec![("mine".to_string(), custom)]);
    let s = Symbols::from_string("mine", &fonts);
    assert_eq!(s.help, "H");
    assert_eq!(s.left_arrow, "\u{f060}");
}

#[test]
fn wrapping_counts_lines() {
    assert_eq!(wrapped_height("aaa bbb ccc", 7), 2);
    assert_eq!(wrapped_height("aaa bbb ccc", 11), 1);
    assert_eq!(wrapped_height("aaaaaaaaaa b", 4), 3);
    assert_eq!(wrapped_height("", 5), 1);
    assert_eq!(wrapped_height("anything", 0), 1);
    assert_eq!(wrapped_height("\u{25a0} 10:00-11:00 Standup", 8), 3);
}

#[test]
fn detail_texts() {
    let mut e = graph_event("x", "2025-03-14T09:00:00", "S");
    assert_eq!(location_text(&e), "N/A");
    assert_eq!(organizer_text(&e), "N/A");
    assert_eq!(attendees_text(&e), "None");
    assert_eq!(description_text(&e, 40), None);
    e.location = Some(Location { display_name: "Room 1".to_string() });
    e.organizer = Some(Organizer {
        email_address: EmailAddress { name: "Ann".to_string(), address: "ann@x.org".to_string() },
    });
    e.attendees = vec![
        Attendee { email_address: Some(EmailAddress { name: "Bo".to_string(), address: "b@x".to_string() }) },
        Attendee { email_address: None },
        Attendee { email_address: Some(EmailAddress { name: "Cy".to_string(), address: "c@x".to_string() }) },
    ];
    assert_eq!(location_text(&e), "Room 1");
    assert_eq!(organizer_text(&e), "Ann <ann@x.org>");
    assert_eq!(attendees_text(&e), "Bo, ?, Cy");
    e.body = Some(ItemBody { content: String::new() });
    assert_eq!(description_text(&e, 40), Some("None".to_string()));
    e.body = Some(ItemBody { content: "<p>Hello <b>there</b></p>".to_string() });
    let d = description_text(&e, 40).unwrap();
    assert!(d.contains("Hello"));
    assert!(!d.contains('<'));
}

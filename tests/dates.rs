use cal365_tui::clock::parse_date_time;
use cal365_tui::datetime::{Date, DateTime};
use cal365_tui::app::EventViewMode;
use cal365_tui::view::{get_view_date_range, layout_start, month_cell_date, month_grid_start};

fn date(y: i32, m: u32, d: u32) -> Date {
    Date::from_ymd(y, m, d).unwrap()
}

#[test]
fn from_ymd_rejects_impossible_days() {
    assert!(Date::from_ymd(2024, 2, 29).is_some());
    assert!(Date::from_ymd(2025, 2, 29).is_none());
    assert!(Date::from_ymd(1900, 2, 29).is_none());
    assert!(Date::from_ymd(2000, 2, 29).is_some());
    assert!(Date::from_ymd(2025, 13, 1).is_none());
    assert!(Date::from_ymd(2025, 4, 31).is_none());
    assert!(Date::from_ymd(0, 1, 1).is_none());
}

#[test]
fn succ_and_pred_cross_month_and_year() {
    assert_eq!(date(2025, 3, 31).succ(), Some(date(2025, 4, 1)));
    assert_eq!(date(2025, 12, 31).succ(), Some(date(2026, 1, 1)));
    assert_eq!(date(2024, 2, 28).succ(), Some(date(2024, 2, 29)));
    assert_eq!(date(2025, 3, 1).pred(), Some(date(2025, 2, 28)));
    assert_eq!(date(2025, 1, 1).pred(), Some(date(2024, 12, 31)));
    assert_eq!(date(9999, 12, 31).succ(), None);
    assert_eq!(date(1, 1, 1).pred(), None);
}

#[test]
fn weekdays_count_from_monday() {
    assert_eq!(date(2025, 3, 14).weekday(), 4);
    assert_eq!(date(2025, 3, 9).weekday(), 6);
    assert_eq!(date(1, 1, 1).weekday(), 0);
    assert_eq!(date(2000, 1, 1).weekday(), 5);
}

#[test]
fn add_days_and_week_starts() {
    assert_eq!(date(2025, 3, 14).add_days(20), Some(date(2025, 4, 3)));
    assert_eq!(date(2025, 3, 14).sub_days(14), Some(date(2025, 2, 28)));
    assert_eq!(date(2025, 3, 14).week_start(6), Some(date(2025, 3, 9)));
    assert_eq!(date(2025, 3, 14).week_start(0), Some(date(2025, 3, 10)));
    assert_eq!(date(2025, 3, 9).week_start(6), Some(date(2025, 3, 9)));
}

#[test]
fn month_steps() {
    assert_eq!(date(2025, 12, 14).next_month_start(), Some(date(2026, 1, 1)));
    assert_eq!(date(2025, 1, 14).previous_month_start(), Some(date(2024, 12, 1)));
    assert_eq!(date(9999, 12, 1).next_month_start(), None);
}

#[test]
fn list_range_covers_the_month() {
    let (s, e) = get_view_date_range(EventViewMode::List, date(2025, 3, 14)).unwrap();
    assert_eq!(s, DateTime::midnight(date(2025, 3, 1)));
    assert_eq!(e, DateTime::midnight(date(2025, 4, 1)));
}

#[test]
fn ranges_have_their_lengths() {
    let d = date(2025, 3, 14);
    let (s, e) = get_view_date_range(EventViewMode::Week, d).unwrap();
    assert_eq!((s.date, e.date), (date(2025, 3, 9), date(2025, 3, 16)));
    let (s, e) = get_view_date_range(EventViewMode::WorkWeek, d).unwrap();
    assert_eq!((s.date, e.date), (date(2025, 3, 10), date(2025, 3, 15)));
    let (s, e) = get_view_date_range(EventViewMode::Day, d).unwrap();
    assert_eq!((s.date, e.date), (date(2025, 3, 14), date(2025, 3, 15)));
    let (s, e) = get_view_date_range(EventViewMode::Month, date(2024, 2, 10)).unwrap();
    assert_eq!((s.date, e.date), (date(2024, 2, 1), date(2024, 3, 1)));
    assert_eq!(e.date.day_index() - s.date.day_index(), 29);
    let (s, e) = get_view_date_range(EventViewMode::Month, date(2025, 12, 31)).unwrap();
    assert_eq!(e.date.day_index() - s.date.day_index(), 31);
}

#[test]
fn parses_remote_timestamps() {
    let t = parse_date_time("2025-03-14T10:05:07.0000000").unwrap();
    assert_eq!(t.date, date(2025, 3, 14));
    assert_eq!((t.hour, t.minute, t.second), (10, 5, 7));
    let t = parse_date_time("2025-03-14T09:10:00").unwrap();
    assert_eq!((t.hour, t.minute), (9, 10));
    assert!(parse_date_time("not a time").is_none());
    assert!(parse_date_time("2025-02-30T10:00:00").is_none());
}

#[test]
fn month_grid_starts_on_monday() {
    let g = month_grid_start(date(2025, 3, 14)).unwrap();
    assert_eq!(g, date(2025, 2, 24));
    assert_eq!(month_cell_date(date(2025, 3, 14), 2, 3), Some(date(2025, 3, 13)));
    assert_eq!(month_cell_date(date(2025, 3, 14), 0, 5), Some(date(2025, 3, 1)));
}

#[test]
fn ranges_at_the_edges_of_the_calendar() {
    assert!(get_view_date_range(EventViewMode::List, date(9999, 12, 5)).is_none());
    assert!(get_view_date_range(EventViewMode::Month, date(9999, 11, 5)).is_some());
    assert!(get_view_date_range(EventViewMode::Day, date(9999, 12, 31)).is_none());
    let (s, e) = get_view_date_range(EventViewMode::List, date(1, 1, 1)).unwrap();
    assert_eq!((s.date, e.date), (date(1, 1, 1), date(1, 2, 1)));
    assert!(get_view_date_range(EventViewMode::Week, date(1, 1, 3)).is_none());
    let (s, _) = get_view_date_range(EventViewMode::WorkWeek, date(1, 1, 3)).unwrap();
    assert_eq!(s.date, date(1, 1, 1));
}

#[test]
fn layout_starts() {
    assert_eq!(layout_start(EventViewMode::Week, date(2025, 3, 14)), Some(date(2025, 3, 9)));
    assert_eq!(layout_start(EventViewMode::WorkWeek, date(2025, 3, 16)), Some(date(2025, 3, 10)));
    assert_eq!(layout_start(EventViewMode::Day, date(2025, 3, 14)), Some(date(2025, 3, 14)));
    assert_eq!(layout_start(EventViewMode::Month, date(2025, 3, 14)), Some(date(2025, 3, 14)));
}

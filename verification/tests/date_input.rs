use chrono::{Datelike, NaiveDate};
use mealie_cli::date_input::{
    date_input_supported, monday_of_week, parse_date_input, resolve_plan_range,
    resolve_plan_range_checked, sunday_of_week, Date,
};
use mealie_cli::ErrorCode;

fn date(value: &str) -> Date {
    let d = NaiveDate::parse_from_str(value, "%Y-%m-%d").expect("valid test date");
    Date::from_days_from_ce(d.num_days_from_ce()).expect("date in range")
}

fn text(d: Date) -> String {
    d.to_text()
}

#[test]
fn parses_iso_dates_and_relative_dates_across_boundaries() {
    let today = date("2024-02-29");

    assert_eq!(
        parse_date_input("--date", "2024-12-31", today).unwrap(),
        date("2024-12-31")
    );
    assert_eq!(parse_date_input("--date", "today", today).unwrap(), today);
    assert_eq!(
        parse_date_input("--date", "tomorrow", today).unwrap(),
        date("2024-03-01")
    );
    assert_eq!(
        parse_date_input("--date", "yesterday", today).unwrap(),
        date("2024-02-28")
    );
    assert_eq!(
        parse_date_input("--date", "+1d", date("2024-12-31")).unwrap(),
        date("2025-01-01")
    );
    assert_eq!(
        parse_date_input("--date", "-1w", date("2025-01-03")).unwrap(),
        date("2024-12-27")
    );
}

#[test]
fn rejects_invalid_or_locale_dependent_dates() {
    let today = date("2026-05-13");
    for value in ["2026-99-99", "next Friday", "+d", "1d", "+1m", " +1d"] {
        assert!(date_input_supported(value));
        let error = parse_date_input("--date", value, today)
            .err()
            .expect("invalid date input");
        assert_eq!(error.code(), ErrorCode::InvalidArgs);
        assert!(error.to_string().contains("YYYY-MM-DD"));
    }
}

#[test]
fn resolves_default_and_single_boundary_ranges_using_iso_weeks() {
    let today = date("2026-01-01"); // Thursday
    assert_eq!(
        resolve_plan_range(None, None, today).unwrap(),
        (today, date("2026-01-04"))
    );
    assert_eq!(
        resolve_plan_range(Some("2025-12-31"), None, today).unwrap(),
        (date("2025-12-31"), date("2026-01-04"))
    );
    assert_eq!(
        resolve_plan_range(None, Some("2026-01-04"), today).unwrap(),
        (date("2025-12-29"), date("2026-01-04"))
    );
}

#[test]
fn rejects_resolved_reversed_ranges() {
    let error = resolve_plan_range(Some("+1d"), Some("yesterday"), date("2026-05-13"))
        .err()
        .expect("reversed range");

    assert_eq!(error.code(), ErrorCode::InvalidArgs);
    assert_eq!(
        error.to_string(),
        "--from (2026-05-14) must be on or before --to (2026-05-12)"
    );
}

#[test]
fn invalid_dates_name_the_flag_and_the_value() {
    let error = parse_date_input("--from", "2026-99-99", date("2026-05-13"))
        .err()
        .expect("invalid date");

    assert_eq!(
        error.to_string(),
        "--from must use YYYY-MM-DD, today, tomorrow, yesterday, or a signed offset such as +2d or -1w (got \"2026-99-99\")"
    );
    assert_eq!(error.exit_code(), 2);
}

#[test]
fn week_offsets_and_explicit_plus_signs() {
    let today = date("2026-05-13");

    assert_eq!(text(parse_date_input("--date", "+2w", today).unwrap()), "2026-05-27");
    assert_eq!(text(parse_date_input("--date", "-0d", today).unwrap()), "2026-05-13");
    assert_eq!(text(parse_date_input("--date", "-13d", today).unwrap()), "2026-04-30");
}

#[test]
fn weeks_run_from_monday_to_sunday() {
    let wednesday = date("2026-05-13");

    assert_eq!(text(monday_of_week(wednesday)), "2026-05-11");
    assert_eq!(text(sunday_of_week(wednesday)), "2026-05-17");
    let monday = date("2026-05-11");
    assert_eq!(monday_of_week(monday), monday);
    let sunday = date("2026-05-17");
    assert_eq!(sunday_of_week(sunday), sunday);
}

#[test]
fn dates_render_as_iso_text() {
    assert_eq!(text(date("2024-02-29")), "2024-02-29");
    assert_eq!(date("0001-01-01").days_from_ce(), 1);
    assert_eq!(
        date("2026-05-13").days_from_ce(),
        NaiveDate::from_ymd_opt(2026, 5, 13).unwrap().num_days_from_ce()
    );
}

#[test]
fn dates_outside_the_calendar_are_refused() {
    assert!(Date::from_days_from_ce(i32::MAX).is_none());
    assert!(Date::from_days_from_ce(i32::MIN).is_none());
}

#[test]
fn offsets_too_large_for_a_duration_are_outside_the_domain() {
    assert!(!date_input_supported("+999999999999999d"));
    assert!(date_input_supported("+1d"));
    assert!(!date_input_supported("+1é"));
    assert!(
        resolve_plan_range_checked(Some("+999999999999999d"), None, date("2026-05-13")).is_none()
    );
}

#[test]
fn offsets_past_the_calendar_are_invalid_dates() {
    let error = parse_date_input("--date", "+99999999999d", date("2026-05-13"))
        .err()
        .expect("beyond the calendar");

    assert_eq!(error.code(), ErrorCode::InvalidArgs);
}

#[test]
fn checked_range_resolves_like_the_plain_one() {
    let today = date("2026-05-13");
    let checked = resolve_plan_range_checked(Some("-1w"), Some("-1d"), today)
        .expect("defined")
        .expect("valid range");

    assert_eq!(text(checked.0), "2026-05-06");
    assert_eq!(text(checked.1), "2026-05-12");
}

#[test]
fn signed_offsets_move_today_by_days_or_weeks() {
    let today = date("2026-05-13");

    assert_eq!(text(parse_date_input("--date", "+10d", today).unwrap()), "2026-05-23");
    assert_eq!(text(parse_date_input("--date", "-3w", today).unwrap()), "2026-04-22");
}

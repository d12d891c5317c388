use alarm_clock::{calculate_time, is_valid_date, parse_date_time};

fn dt(s: &str) -> alarm_clock::DateTime {
    parse_date_time(s).unwrap()
}

#[test]
fn same_day_past_time_is_rejected() {
    let current = dt("2024-01-01 10:00:00");
    assert!(!is_valid_date(&dt("2024-01-01 09:00:00"), current));
    assert!(!is_valid_date(&dt("2024-01-01 09:59:59"), current));
    assert!(!is_valid_date(&dt("2024-01-01 10:00:00"), current));
}

#[test]
fn same_day_future_time_is_accepted() {
    let current = dt("2024-01-01 10:00:00");
    assert!(is_valid_date(&dt("2024-01-01 10:00:01"), current));
    assert!(is_valid_date(&dt("2024-01-01 23:59:59"), current));
}

#[test]
fn next_day_any_time_is_accepted() {
    let current = dt("2024-01-01 10:00:00");
    assert!(is_valid_date(&dt("2024-01-02 00:00:00"), current));
    assert!(is_valid_date(&dt("2024-01-02 09:00:00"), current));
    assert!(is_valid_date(&dt("2024-01-02 23:59:59"), current));
}

#[test]
fn two_days_ahead_is_rejected() {
    let current = dt("2024-01-01 10:00:00");
    assert!(!is_valid_date(&dt("2024-01-03 10:00:00"), current));
    assert!(!is_valid_date(&dt("2024-02-01 10:00:00"), current));
    assert!(!is_valid_date(&dt("2025-01-01 10:00:00"), current));
}

#[test]
fn earlier_dates_are_rejected() {
    let current = dt("2024-01-01 10:00:00");
    assert!(!is_valid_date(&dt("2023-12-31 10:00:00"), current));
    assert!(!is_valid_date(&dt("2023-01-01 10:00:00"), current));
}

#[test]
fn next_day_crosses_month_and_year_ends() {
    assert!(is_valid_date(&dt("2024-02-01 00:00:00"), dt("2024-01-31 22:00:00")));
    assert!(is_valid_date(&dt("2025-01-01 00:00:00"), dt("2024-12-31 22:00:00")));
    assert!(is_valid_date(&dt("2024-02-29 08:00:00"), dt("2024-02-28 22:00:00")));
    assert!(is_valid_date(&dt("2023-03-01 08:00:00"), dt("2023-02-28 22:00:00")));
    assert!(!is_valid_date(&dt("2024-03-01 08:00:00"), dt("2024-02-28 22:00:00")));
}

#[test]
fn last_supported_day_accepts_only_later_times() {
    let current = dt("9999-12-31 12:00:00");
    assert!(is_valid_date(&dt("9999-12-31 12:00:01"), current));
    assert!(!is_valid_date(&dt("9999-12-31 11:00:00"), current));
}

#[test]
fn five_second_wait_is_exact() {
    let current = dt("2024-01-01 10:00:00");
    let target = dt("2024-01-01 10:00:05");
    let duration = calculate_time(target, current).unwrap();
    assert_eq!(duration.num_seconds(), 5);
    assert_eq!(duration.num_hours(), 0);
    assert_eq!(duration.num_minutes() % 60, 0);
    assert_eq!(duration.num_seconds() % 60, 5);
}

#[test]
fn wait_across_midnight_is_exact() {
    let current = dt("2024-01-01 23:59:58");
    let target = dt("2024-01-02 00:00:02");
    assert!(is_valid_date(&target, current));
    let duration = calculate_time(target, current).unwrap();
    assert_eq!(duration.num_seconds(), 4);
}

#[test]
fn wait_splits_into_hours_minutes_seconds() {
    let current = dt("2024-01-01 10:00:00");
    let target = dt("2024-01-02 11:01:30");
    let duration = calculate_time(target, current).unwrap();
    assert_eq!(duration.num_hours(), 25);
    assert_eq!(duration.num_minutes() % 60, 1);
    assert_eq!(duration.num_seconds() % 60, 30);
    assert_eq!(duration.num_seconds(), 25 * 3600 + 90);
}

#[test]
fn wait_across_leap_day_counts_the_extra_day() {
    let current = dt("2024-02-28 12:00:00");
    let target = dt("2024-02-29 12:00:00");
    let duration = calculate_time(target, current).unwrap();
    assert_eq!(duration.num_seconds(), 86400);
}

#[test]
fn past_or_present_target_has_no_wait() {
    let current = dt("2024-01-01 10:00:00");
    assert!(calculate_time(dt("2024-01-01 10:00:00"), current).is_none());
    assert!(calculate_time(dt("2024-01-01 09:59:59"), current).is_none());
    assert!(calculate_time(dt("2023-12-31 10:00:00"), current).is_none());
}

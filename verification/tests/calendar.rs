use stars::calendar::{days_in_month, is_leap_year, is_valid_day, is_weekend, MONTH_LABELS};

#[test]
fn leap_years() {
    assert!(is_leap_year(2024));
    assert!(is_leap_year(2000));
    assert!(!is_leap_year(1900));
    assert!(!is_leap_year(2023));
}

#[test]
fn days_per_month() {
    assert_eq!(days_in_month(2024, 2), 29);
    assert_eq!(days_in_month(2023, 2), 28);
    assert_eq!(days_in_month(2024, 4), 30);
    assert_eq!(days_in_month(2024, 1), 31);
    assert_eq!(days_in_month(2024, 13), 0);
    assert_eq!(days_in_month(2024, 0), 0);
}

#[test]
fn weekends() {
    // 2026-08-29 Sat, 2026-08-30 Sun, 2026-08-31 Mon.
    assert!(is_weekend(2026, 8, 29));
    assert!(is_weekend(2026, 8, 30));
    assert!(!is_weekend(2026, 8, 31));
    // Non-existent date is not a weekend.
    assert!(!is_weekend(2026, 2, 30));
}

#[test]
fn valid_days() {
    assert!(is_valid_day(2024, 2, 29));
    assert!(!is_valid_day(2023, 2, 29));
    assert!(!is_valid_day(2024, 4, 31));
    assert!(is_valid_day(2024, 12, 31));
    assert!(!is_valid_day(2024, 1, 0));
}

#[test]
fn negative_leap_years_follow_the_same_rule() {
    assert!(is_leap_year(-4));
    assert!(is_leap_year(-400));
    assert!(!is_leap_year(-100));
    assert!(!is_leap_year(-1));
    assert!(is_leap_year(0));
}

#[test]
fn february_29_only_in_leap_years() {
    for year in [1900, 1999, 2000, 2023, 2024, 2100] {
        assert_eq!(is_valid_day(year, 2, 29), is_leap_year(year));
    }
}

#[test]
fn month_outside_range_has_no_valid_days() {
    for day in 0..40 {
        assert!(!is_valid_day(2024, 0, day));
        assert!(!is_valid_day(2024, 13, day));
    }
}

#[test]
fn weekend_days_across_a_week() {
    // 2024-01-01 was a Monday.
    let expected = [false, false, false, false, false, true, true];
    for (i, want) in expected.iter().enumerate() {
        assert_eq!(is_weekend(2024, 1, 1 + i as u32), *want);
    }
    // 1970-01-03 was a Saturday; 2000-02-29 a Tuesday.
    assert!(is_weekend(1970, 1, 3));
    assert!(!is_weekend(2000, 2, 29));
    // 0001-01-06 was a Saturday in the proleptic Gregorian calendar.
    assert!(is_weekend(1, 1, 6));
}

#[test]
fn weekend_is_false_outside_the_date_range() {
    assert!(!is_weekend(400000, 1, 1));
    assert!(!is_weekend(-400000, 1, 1));
    assert!(!is_weekend(2026, 13, 1));
}

#[test]
fn month_labels_in_order() {
    assert_eq!(MONTH_LABELS[0], "jan");
    assert_eq!(MONTH_LABELS[11], "dec");
    assert_eq!(MONTH_LABELS.len(), 12);
}

use stars::days::{year_stats, DayStates};
use stars::handlers::toggle::{cell_template_at, check_toggle, toggle_target, TogglePayload};
use stars::store::Board;
use stars::handlers::AppError;
use stars::store::toggle::{after_delete, ToggleStep};
use stars::templates::Stats;
use std::collections::HashSet;

#[test]
fn day_states_store_and_read_back() {
    let mut s = DayStates::new();
    assert_eq!(s.get((3, 15)), None);
    s.insert((3, 15), 1);
    s.insert((15, 3), 2);
    s.insert((3, 15), 2);
    assert_eq!(s.get((3, 15)), Some(2));
    assert_eq!(s.get((15, 3)), Some(2));
    assert_eq!(s.state(1, 1), 0);
    s.insert((u32::MAX, u32::MAX), 1);
    assert_eq!(s.get((u32::MAX, u32::MAX)), Some(1));
    assert_eq!(s.get((u32::MAX, 0)), None);
}

#[test]
fn toggled_days_glow_full() {
    let s = DayStates::from_toggled(&vec![(1, 1), (12, 31)]);
    assert_eq!(s.get((1, 1)), Some(2));
    assert_eq!(s.get((12, 31)), Some(2));
    assert_eq!(s.get((6, 1)), None);
}

#[test]
fn stats_count_only_real_days() {
    let mut s = DayStates::new();
    s.insert((1, 1), 2);
    s.insert((1, 2), 2);
    s.insert((1, 3), 2);
    s.insert((1, 4), 1);
    s.insert((2, 30), 2); // not a day
    s.insert((1, 5), 7); // not a known state
    let st = year_stats(2026, &s);
    assert_eq!(st.true_count, 3);
    assert_eq!(st.true_ratio_pct, 75);
    assert_eq!(st.year_coverage_pct, 1); // 4 of 365 days, rounded down
}

#[test]
fn stats_of_an_empty_and_a_full_year() {
    let st = year_stats(2024, &DayStates::new());
    assert_eq!((st.true_count, st.true_ratio_pct, st.year_coverage_pct), (0, 0, 0));
    let mut s = DayStates::new();
    for m in 1..=12u32 {
        for d in 1..=31u32 {
            s.insert((m, d), if d % 2 == 0 { 1 } else { 2 });
        }
    }
    let st = year_stats(2024, &s);
    assert_eq!(st.year_coverage_pct, 100);
    // Odd days glow full: 16 in each of the seven 31-day months, 15 in each
    // 30-day month and in February 2024.
    assert_eq!(st.true_count, 7 * 16 + 4 * 15 + 15);
    assert_eq!(st.true_ratio_pct, 187 * 100 / 366);
    let _ = Stats::default();
}

/// Runs a toggle against an in-memory table the way the store does: delete
/// the key, then let `after_delete` decide.
fn toggle(table: &mut HashSet<(i64, i32, u32, u32)>, key: (i64, i32, u32, u32)) -> bool {
    let deleted = if table.remove(&key) { 1 } else { 0 };
    match after_delete(deleted) {
        ToggleStep::Finished(on) => on,
        ToggleStep::InsertRow => {
            table.insert(key);
            true
        }
    }
}

#[test]
fn toggle_flips_presence() {
    let mut table = HashSet::new();
    let key = (1, 2026, 3, 15);
    assert!(toggle(&mut table, key)); // on
    assert!(!toggle(&mut table, key)); // off
    assert!(toggle(&mut table, key)); // on again
    assert!(table.contains(&key));
    assert_eq!(after_delete(0), ToggleStep::InsertRow);
    assert_eq!(after_delete(1), ToggleStep::Finished(false));
}

#[test]
fn toggles_accept_only_real_days() {
    let ok = |y, m, d| check_toggle(&TogglePayload { year: y, month: m, day: d });
    assert_eq!(ok(2026, 3, 15), Ok(()));
    assert_eq!(ok(2026, 2, 30), Err(AppError::BadRequest));
    assert_eq!(ok(2024, 2, 29), Ok(()));
    assert_eq!(ok(2026, 13, 1), Err(AppError::BadRequest));
    assert_eq!(ok(2026, 0, 1), Err(AppError::BadRequest));
    assert_eq!(ok(2026, 1, 0), Err(AppError::BadRequest));
}

#[test]
fn toggled_cell_reports_new_state() {
    let p = TogglePayload { year: 2026, month: 8, day: 29 };
    let stats = Stats { true_count: 1, true_ratio_pct: 100, year_coverage_pct: 0 };
    let on = cell_template_at(5, &p, true, stats, (2026, 8, 29));
    assert_eq!(on.state, 2);
    assert!(on.today && on.weekend && on.stats_oob);
    assert_eq!((on.board_id, on.year, on.month, on.day), (5, 2026, 8, 29));
    assert_eq!(on.stats.true_count, 1);
    let off = cell_template_at(5, &p, false, stats, (2026, 8, 30));
    assert_eq!(off.state, 0);
    assert!(!off.today);
}

#[test]
fn toggle_requests_check_the_board_before_the_day() {
    let board = || Board {
        id: 4,
        user_id: 1,
        name: "b".into(),
        created_at: "2025-01-01".into(),
        archived_at: None,
        sort_order: 0,
    };
    let bad_day = TogglePayload { year: 2026, month: 2, day: 30 };
    let good_day = TogglePayload { year: 2026, month: 3, day: 15 };
    assert_eq!(toggle_target(None, &bad_day), Err(AppError::NotFound));
    assert_eq!(toggle_target(None, &good_day), Err(AppError::NotFound));
    assert_eq!(toggle_target(Some(board()), &bad_day), Err(AppError::BadRequest));
    assert_eq!(toggle_target(Some(board()), &good_day), Ok((4, 2026, 3, 15)));
}

use stars::days::DayStates;
use stars::handlers::board::{
    archive_redirect, board_name, build_grid, build_grid_at, index_page, page_kind,
    rename_redirect, select_year, tabs_of, IndexPage, PageKind,
};
use stars::handlers::{board_path, require_board, AppError};
use stars::store::board::parse_leading_year;
use stars::store::Board;

fn board_created(created_at: &str) -> Board {
    Board {
        id: 7,
        user_id: 1,
        name: "b".into(),
        created_at: created_at.into(),
        archived_at: None,
        sort_order: 0,
    }
}

#[test]
fn grid_marks_valid_and_toggled() {
    let board = Board {
        id: 7,
        user_id: 1,
        name: "b".into(),
        created_at: "2025-01-01T00:00:00+00:00".into(),
        archived_at: None,
        sort_order: 0,
    };
    let mut set = DayStates::new();
    set.insert((1u32, 1u32), 2u8); // Jan 1 at full glow
    set.insert((1u32, 2u32), 1u8); // Jan 2 at outline
    let g = build_grid(&board, 2026, &set).unwrap();
    // Feb column: day 29 invalid in 2026 (not leap)
    let feb = &g.columns[1];
    assert!(!feb.cells[28].valid); // index 28 => day 29
    // Jan states carried through
    assert_eq!(g.columns[0].cells[0].state, 2); // day 1 full
    assert_eq!(g.columns[0].cells[1].state, 1); // day 2 outline
    assert_eq!(g.columns[0].cells[2].state, 0); // day 3 cleared
    assert_eq!(g.min_year, 2025);
}

#[test]
fn year_bounds_uses_created_year() {
    let b = Board {
        id: 1,
        user_id: 1,
        name: "x".into(),
        created_at: "2023-05-01T00:00:00+00:00".into(),
        archived_at: None,
        sort_order: 0,
    };
    assert_eq!(b.year_bounds(2026), (2023, 2026));
}

#[test]
fn grid_shape_and_flags() {
    let mut set = DayStates::new();
    set.insert((2, 30), 2); // not a real day: shown invalid, state kept
    set.insert((8, 29), 1);
    let g = build_grid_at(3, 2026, &set, (2024, 2026), (2026, 8, 30));
    assert_eq!(g.board_id, 3);
    assert_eq!(g.year, 2026);
    assert_eq!((g.min_year, g.max_year), (2024, 2026));
    assert_eq!(g.max_days, 31);
    assert!(!g.stats_oob);
    assert_eq!(g.columns.len(), 12);
    for (m, col) in g.columns.iter().enumerate() {
        assert_eq!(col.month, m as u32 + 1);
        assert_eq!(col.cells.len(), 31);
        for (d, cell) in col.cells.iter().enumerate() {
            assert_eq!(cell.day, d as u32 + 1);
        }
    }
    assert_eq!(g.columns[7].label, "aug");
    let aug = &g.columns[7];
    assert!(aug.cells[28].weekend && aug.cells[29].weekend && !aug.cells[30].weekend);
    assert!(aug.cells[29].today);
    assert_eq!(g.columns.iter().flat_map(|c| c.cells.iter()).filter(|c| c.today).count(), 1);
    assert_eq!(aug.cells[28].state, 1);
    let feb = &g.columns[1];
    assert!(!feb.cells[29].valid && !feb.cells[29].weekend);
    assert_eq!(feb.cells[29].state, 2);
    // Only real days count toward the stats: Aug 29 is outlined.
    assert_eq!(g.stats.true_count, 0);
    assert_eq!(g.stats.true_ratio_pct, 0);
    assert_eq!(g.stats.year_coverage_pct, 0);
    let valid: usize = g.columns.iter().flat_map(|c| c.cells.iter()).filter(|c| c.valid).count();
    assert_eq!(valid, 365);
}

#[test]
fn today_is_marked_only_in_its_year() {
    let set = DayStates::new();
    let g = build_grid_at(3, 2025, &set, (2024, 2026), (2026, 8, 30));
    assert!(g.columns.iter().flat_map(|c| c.cells.iter()).all(|c| !c.today));
}

#[test]
fn leap_year_grid_has_february_29() {
    let g = build_grid_at(1, 2024, &DayStates::new(), (2024, 2024), (2024, 1, 1));
    assert!(g.columns[1].cells[28].valid);
    assert!(!g.columns[1].cells[29].valid);
    let valid: usize = g.columns.iter().flat_map(|c| c.cells.iter()).filter(|c| c.valid).count();
    assert_eq!(valid, 366);
}

#[test]
fn created_year_parses_the_first_four_characters() {
    assert_eq!(board_created("1999-12-31T00:00:00Z").created_year(), Some(1999));
    assert_eq!(board_created("+123-01-01").created_year(), Some(123));
    assert_eq!(board_created("-042").created_year(), Some(-42));
    assert_eq!(parse_leading_year("2023"), Some(2023));
    assert_eq!(parse_leading_year("202"), None);
    assert_eq!(parse_leading_year("20x3-01-01"), None);
    assert_eq!(parse_leading_year("+-12"), None);
    assert_eq!(parse_leading_year("é023"), None);
}

#[test]
fn created_year_falls_back_to_a_real_year() {
    let y = board_created("not a date").created_year().unwrap();
    assert!(y >= 2024);
    assert_eq!(board_created("").year_bounds(2030), (2030, 2030));
    assert_eq!(board_created("x").created_year_or(2031), 2031);
    assert_eq!(board_created("2023-05-01").created_year_or(2031), 2023);
}

#[test]
fn year_selection_stays_in_bounds() {
    assert_eq!(select_year(None, (2023, 2026)), 2026);
    assert_eq!(select_year(Some(2024), (2023, 2026)), 2024);
    assert_eq!(select_year(Some(1990), (2023, 2026)), 2023);
    assert_eq!(select_year(Some(3000), (2023, 2026)), 2026);
    // A board created "in the future" shows its creation year.
    assert_eq!(select_year(None, (2030, 2026)), 2030);
    assert_eq!(select_year(Some(2020), (2030, 2026)), 2030);
}

#[test]
fn board_names_are_trimmed() {
    assert_eq!(board_name("  Exercise \n").unwrap(), "Exercise");
    assert_eq!(board_name("Read books").unwrap(), "Read books");
    assert_eq!(board_name("\u{3000}x\u{A0}").unwrap(), "x");
    assert_eq!(board_name("   "), Err(AppError::BadRequest));
    assert_eq!(board_name(""), Err(AppError::BadRequest));
}

#[test]
fn board_paths() {
    assert_eq!(board_path(7), "/boards/7");
    assert_eq!(board_path(0), "/boards/0");
    assert_eq!(board_path(1234567890123), "/boards/1234567890123");
    assert_eq!(board_path(-15), "/boards/-15");
    assert_eq!(board_path(i64::MIN), "/boards/-9223372036854775808");
    assert_eq!(board_path(i64::MAX), "/boards/9223372036854775807");
}

#[test]
fn index_goes_to_most_recent_board_or_empty_state() {
    match index_page(&vec![]) {
        IndexPage::Empty(t) => {
            assert!(t.tabs.is_empty());
            assert_eq!(t.active_id, 0);
        }
        IndexPage::Redirect(_) => panic!("expected the empty state"),
    }
    let mut second = board_created("2024-01-01");
    second.id = 9;
    match index_page(&vec![board_created("2024-01-01"), second]) {
        IndexPage::Redirect(path) => assert_eq!(path, "/boards/9"),
        IndexPage::Empty(_) => panic!("expected a redirect"),
    }
    // The sort order decides before the id.
    let mut a = board_created("2024-01-01");
    a.id = 1;
    a.sort_order = 5;
    let mut b = board_created("2024-01-01");
    b.id = 2;
    b.sort_order = 3;
    match index_page(&vec![b, a]) {
        IndexPage::Redirect(path) => assert_eq!(path, "/boards/1"),
        IndexPage::Empty(_) => panic!("expected a redirect"),
    }
}

#[test]
fn missing_boards_are_not_found() {
    assert_eq!(require_board(None).err(), Some(AppError::NotFound));
    assert_eq!(require_board(Some(board_created("2024"))).unwrap().id, 7);
    assert_eq!(rename_redirect(None, 4), Err(AppError::NotFound));
    assert_eq!(rename_redirect(Some(board_created("2024")), 4).unwrap(), "/boards/4");
    assert_eq!(archive_redirect(false), Err(AppError::NotFound));
    assert_eq!(archive_redirect(true).unwrap(), "/");
}

#[test]
fn error_status_codes() {
    assert_eq!(AppError::NotFound.status_code(), 404);
    assert_eq!(AppError::BadRequest.status_code(), 400);
    assert_eq!(AppError::Internal.status_code(), 500);
}

#[test]
fn tabs_follow_boards() {
    let mut b = board_created("2024");
    b.name = "Read".into();
    b.id = 3;
    let tabs = tabs_of(vec![board_created("2024"), b]);
    assert_eq!(tabs.len(), 2);
    assert_eq!((tabs[0].id, tabs[0].name.as_str()), (7, "b"));
    assert_eq!((tabs[1].id, tabs[1].name.as_str()), (3, "Read"));
}

#[test]
fn htmx_requests_get_the_fragment() {
    assert_eq!(page_kind(true), PageKind::Fragment);
    assert_eq!(page_kind(false), PageKind::FullPage);
}

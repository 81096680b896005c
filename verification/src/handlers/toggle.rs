//! Toggling a day cell: which requests may toggle, and the cell sent back.

use super::AppError;
use crate::calendar::{
    is_valid_day, is_weekend, representable_date, today_ymd, valid_day, weekday_from_monday,
    weekend_day, DATE_MAX_YEAR, DATE_MIN_YEAR,
};
use crate::handlers::board::grid_cell;
use crate::days::{state_of, FULL_GLOW};
use crate::store::toggle::{lemma_toggle_flips, toggle_rows, ToggleKey};
use crate::store::Board;
use crate::templates::{CellTemplate, Stats};
use vstd::prelude::*;

verus! {

pub struct TogglePayload {
    pub year: i32,
    pub month: u32,
    pub day: u32,
}

/// A toggle may only name a real calendar day; anything else is a bad
/// request.
pub fn check_toggle(p: &TogglePayload) -> (r: Result<(), AppError>)
    ensures
        r is Ok <==> 1 <= p.month <= 12 && valid_day(p.year as int, p.month as int, p.day as int),
        r is Err ==> r == Err::<(), AppError>(AppError::BadRequest),
{
    if !(1 <= p.month && p.month <= 12) || !is_valid_day(p.year, p.month, p.day) {
        return Err(AppError::BadRequest);
    }
    Ok(())
}

/// The whole decision of a toggle request, before anything is written: a
/// board the store did not find for the user is not found, whatever the day;
/// an owned board with a day that is not a real calendar day is a bad
/// request; otherwise the row to toggle is that day of that board.
pub fn toggle_target(found: Option<Board>, p: &TogglePayload) -> (r: Result<ToggleKey, AppError>)
    ensures
        found is None ==> r == Err::<ToggleKey, AppError>(AppError::NotFound),
        found matches Some(b) ==> r == (if 1 <= p.month <= 12 && valid_day(
            p.year as int,
            p.month as int,
            p.day as int,
        ) {
            Ok::<ToggleKey, AppError>((b.id, p.year, p.month, p.day))
        } else {
            Err::<ToggleKey, AppError>(AppError::BadRequest)
        }),
        r matches Ok(k) ==> valid_day(k.1 as int, k.2 as int, k.3 as int),
{
    let board = match found {
        Some(b) => b,
        None => return Err(AppError::NotFound),
    };
    match check_toggle(p) {
        Ok(()) => Ok((board.id, p.year, p.month, p.day)),
        Err(e) => Err(e),
    }
}

/// The cell sent back after a toggle: full glow when the day is now on,
/// cleared otherwise, with the refreshed stats swapped out of band.
pub open spec fn toggled_cell(
    cell: CellTemplate,
    board_id: i64,
    p: TogglePayload,
    on: bool,
    stats: Stats,
    today: (i32, u32, u32),
) -> bool {
    &&& cell.board_id == board_id
    &&& cell.year == p.year
    &&& cell.month == p.month
    &&& cell.day == p.day
    &&& cell.state == (if on {
        FULL_GLOW
    } else {
        0u8
    })
    &&& cell.today == (p.year == today.0 && p.month == today.1 && p.day == today.2)
    &&& cell.weekend == weekend_day(p.year as int, p.month as int, p.day as int)
    &&& cell.stats == stats
    &&& cell.stats_oob
}

/// The toggled cell for the given date of today.
pub fn cell_template_at(
    board_id: i64,
    p: &TogglePayload,
    on: bool,
    stats: Stats,
    today: (i32, u32, u32),
) -> (cell: CellTemplate)
    ensures
        toggled_cell(cell, board_id, *p, on, stats, today),
        cell.today == (cell.year == today.0 && cell.month == today.1 && cell.day == today.2),
        cell.today ==> cell.year == today.0,
        cell.weekend == (valid_day(cell.year as int, cell.month as int, cell.day as int)
            && DATE_MIN_YEAR <= cell.year <= DATE_MAX_YEAR && weekday_from_monday(
            cell.year as int,
            cell.month as int,
            cell.day as int,
        ) >= 5),
        (cell.year, cell.month, cell.day) == (p.year, p.month, p.day),
{
    CellTemplate {
        board_id,
        year: p.year,
        month: p.month,
        day: p.day,
        state: if on {
            FULL_GLOW
        } else {
            0
        },
        today: p.year == today.0 && p.month == today.1 && p.day == today.2,
        weekend: is_weekend(p.year, p.month, p.day),
        stats,
        stats_oob: true,
    }
}

/// The toggled cell as of now; `None` when the clock cannot be read.
pub fn cell_template(board_id: i64, p: &TogglePayload, on: bool, stats: Stats) -> (r: Option<
    CellTemplate,
>)
    ensures
        r matches Some(cell) ==> exists|today: (i32, u32, u32)|
            representable_date(today.0 as int, today.1 as int, today.2 as int) && toggled_cell(
                cell,
                board_id,
                *p,
                on,
                stats,
                today,
            ),
{
    let today = match today_ymd() {
        Some(t) => t,
        None => return None,
    };
    let cell = cell_template_at(board_id, p, on, stats, today);
    let r = Some(cell);
    assert(toggled_cell(r->0, board_id, *p, on, stats, today));
    r
}

/// What a toggled cell's flags mean, whatever the date of today: the cell is
/// today's exactly when its own date is today's date (so only in the current
/// year), and it is a weekend cell exactly when its own date is a Saturday or
/// Sunday — the same flag the grid shows for that day.
pub proof fn lemma_toggled_cell_flags(
    cell: CellTemplate,
    board_id: i64,
    p: TogglePayload,
    on: bool,
    stats: Stats,
    today: (i32, u32, u32),
    states: Map<(u32, u32), u8>,
)
    requires
        toggled_cell(cell, board_id, p, on, stats, today),
    ensures
        cell.today == (cell.year == today.0 && cell.month == today.1 && cell.day == today.2),
        cell.weekend == (valid_day(cell.year as int, cell.month as int, cell.day as int)
            && DATE_MIN_YEAR <= cell.year <= DATE_MAX_YEAR && weekday_from_monday(
            cell.year as int,
            cell.month as int,
            cell.day as int,
        ) >= 5),
        cell.weekend == grid_cell(
            cell.year as int,
            cell.month as int,
            cell.day as int,
            states,
            today,
        ).weekend,
        cell.today == grid_cell(
            cell.year as int,
            cell.month as int,
            cell.day as int,
            states,
            today,
        ).today,
{
}

/// The cell sent back after a toggle shows the state that the reloaded grid
/// shows for that day: with the year's day states read from the table after
/// the toggle (each present row at full glow), the cell's state is the day's
/// state there.
pub proof fn lemma_toggled_cell_matches_grid(
    rows: Set<ToggleKey>,
    key: ToggleKey,
    states: Map<(u32, u32), u8>,
)
    requires
        forall|md: (u32, u32)| #[trigger]
            states.contains_key(md) <==> toggle_rows(rows, key).0.contains(
                (key.0, key.1, md.0, md.1),
            ),
        forall|md: (u32, u32)| #[trigger] states.contains_key(md) ==> states[md] == FULL_GLOW,
    ensures
        (if toggle_rows(rows, key).1 {
            FULL_GLOW
        } else {
            0u8
        }) == state_of(states, key.2 as int, key.3 as int),
{
    lemma_toggle_flips(rows, key);
    let md = (key.2, key.3);
    assert((key.0, key.1, md.0, md.1) == key);
    assert(states.contains_key(md) == toggle_rows(rows, key).0.contains(key));
}

} // verus!

//! Toggling a day. A toggled day is the presence of a row keyed by
//! (board, year, month, day); toggling deletes that row if it is there and
//! inserts it otherwise. The store issues the `DELETE` first and asks
//! [`after_delete`] what to do with the number of rows it removed.

use vstd::prelude::*;

verus! {

/// A toggle row's key: board id, year, month, day.
pub type ToggleKey = (i64, i32, u32, u32);

/// What remains to do once the toggle's `DELETE` has run.
#[derive(Debug, Clone, Copy, PartialEq, Eq)]
pub enum ToggleStep {
    /// Nothing more: the day's new state is the given one.
    Finished(bool),
    /// Insert the row; the day is then on.
    InsertRow,
}

pub open spec fn step_after_delete(rows_deleted: int) -> ToggleStep {
    if rows_deleted > 0 {
        ToggleStep::Finished(false)
    } else {
        ToggleStep::InsertRow
    }
}

/// Decides the rest of a toggle from the number of rows its `DELETE` removed.
pub fn after_delete(rows_deleted: u64) -> (r: ToggleStep)
    ensures
        r == step_after_delete(rows_deleted as int),
{
    if rows_deleted > 0 {
        ToggleStep::Finished(false)
    } else {
        ToggleStep::InsertRow
    }
}

/// One toggle against a table whose rows are the set `rows`: the `DELETE`
/// removes the keyed row (at most one, the key being the primary key), then
/// the step decided by [`step_after_delete`] runs. Yields the new table and
/// the day's reported state.
pub open spec fn toggle_rows(rows: Set<ToggleKey>, key: ToggleKey) -> (Set<ToggleKey>, bool) {
    let deleted: int = if rows.contains(key) {
        1
    } else {
        0
    };
    let remaining = rows.remove(key);
    match step_after_delete(deleted) {
        ToggleStep::Finished(on) => (remaining, on),
        ToggleStep::InsertRow => (remaining.insert(key), true),
    }
}

/// A toggle flips the day's presence and reports the new presence.
pub proof fn lemma_toggle_flips(rows: Set<ToggleKey>, key: ToggleKey)
    ensures
        toggle_rows(rows, key).1 == !rows.contains(key),
        toggle_rows(rows, key).0 == (if rows.contains(key) {
            rows.remove(key)
        } else {
            rows.insert(key)
        }),
        toggle_rows(rows, key).0.contains(key) == toggle_rows(rows, key).1,
{
    if !rows.contains(key) {
        assert(rows.remove(key) =~= rows);
    }
}

/// Toggling the same day twice restores the table, and the two toggles
/// report opposite states.
pub proof fn lemma_toggle_twice_restores(rows: Set<ToggleKey>, key: ToggleKey)
    ensures
        toggle_rows(toggle_rows(rows, key).0, key).0 == rows,
        toggle_rows(toggle_rows(rows, key).0, key).1 == !toggle_rows(rows, key).1,
{
    lemma_toggle_flips(rows, key);
    lemma_toggle_flips(toggle_rows(rows, key).0, key);
    if rows.contains(key) {
        assert(rows.remove(key).insert(key) =~= rows);
    } else {
        assert(rows.insert(key).remove(key) =~= rows);
    }
}

/// A toggle leaves every other day's row as it was.
pub proof fn lemma_toggle_keeps_other_days(rows: Set<ToggleKey>, key: ToggleKey, other: ToggleKey)
    requires
        other != key,
    ensures
        toggle_rows(rows, key).0.contains(other) == rows.contains(other),
{
    lemma_toggle_flips(rows, key);
}

/// The (month, day) pairs of a board's year that the table holds: what the
/// store's `toggled_days` reads.
pub open spec fn days_of_year(rows: Set<ToggleKey>, board_id: i64, year: i32) -> Set<(u32, u32)> {
    Set::new(|md: (u32, u32)| rows.contains((board_id, year, md.0, md.1)))
}

/// Two successive toggles of the same day report opposite states, and after
/// the second every board's every year reads the days it read before.
pub proof fn lemma_toggle_twice_restores_days(
    rows: Set<ToggleKey>,
    key: ToggleKey,
    board_id: i64,
    year: i32,
)
    ensures
        toggle_rows(toggle_rows(rows, key).0, key).1 == !toggle_rows(rows, key).1,
        days_of_year(toggle_rows(toggle_rows(rows, key).0, key).0, board_id, year) == days_of_year(
            rows,
            board_id,
            year,
        ),
{
    lemma_toggle_twice_restores(rows, key);
    assert(days_of_year(toggle_rows(toggle_rows(rows, key).0, key).0, board_id, year)
        =~= days_of_year(rows, board_id, year));
}

} // verus!

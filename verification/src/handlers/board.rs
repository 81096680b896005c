//! Board pages: the grid of a year, year selection, board names and the
//! redirects that follow board changes.

use super::{board_path, decimal_text, AppError};
use crate::calendar::{
    days_in_month, is_valid_day, is_weekend, representable_date, today_ymd, valid_day,
    weekday_from_monday, weekend_day, DATE_MAX_YEAR, DATE_MIN_YEAR, MONTH_LABELS,
};
use crate::days::{stats_match, state_of, year_stats, DayStates};
use crate::store::board::creation_year;
use crate::store::Board;
use crate::templates::{Cell, Column, EmptyTemplate, GridTemplate, TabView};
use vstd::prelude::*;

verus! {

pub struct YearQuery {
    pub year: Option<i32>,
}

pub struct NameForm {
    pub name: String,
}

/// The year a board page shows: the requested one, or else the latest,
/// kept within the navigation bounds. A lower bound above the upper one
/// raises the upper one to it.
pub open spec fn chosen_year(requested: Option<i32>, bounds: (i32, i32)) -> int {
    let lo = bounds.0 as int;
    let hi = if bounds.1 >= bounds.0 {
        bounds.1 as int
    } else {
        bounds.0 as int
    };
    let wanted = match requested {
        Some(y) => y as int,
        None => hi,
    };
    if wanted < lo {
        lo
    } else if wanted > hi {
        hi
    } else {
        wanted
    }
}

/// Picks the year to show from the query and the board's year bounds.
pub fn select_year(requested: Option<i32>, bounds: (i32, i32)) -> (r: i32)
    ensures
        r == chosen_year(requested, bounds),
        bounds.0 <= r,
        r <= bounds.1 || r == bounds.0,
        forall|y: i32| requested == Some(y) && bounds.0 <= y <= bounds.1 ==> r == y,
        requested is None && bounds.0 <= bounds.1 ==> r == bounds.1,
{
    let (min_year, max_year) = bounds;
    let max_year = if max_year >= min_year {
        max_year
    } else {
        min_year
    };
    let wanted = match requested {
        Some(y) => y,
        None => max_year,
    };
    if wanted < min_year {
        min_year
    } else if wanted > max_year {
        max_year
    } else {
        wanted
    }
}

/// A character with the Unicode `White_Space` property, as `char::is_whitespace`
/// tests it.
pub open spec fn whitespace(c: char) -> bool {
    ||| ('\u{9}' <= c && c <= '\u{D}')
    ||| c == ' '
    ||| c == '\u{85}'
    ||| c == '\u{A0}'
    ||| c == '\u{1680}'
    ||| ('\u{2000}' <= c && c <= '\u{200A}')
    ||| c == '\u{2028}'
    ||| c == '\u{2029}'
    ||| c == '\u{202F}'
    ||| c == '\u{205F}'
    ||| c == '\u{3000}'
}

fn is_whitespace(c: char) -> (r: bool)
    ensures
        r == whitespace(c),
{
    ('\u{9}' <= c && c <= '\u{D}') || c == ' ' || c == '\u{85}' || c == '\u{A0}' || c
        == '\u{1680}' || ('\u{2000}' <= c && c <= '\u{200A}') || c == '\u{2028}' || c
        == '\u{2029}' || c == '\u{202F}' || c == '\u{205F}' || c == '\u{3000}'
}

/// `t` is `s` without its leading and trailing whitespace.
pub open spec fn trimmed(s: Seq<char>, t: Seq<char>) -> bool {
    exists|start: int, end: int|
        {
            &&& 0 <= start <= end <= s.len()
            &&& t == s.subrange(start, end)
            &&& forall|i: int| 0 <= i < start ==> whitespace(#[trigger] s[i])
            &&& forall|i: int| end <= i < s.len() ==> whitespace(#[trigger] s[i])
            &&& start < end ==> !whitespace(s[start]) && !whitespace(s[end - 1])
        }
}

/// Only whitespace, or nothing.
pub open spec fn blank(s: Seq<char>) -> bool {
    forall|i: int| 0 <= i < s.len() ==> whitespace(#[trigger] s[i])
}

/// A board name as submitted, without surrounding whitespace; a blank name
/// is a bad request.
pub fn board_name(raw: &str) -> (r: Result<String, AppError>)
    ensures
        r is Err <==> blank(raw@),
        r matches Err(e) ==> e == AppError::BadRequest,
        r matches Ok(name) ==> trimmed(raw@, name@) && name@.len() > 0,
{
    let n = raw.unicode_len();
    let mut start: usize = 0;
    while start < n && is_whitespace(raw.get_char(start))
        invariant
            n == raw@.len(),
            0 <= start <= n,
            forall|i: int| 0 <= i < start ==> whitespace(#[trigger] raw@[i]),
        decreases n - start,
    {
        start = start + 1;
    }
    if start == n {
        return Err(AppError::BadRequest);
    }
    let mut end: usize = n;
    while end > start && is_whitespace(raw.get_char(end - 1))
        invariant
            n == raw@.len(),
            start < n,
            !whitespace(raw@[start as int]),
            start <= end <= n,
            forall|i: int| end <= i < n ==> whitespace(#[trigger] raw@[i]),
        decreases end,
    {
        end = end - 1;
    }
    assert(end > start);
    assert(!blank(raw@)) by {
        assert(!whitespace(raw@[start as int]));
    }
    let name = raw.substring_char(start, end).to_owned();
    assert(trimmed(raw@, name@)) by {
        assert(name@ == raw@.subrange(start as int, end as int));
    }
    Ok(name)
}

/// The tabs of a user's boards, in the order given.
pub fn tabs_of(boards: Vec<Board>) -> (r: Vec<TabView>)
    ensures
        r@.len() == boards@.len(),
        forall|i: int|
            0 <= i < r@.len() ==> r@[i].id == boards@[i].id && r@[i].name@ == boards@[i].name@,
{
    let mut tabs: Vec<TabView> = Vec::new();
    let mut i: usize = 0;
    let n = boards.len();
    while i < n
        invariant
            n == boards@.len(),
            0 <= i <= n,
            tabs@.len() == i,
            forall|j: int|
                0 <= j < i ==> tabs@[j].id == boards@[j].id && tabs@[j].name@ == boards@[j].name@,
        decreases n - i,
    {
        let b = &boards[i];
        tabs.push(TabView { id: b.id, name: b.name.clone() });
        i = i + 1;
    }
    tabs
}

/// The answer to the root page.
pub enum IndexPage {
    /// Redirect to this path.
    Redirect(String),
    /// Show the empty state.
    Empty(EmptyTemplate),
}

/// `a` was created after `b`: it comes later by sort order, then by id.
pub open spec fn created_after(a: Board, b: Board) -> bool {
    a.sort_order > b.sort_order || (a.sort_order == b.sort_order && a.id > b.id)
}

/// `boards[i]` is the most recent of `boards`: none was created after it.
pub open spec fn most_recent_at(boards: Seq<Board>, i: int) -> bool {
    &&& 0 <= i < boards.len()
    &&& forall|j: int| 0 <= j < boards.len() ==> !created_after(#[trigger] boards[j], boards[i])
}

/// The root page goes to the user's most recent active board (the largest
/// sort order, then the largest id), or shows the empty state when there is
/// none.
pub fn index_page(boards: &Vec<Board>) -> (r: IndexPage)
    ensures
        boards@.len() == 0 ==> (r matches IndexPage::Empty(t) && t.tabs@.len() == 0
            && t.active_id == 0),
        boards@.len() > 0 ==> exists|i: int|
            most_recent_at(boards@, i) && (r matches IndexPage::Redirect(path) && path@
                == "/boards/"@ + decimal_text(boards@[i].id as int)),
{
    if boards.len() == 0 {
        return IndexPage::Empty(EmptyTemplate { tabs: Vec::new(), active_id: 0 });
    }
    let mut best: usize = 0;
    let mut k: usize = 1;
    while k < boards.len()
        invariant
            1 <= k <= boards@.len(),
            best < k,
            forall|j: int| 0 <= j < k ==> !created_after(#[trigger] boards@[j], boards@[best as int]),
        decreases boards@.len() - k,
    {
        let b = &boards[k];
        let c = &boards[best];
        if b.sort_order > c.sort_order || (b.sort_order == c.sort_order && b.id > c.id) {
            best = k;
        }
        k = k + 1;
    }
    let path = board_path(boards[best].id);
    assert(most_recent_at(boards@, best as int));
    IndexPage::Redirect(path)
}

/// How a board page is answered.
#[derive(Debug, Clone, Copy, PartialEq, Eq)]
pub enum PageKind {
    /// Only the grid fragment, for an HTMX request.
    Fragment,
    /// The full document: tabs, header and the grid.
    FullPage,
}

/// An HTMX request gets the grid fragment, any other the full page.
pub fn page_kind(is_hx: bool) -> (r: PageKind)
    ensures
        r == (if is_hx {
            PageKind::Fragment
        } else {
            PageKind::FullPage
        }),
{
    if is_hx {
        PageKind::Fragment
    } else {
        PageKind::FullPage
    }
}

/// Where a rename ends: the renamed board's page, or not found when the
/// store renamed nothing.
pub fn rename_redirect(renamed: Option<Board>, id: i64) -> (r: Result<String, AppError>)
    ensures
        renamed is None ==> r == Err::<String, AppError>(AppError::NotFound),
        renamed is Some ==> (r matches Ok(path) && path@ == "/boards/"@ + decimal_text(
            id as int,
        )),
{
    match renamed {
        Some(_) => Ok(board_path(id)),
        None => Err(AppError::NotFound),
    }
}

/// Where archiving ends: the root page, or not found when the store
/// archived nothing.
pub fn archive_redirect(archived: bool) -> (r: Result<String, AppError>)
    ensures
        !archived ==> r == Err::<String, AppError>(AppError::NotFound),
        archived ==> (r matches Ok(path) && path@ == "/"@),
{
    if archived {
        Ok("/".to_owned())
    } else {
        Err(AppError::NotFound)
    }
}

/// The cell of `day` in `month`: validity, state, whether it is `today`,
/// and whether it is a weekend day.
pub open spec fn grid_cell(
    year: int,
    month: int,
    day: int,
    states: Map<(u32, u32), u8>,
    today: (i32, u32, u32),
) -> Cell {
    let valid = valid_day(year, month, day);
    Cell {
        day: day as u32,
        valid,
        state: state_of(states, month, day),
        today: year == today.0 && month == today.1 && day == today.2,
        weekend: valid && weekend_day(year, month, day),
    }
}

/// In every grid cell, a weekend mark or today's mark sits on a real day,
/// today's mark only in the current year, and a real day lies in months
/// 1..=12 and days 1..=31.
pub proof fn lemma_grid_cell_flags(
    year: int,
    month: int,
    day: int,
    states: Map<(u32, u32), u8>,
    today: (i32, u32, u32),
)
    requires
        representable_date(today.0 as int, today.1 as int, today.2 as int),
    ensures
        grid_cell(year, month, day, states, today).weekend ==> grid_cell(
            year,
            month,
            day,
            states,
            today,
        ).valid,
        grid_cell(year, month, day, states, today).today ==> grid_cell(
            year,
            month,
            day,
            states,
            today,
        ).valid && year == today.0,
        grid_cell(year, month, day, states, today).valid ==> 1 <= month <= 12 && 1 <= day <= 31,
        grid_cell(year, month, day, states, today).valid == valid_day(year, month, day),
        grid_cell(year, month, day, states, today).weekend == (valid_day(year, month, day)
            && DATE_MIN_YEAR <= year <= DATE_MAX_YEAR && weekday_from_monday(year, month, day)
            >= 5),
        grid_cell(year, month, day, states, today).today == (year == today.0 && month == today.1
            && day == today.2),
        grid_cell(year, month, day, states, today).day == day as u32,
{
    if valid_day(year, month, day) {
        crate::calendar::lemma_valid_day_bounds(year, month, day);
    }
}

/// The column of `month`: its label and one cell for each of the days 1..=31.
pub open spec fn grid_column(
    column: Column,
    year: int,
    month: int,
    states: Map<(u32, u32), u8>,
    today: (i32, u32, u32),
) -> bool {
    &&& column.month == month
    &&& column.label == MONTH_LABELS@[month - 1]
    &&& column.cells@ == Seq::new(31, |i: int| grid_cell(year, month, i + 1, states, today))
}

/// The grid of a board year: twelve month columns, the navigation bounds,
/// the tallest month and the year's summary.
pub open spec fn grid_matches(
    grid: GridTemplate,
    board_id: i64,
    year: int,
    states: Map<(u32, u32), u8>,
    bounds: (i32, i32),
    today: (i32, u32, u32),
) -> bool {
    &&& grid.board_id == board_id
    &&& grid.year == year
    &&& grid.min_year == bounds.0
    &&& grid.max_year == bounds.1
    &&& grid.max_days == 31
    &&& grid.columns@.len() == 12
    &&& forall|m: int|
        0 <= m < 12 ==> grid_column(#[trigger] grid.columns@[m], year, m + 1, states, today)
    &&& stats_match(grid.stats, year, states)
    &&& !grid.stats_oob
}

/// The grid of a board year for the given navigation bounds and date of
/// today.
pub fn build_grid_at(
    board_id: i64,
    year: i32,
    toggled: &DayStates,
    bounds: (i32, i32),
    today: (i32, u32, u32),
) -> (g: GridTemplate)
    ensures
        grid_matches(g, board_id, year as int, toggled@, bounds, today),
        g.columns@.len() == 12,
        forall|m: int, d: int|
            0 <= m < 12 && 0 <= d < 31 ==> {
                let cell = #[trigger] g.columns@[m].cells@[d];
                &&& g.columns@[m].cells@.len() == 31
                &&& cell.day == d + 1
                &&& cell.valid == valid_day(year as int, m + 1, d + 1)
                &&& cell.weekend == (valid_day(year as int, m + 1, d + 1) && DATE_MIN_YEAR <= year
                    <= DATE_MAX_YEAR && weekday_from_monday(year as int, m + 1, d + 1) >= 5)
                &&& cell.today == (year == today.0 && m + 1 == today.1 && d + 1 == today.2)
                &&& cell.state == state_of(toggled@, m + 1, d + 1)
            },
{
    let (ty, tm, td) = today;
    let mut max_days: u32 = 28;
    let mut columns: Vec<Column> = Vec::new();
    let mut month: u32 = 1;
    while month <= 12
        invariant
            1 <= month <= 13,
            today == (ty, tm, td),
            columns@.len() == month - 1,
            forall|m: int|
                0 <= m < month - 1 ==> grid_column(
                    #[trigger] columns@[m],
                    year as int,
                    m + 1,
                    toggled@,
                    today,
                ),
            month == 1 ==> max_days == 28,
            month > 1 ==> max_days == 31,
        decreases 13 - month,
    {
        let dim = days_in_month(year, month);
        if dim > max_days {
            max_days = dim;
        }
        let mut cells: Vec<Cell> = Vec::new();
        let mut day: u32 = 1;
        while day <= 31
            invariant
                1 <= month <= 12,
                1 <= day <= 32,
                today == (ty, tm, td),
                cells@.len() == day - 1,
                forall|i: int|
                    0 <= i < day - 1 ==> #[trigger] cells@[i] == grid_cell(
                        year as int,
                        month as int,
                        i + 1,
                        toggled@,
                        today,
                    ),
            decreases 32 - day,
        {
            let valid = is_valid_day(year, month, day);
            let weekend = valid && is_weekend(year, month, day);
            cells.push(
                Cell {
                    day,
                    valid,
                    state: toggled.state(month, day),
                    today: year == ty && month == tm && day == td,
                    weekend,
                },
            );
            day = day + 1;
        }
        assert(cells@ =~= Seq::new(
            31,
            |i: int| grid_cell(year as int, month as int, i + 1, toggled@, today),
        ));
        columns.push(Column { month, label: MONTH_LABELS[(month - 1) as usize], cells });
        month = month + 1;
    }
    let g = GridTemplate {
        board_id,
        year,
        min_year: bounds.0,
        max_year: bounds.1,
        max_days,
        columns,
        stats: year_stats(year, toggled),
        stats_oob: false,
    };
    assert forall|m: int, d: int| 0 <= m < 12 && 0 <= d < 31 implies {
        let cell = #[trigger] g.columns@[m].cells@[d];
        &&& g.columns@[m].cells@.len() == 31
        &&& cell.day == d + 1
        &&& cell.valid == valid_day(year as int, m + 1, d + 1)
        &&& cell.weekend == (valid_day(year as int, m + 1, d + 1) && DATE_MIN_YEAR <= year
            <= DATE_MAX_YEAR && weekday_from_monday(year as int, m + 1, d + 1) >= 5)
        &&& cell.today == (year == today.0 && m + 1 == today.1 && d + 1 == today.2)
        &&& cell.state == state_of(toggled@, m + 1, d + 1)
    } by {
        assert(grid_column(g.columns@[m], year as int, m + 1, toggled@, today));
        assert(g.columns@[m].cells@[d] == grid_cell(year as int, m + 1, d + 1, toggled@, today));
    }
    g
}

/// The grid of a board year as of now: navigation from the board's creation
/// year to the current year, and today's cell marked; `None` when the clock
/// cannot be read.
pub fn build_grid(board: &Board, year: i32, toggled: &DayStates) -> (r: Option<GridTemplate>)
    ensures
        r matches Some(g) ==> exists|bounds: (i32, i32), today: (i32, u32, u32)|
            {
                &&& representable_date(today.0 as int, today.1 as int, today.2 as int)
                &&& bounds.1 == today.0
                &&& bounds.0 == creation_year(board.created_at@, today.0 as int)
                &&& grid_matches(g, board.id, year as int, toggled@, bounds, today)
            },
{
    let today = match today_ymd() {
        Some(t) => t,
        None => return None,
    };
    let bounds = board.year_bounds(today.0);
    let g = build_grid_at(board.id, year, toggled, bounds, today);
    let r = Some(g);
    assert(grid_matches(r->0, board.id, year as int, toggled@, bounds, today));
    r
}

} // verus!

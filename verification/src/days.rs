//! The state of each day of a board's year, and the year's summary counts.
//!
//! A day's state is 0 (cleared), 1 (outline glow) or 2 (full glow); a day
//! with no entry is cleared.

use crate::calendar::{is_leap_year, is_valid_day, leap_year, valid_day};
use crate::templates::Stats;
use std::collections::HashMap;
use vstd::prelude::*;

verus! {

broadcast use vstd::std_specs::hash::group_hash_axioms;

/// Full glow: a "true" day.
pub const FULL_GLOW: u8 = 2;

/// Outline glow.
pub const OUTLINE_GLOW: u8 = 1;

/// Day states of one board year, keyed by (month, day).
pub struct DayStates {
    states: HashMap<u64, u8>,
}

/// The map key of a (month, day) pair; distinct pairs get distinct keys.
pub open spec fn day_key(month: u32, day: u32) -> u64 {
    (month as int * 0x1_0000_0000 + day as int) as u64
}

proof fn lemma_day_key_injective(m1: u32, d1: u32, m2: u32, d2: u32)
    ensures
        day_key(m1, d1) == day_key(m2, d2) ==> m1 == m2 && d1 == d2,
{
}

impl View for DayStates {
    type V = Map<(u32, u32), u8>;

    closed spec fn view(&self) -> Map<(u32, u32), u8> {
        Map::new(
            |k: (u32, u32)| self.states@.contains_key(day_key(k.0, k.1)),
            |k: (u32, u32)| self.states@[day_key(k.0, k.1)],
        )
    }
}

/// The state of a day: its entry, or cleared.
pub open spec fn state_of(states: Map<(u32, u32), u8>, month: int, day: int) -> u8 {
    if states.contains_key((month as u32, day as u32)) {
        states[(month as u32, day as u32)]
    } else {
        0
    }
}

fn key_of(month: u32, day: u32) -> (r: u64)
    ensures
        r == day_key(month, day),
{
    (month as u64) * 0x1_0000_0000 + (day as u64)
}

impl DayStates {
    pub fn new() -> (r: DayStates)
        ensures
            r@ == Map::<(u32, u32), u8>::empty(),
    {
        let r = DayStates { states: HashMap::new() };
        assert(r@ =~= Map::<(u32, u32), u8>::empty());
        r
    }

    /// Sets the state of the day `(month, day)`.
    pub fn insert(&mut self, key: (u32, u32), state: u8)
        ensures
            final(self)@ == old(self)@.insert(key, state),
    {
        let k = key_of(key.0, key.1);
        self.states.insert(k, state);
        proof {
            let expected = old(self)@.insert(key, state);
            assert forall|q: (u32, u32)| #[trigger]
                self@.contains_key(q) == expected.contains_key(q) by {
                lemma_day_key_injective(q.0, q.1, key.0, key.1);
            }
            assert forall|q: (u32, u32)| self@.contains_key(q) implies #[trigger] self@[q]
                == expected[q] by {
                lemma_day_key_injective(q.0, q.1, key.0, key.1);
            }
            assert(self@ =~= expected);
        }
    }

    /// The state stored for the day `(month, day)`, if any.
    pub fn get(&self, key: (u32, u32)) -> (r: Option<u8>)
        ensures
            r == (if self@.contains_key(key) {
                Some(self@[key])
            } else {
                None
            }),
    {
        let k = key_of(key.0, key.1);
        match self.states.get(&k) {
            Some(s) => Some(*s),
            None => None,
        }
    }

    /// The state of a day, cleared when none is stored.
    pub fn state(&self, month: u32, day: u32) -> (r: u8)
        ensures
            r == state_of(self@, month as int, day as int),
    {
        match self.get((month, day)) {
            Some(s) => s,
            None => 0,
        }
    }

    /// Every toggled day at full glow, every other day cleared.
    pub fn from_toggled(days: &Vec<(u32, u32)>) -> (r: DayStates)
        ensures
            forall|k: (u32, u32)| #[trigger] r@.contains_key(k) <==> days@.contains(k),
            forall|k: (u32, u32)| #[trigger] r@.contains_key(k) ==> r@[k] == FULL_GLOW,
    {
        let mut r = DayStates::new();
        let mut i: usize = 0;
        while i < days.len()
            invariant
                0 <= i <= days.len(),
                forall|k: (u32, u32)| #[trigger]
                    r@.contains_key(k) <==> days@.subrange(0, i as int).contains(k),
                forall|k: (u32, u32)| #[trigger] r@.contains_key(k) ==> r@[k] == FULL_GLOW,
            decreases days.len() - i,
        {
            r.insert(days[i], FULL_GLOW);
            proof {
                let s = days@.subrange(0, i + 1);
                assert(s =~= days@.subrange(0, i as int).push(days@[i as int]));
                assert forall|k: (u32, u32)| #[trigger]
                    r@.contains_key(k) <==> days@.subrange(0, i + 1).contains(k) by {
                    if k == days@[i as int] {
                        assert(s[i as int] == k);
                    } else if days@.subrange(0, i + 1).contains(k) {
                        let j = choose|j: int| 0 <= j < s.len() && s[j] == k;
                        assert(days@.subrange(0, i as int)[j] == k);
                    } else if days@.subrange(0, i as int).contains(k) {
                        let j = choose|j: int|
                            0 <= j < i && days@.subrange(0, i as int)[j] == k;
                        assert(s[j] == k);
                    }
                }
            }
            i = i + 1;
        }
        assert(days@.subrange(0, days@.len() as int) =~= days@);
        r
    }
}

pub open spec fn is_full(state: u8) -> bool {
    state == FULL_GLOW
}

/// Marked either way: outline or full glow.
pub open spec fn is_marked(state: u8) -> bool {
    state == OUTLINE_GLOW || state == FULL_GLOW
}

/// Number of valid days among days 1..=upto of `month` that are full
/// (`full_only`) or marked.
pub open spec fn month_count(
    year: int,
    states: Map<(u32, u32), u8>,
    month: int,
    upto: int,
    full_only: bool,
) -> nat
    decreases upto,
{
    if upto <= 0 {
        0
    } else {
        let s = state_of(states, month, upto);
        let counted = valid_day(year, month, upto) && (if full_only {
            is_full(s)
        } else {
            is_marked(s)
        });
        month_count(year, states, month, upto - 1, full_only) + (if counted {
            1nat
        } else {
            0nat
        })
    }
}

/// Number of valid days in months 1..=upto_month that are full or marked.
pub open spec fn year_count(
    year: int,
    states: Map<(u32, u32), u8>,
    upto_month: int,
    full_only: bool,
) -> nat
    decreases upto_month,
{
    if upto_month <= 0 {
        0
    } else {
        year_count(year, states, upto_month - 1, full_only) + month_count(
            year,
            states,
            upto_month,
            31,
            full_only,
        )
    }
}

/// Days in the year.
pub open spec fn year_length(year: int) -> int {
    if leap_year(year) {
        366
    } else {
        365
    }
}

/// Number of full-glow days of the year.
pub open spec fn full_days(year: int, states: Map<(u32, u32), u8>) -> int {
    year_count(year, states, 12, true) as int
}

/// Number of days of the year marked either way.
pub open spec fn marked_days(year: int, states: Map<(u32, u32), u8>) -> int {
    year_count(year, states, 12, false) as int
}

/// Full days as a whole percent (rounded down) of the marked days; 0 when
/// nothing is marked.
pub open spec fn true_ratio_pct(year: int, states: Map<(u32, u32), u8>) -> int {
    if marked_days(year, states) == 0 {
        0
    } else {
        full_days(year, states) * 100 / marked_days(year, states)
    }
}

/// Marked days as a whole percent (rounded down) of the days of the year.
pub open spec fn year_coverage_pct(year: int, states: Map<(u32, u32), u8>) -> int {
    marked_days(year, states) * 100 / year_length(year)
}

proof fn lemma_month_count_bounds(
    year: int,
    states: Map<(u32, u32), u8>,
    month: int,
    upto: int,
)
    requires
        0 <= upto,
    ensures
        month_count(year, states, month, upto, true) <= month_count(
            year,
            states,
            month,
            upto,
            false,
        ),
        month_count(year, states, month, upto, false) <= upto,
        upto <= 31 ==> month_count(year, states, month, upto, false) <= crate::calendar::month_length(
            year,
            month,
        ),
    decreases upto,
{
    if upto > 0 {
        lemma_month_count_bounds(year, states, month, upto - 1);
    }
}

proof fn lemma_year_count_bounds(year: int, states: Map<(u32, u32), u8>, upto_month: int)
    requires
        0 <= upto_month,
    ensures
        year_count(year, states, upto_month, true) <= year_count(
            year,
            states,
            upto_month,
            false,
        ),
        year_count(year, states, upto_month, false) <= 31 * upto_month,
    decreases upto_month,
{
    if upto_month > 0 {
        lemma_year_count_bounds(year, states, upto_month - 1);
        lemma_month_count_bounds(year, states, upto_month, 31);
    }
}

/// The days of the months 1..=upto_month.
pub open spec fn months_length(year: int, upto_month: int) -> int
    decreases upto_month,
{
    if upto_month <= 0 {
        0
    } else {
        months_length(year, upto_month - 1) + crate::calendar::month_length(year, upto_month)
    }
}

proof fn lemma_marked_within_months(year: int, states: Map<(u32, u32), u8>, upto_month: int)
    requires
        0 <= upto_month,
    ensures
        year_count(year, states, upto_month, false) <= months_length(year, upto_month),
    decreases upto_month,
{
    if upto_month > 0 {
        lemma_marked_within_months(year, states, upto_month - 1);
        lemma_month_count_bounds(year, states, upto_month, 31);
    }
}

proof fn lemma_year_length(year: int)
    ensures
        months_length(year, 12) == year_length(year),
{
    reveal_with_fuel(months_length, 13);
}

/// The year's summary is well formed: no more full days than marked days,
/// no more marked days than days in the year, and both percentages at most
/// 100; with nothing marked, everything is 0.
pub proof fn lemma_stats_bounds(year: int, states: Map<(u32, u32), u8>)
    ensures
        0 <= full_days(year, states) <= marked_days(year, states) <= year_length(year),
        0 <= true_ratio_pct(year, states) <= 100,
        0 <= year_coverage_pct(year, states) <= 100,
        marked_days(year, states) == 0 ==> full_days(year, states) == 0 && true_ratio_pct(
            year,
            states,
        ) == 0 && year_coverage_pct(year, states) == 0,
{
    lemma_year_count_bounds(year, states, 12);
    lemma_marked_within_months(year, states, 12);
    lemma_year_length(year);
    let t = full_days(year, states);
    let m = marked_days(year, states);
    let n = year_length(year);
    if m > 0 {
        assert(t * 100 / m <= 100) by (nonlinear_arith)
            requires
                0 <= t <= m,
                0 < m,
        ;
        assert(t * 100 / m >= 0) by (nonlinear_arith)
            requires
                0 <= t,
                0 < m,
        ;
    }
    assert(m * 100 / n <= 100) by (nonlinear_arith)
        requires
            0 <= m <= n,
            0 < n,
    ;
    assert(m * 100 / n >= 0) by (nonlinear_arith)
        requires
            0 <= m,
            0 < n,
    ;
}

/// The summary of a board year: full days, the full share of marked days
/// and the marked share of the year.
pub open spec fn stats_match(stats: Stats, year: int, states: Map<(u32, u32), u8>) -> bool {
    &&& stats.true_count == full_days(year, states)
    &&& stats.true_ratio_pct == true_ratio_pct(year, states)
    &&& stats.year_coverage_pct == year_coverage_pct(year, states)
}

/// Counts the year's full and marked days and their percentages.
pub fn year_stats(year: i32, states: &DayStates) -> (r: Stats)
    ensures
        stats_match(r, year as int, states@),
{
    let mut full: u32 = 0;
    let mut marked: u32 = 0;
    let mut month: u32 = 1;
    while month <= 12
        invariant
            1 <= month <= 13,
            full == year_count(year as int, states@, month - 1, true),
            marked == year_count(year as int, states@, month - 1, false),
            full <= marked <= 31 * (month - 1),
        decreases 13 - month,
    {
        let mut day: u32 = 1;
        while day <= 31
            invariant
                1 <= month <= 12,
                1 <= day <= 32,
                full == year_count(year as int, states@, month - 1, true) + month_count(
                    year as int,
                    states@,
                    month as int,
                    day - 1,
                    true,
                ),
                marked == year_count(year as int, states@, month - 1, false) + month_count(
                    year as int,
                    states@,
                    month as int,
                    day - 1,
                    false,
                ),
                year_count(year as int, states@, month - 1, false) <= 31 * (month - 1),
                full <= marked <= 31 * (month - 1) + day - 1,
            decreases 32 - day,
        {
            proof {
                lemma_month_count_bounds(year as int, states@, month as int, day as int);
                lemma_month_count_bounds(year as int, states@, month as int, day - 1);
            }
            let s = states.state(month, day);
            if is_valid_day(year, month, day) {
                if s == FULL_GLOW {
                    full = full + 1;
                }
                if s == OUTLINE_GLOW || s == FULL_GLOW {
                    marked = marked + 1;
                }
            }
            day = day + 1;
        }
        month = month + 1;
    }
    proof {
        lemma_stats_bounds(year as int, states@);
    }
    let days: u32 = if is_leap_year(year) {
        366
    } else {
        365
    };
    let ratio: u32 = if marked == 0 {
        0
    } else {
        full * 100 / marked
    };
    let coverage: u32 = marked * 100 / days;
    Stats { true_count: full, true_ratio_pct: ratio, year_coverage_pct: coverage }
}

} // verus!

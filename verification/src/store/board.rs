//! A board: one year-scoped grid of days per user and tab.

use crate::calendar::{current_year, DATE_MAX_YEAR, DATE_MIN_YEAR};
use vstd::prelude::*;

verus! {

#[derive(Debug, Clone)]
pub struct Board {
    pub id: i64,
    pub user_id: i64,
    pub name: String,
    /// RFC 3339 timestamp; its year is the lower bound of year navigation.
    pub created_at: String,
    pub archived_at: Option<String>,
    pub sort_order: i64,
}

pub open spec fn is_digit(c: char) -> bool {
    '0' <= c && c <= '9'
}

pub open spec fn digit_value(c: char) -> int {
    (c as int) - ('0' as int)
}

pub open spec fn all_digits(s: Seq<char>) -> bool {
    forall|i: int| 0 <= i < s.len() ==> is_digit(#[trigger] s[i])
}

/// Decimal value of a string of digits, most significant first.
pub open spec fn digits_value(s: Seq<char>) -> int
    decreases s.len(),
{
    if s.len() == 0 {
        0
    } else {
        digits_value(s.drop_last()) * 10 + digit_value(s.last())
    }
}

/// An integer literal as `str::parse` reads it: an optional sign, then at
/// least one decimal digit.
pub open spec fn integer_literal(s: Seq<char>) -> Option<int> {
    if s.len() > 0 && (s[0] == '-' || s[0] == '+') {
        let digits = s.drop_first();
        if digits.len() > 0 && all_digits(digits) {
            if s[0] == '-' {
                Some(-digits_value(digits))
            } else {
                Some(digits_value(digits))
            }
        } else {
            None
        }
    } else if s.len() > 0 && all_digits(s) {
        Some(digits_value(s))
    } else {
        None
    }
}

/// The year written in the first four characters of a timestamp, if they
/// form an integer literal.
pub open spec fn leading_year(text: Seq<char>) -> Option<int> {
    if text.len() >= 4 {
        integer_literal(text.take(4))
    } else {
        None
    }
}

/// The creation year written at the start of `created_at`, or `fallback`.
pub open spec fn creation_year(created_at: Seq<char>, fallback: int) -> int {
    match leading_year(created_at) {
        Some(y) => y,
        None => fallback,
    }
}

proof fn lemma_digits_value_bound(s: Seq<char>)
    requires
        all_digits(s),
    ensures
        0 <= digits_value(s),
        s.len() <= 4 ==> digits_value(s) <= 9999,
        s.len() <= 3 ==> digits_value(s) <= 999,
        s.len() <= 2 ==> digits_value(s) <= 99,
        s.len() <= 1 ==> digits_value(s) <= 9,
    decreases s.len(),
{
    if s.len() > 0 {
        assert(all_digits(s.drop_last()));
        lemma_digits_value_bound(s.drop_last());
        assert(is_digit(s[s.len() - 1]));
    }
}

/// Reads the year at the start of a timestamp: the first four characters,
/// parsed as an integer.
pub fn parse_leading_year(text: &str) -> (r: Option<i32>)
    ensures
        r matches Some(y) ==> leading_year(text@) == Some(y as int),
        r is None ==> leading_year(text@) is None,
{
    if text.unicode_len() < 4 {
        return None;
    }
    let first = text.get_char(0);
    let (negative, start): (bool, usize) = if first == '-' {
        (true, 1)
    } else if first == '+' {
        (false, 1)
    } else {
        (false, 0)
    };
    let ghost head = text@.take(4);
    let ghost digits = head.subrange(start as int, 4);
    let mut value: i32 = 0;
    let mut i: usize = start;
    while i < 4
        invariant
            start <= i <= 4,
            start <= 1,
            text@.len() >= 4,
            head == text@.take(4),
            digits == head.subrange(start as int, 4),
            all_digits(head.subrange(start as int, i as int)),
            value == digits_value(head.subrange(start as int, i as int)),
            0 <= value <= 9999,
            i < 4 ==> value <= 999,
            head[0] == first,
            start == 1 <==> (first == '-' || first == '+'),
            negative <==> first == '-',
        decreases 4 - i,
    {
        let c = text.get_char(i);
        if !(c >= '0' && c <= '9') {
            proof {
                assert(c == head[i as int]);
                assert(!is_digit(digits[i - start]));
                if start == 1 {
                    assert(digits =~= head.drop_first());
                } else {
                    assert(digits =~= head);
                }
            }
            return None;
        }
        proof {
            assert(head.subrange(start as int, i + 1).drop_last() =~= head.subrange(
                start as int,
                i as int,
            ));
            assert(all_digits(head.subrange(start as int, i + 1)));
            lemma_digits_value_bound(head.subrange(start as int, i + 1));
        }
        value = value * 10 + (c as u32 - '0' as u32) as i32;
        i = i + 1;
    }
    proof {
        assert(head.subrange(start as int, 4) == digits);
        if start == 1 {
            assert(digits =~= head.drop_first());
        } else {
            assert(digits =~= head);
        }
    }
    if negative {
        Some(-value)
    } else {
        Some(value)
    }
}

impl Board {
    /// The year the board was created, read from `created_at`; `fallback`
    /// when `created_at` does not start with one.
    pub fn created_year_or(&self, fallback: i32) -> (r: i32)
        ensures
            r == creation_year(self.created_at@, fallback as int),
    {
        match parse_leading_year(self.created_at.as_str()) {
            Some(y) => y,
            None => fallback,
        }
    }

    /// The year the board was created, read from `created_at`; the current
    /// year when `created_at` does not start with one, and `None` when that
    /// year is needed and the clock cannot be read.
    pub fn created_year(&self) -> (r: Option<i32>)
        ensures
            leading_year(self.created_at@) matches Some(y) ==> r == Some(y as i32),
            leading_year(self.created_at@) is None ==> (r matches Some(y) ==> DATE_MIN_YEAR <= y
                <= DATE_MAX_YEAR),
    {
        match parse_leading_year(self.created_at.as_str()) {
            Some(y) => Some(y),
            None => current_year(),
        }
    }

    /// Year navigation bounds: from the creation year up to `current_year`,
    /// which also stands for the creation year when `created_at` does not
    /// start with one.
    pub fn year_bounds(&self, current_year: i32) -> (r: (i32, i32))
        ensures
            r.0 == creation_year(self.created_at@, current_year as int),
            r.1 == current_year,
    {
        (self.created_year_or(current_year), current_year)
    }
}

} // verus!

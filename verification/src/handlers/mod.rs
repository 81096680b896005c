//! The decisions behind the web handlers: which response a request gets,
//! apart from the I/O that fetches and stores its data.

pub mod board;
pub mod toggle;

use crate::store::Board;
use vstd::prelude::*;

verus! {

/// A request that ends in an error status.
#[derive(Debug, Clone, Copy, PartialEq, Eq)]
pub enum AppError {
    NotFound,
    BadRequest,
    Internal,
}

/// The HTTP status of an error: not found 404, bad request 400, internal
/// 500.
pub open spec fn status_of(e: AppError) -> u16 {
    match e {
        AppError::NotFound => 404,
        AppError::BadRequest => 400,
        AppError::Internal => 500,
    }
}

/// No error is answered 403: a board of another user is answered as one that
/// does not exist.
pub proof fn lemma_no_forbidden_status(e: AppError)
    ensures
        status_of(e) != 403,
        status_of(e) == 404 <==> e == AppError::NotFound,
{
}

impl AppError {
    /// The HTTP status the error is answered with.
    pub fn status_code(&self) -> (r: u16)
        ensures
            r == status_of(*self),
    {
        match self {
            AppError::NotFound => 404,
            AppError::BadRequest => 400,
            AppError::Internal => 500,
        }
    }
}

/// A board the request may use: one the store found for the requesting
/// user. Any other board, another user's too, is not found.
pub fn require_board(found: Option<Board>) -> (r: Result<Board, AppError>)
    ensures
        found matches Some(b) ==> r == Ok::<Board, AppError>(b),
        found is None ==> r == Err::<Board, AppError>(AppError::NotFound),
{
    match found {
        Some(b) => Ok(b),
        None => Err(AppError::NotFound),
    }
}

pub open spec fn digit_char(d: int) -> char {
    (('0' as int) + d) as char
}

/// Decimal digits of a natural number, most significant first.
pub open spec fn decimal_digits(n: nat) -> Seq<char>
    decreases n,
{
    if n < 10 {
        seq![digit_char(n as int)]
    } else {
        decimal_digits(n / 10).push(digit_char((n % 10) as int))
    }
}

/// An integer in decimal, with a leading `-` when negative.
pub open spec fn decimal_text(n: int) -> Seq<char> {
    if n < 0 {
        seq!['-'] + decimal_digits((-n) as nat)
    } else {
        decimal_digits(n as nat)
    }
}

const DIGITS: [&'static str; 10] = ["0", "1", "2", "3", "4", "5", "6", "7", "8", "9"];

fn digit_text(d: u64) -> (r: &'static str)
    requires
        d < 10,
    ensures
        r@ == seq![digit_char(d as int)],
{
    proof {
        reveal_strlit("0");
        reveal_strlit("1");
        reveal_strlit("2");
        reveal_strlit("3");
        reveal_strlit("4");
        reveal_strlit("5");
        reveal_strlit("6");
        reveal_strlit("7");
        reveal_strlit("8");
        reveal_strlit("9");
    }
    let r = DIGITS[d as usize];
    assert(r@ =~= seq![digit_char(d as int)]);
    r
}

fn decimal(n: u64) -> (r: String)
    ensures
        r@ == decimal_digits(n as nat),
    decreases n,
{
    if n < 10 {
        digit_text(n).to_owned()
    } else {
        let mut s = decimal(n / 10);
        s.append(digit_text(n % 10));
        s
    }
}

/// The page of a board: `/boards/{id}`.
pub fn board_path(id: i64) -> (r: String)
    ensures
        r@ == "/boards/"@ + decimal_text(id as int),
{
    let mut path = "/boards/".to_owned();
    if id < 0 {
        path.append("-");
        let magnitude = (-(id as i128)) as u64;
        path.append(decimal(magnitude).as_str());
        proof {
            reveal_strlit("-");
        }
    } else {
        path.append(decimal(id as u64).as_str());
    }
    path
}

} // verus!

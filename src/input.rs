//! Turning a line typed by a player into a legal move.

use vstd::prelude::*;
use crate::board::{valid_move, is_legal, Player};

verus! {

/// Why a typed move was refused.
#[derive(Copy, Clone, Debug, PartialEq, Eq, Structural)]
pub enum InputError {
    /// The line is not a whole number.
    InvalidNumber,
    /// The number does not name a cell from 1 to 9.
    OutOfRange,
    /// The cell is already taken.
    Occupied,
}

impl InputError {
    /// A short text that tells the player what went wrong.
    pub fn message(&self) -> (r: &'static str)
        ensures
            r@ == match *self {
                InputError::InvalidNumber => "Invalid number"@,
                InputError::OutOfRange => "Value must be in between 1 and 9"@,
                InputError::Occupied => "Not a valid move"@,
            },
    {
        match self {
            InputError::InvalidNumber => {
                proof {
                    reveal_strlit("Invalid number");
                }
                "Invalid number"
            },
            InputError::OutOfRange => {
                proof {
                    reveal_strlit("Value must be in between 1 and 9");
                }
                "Value must be in between 1 and 9"
            },
            InputError::Occupied => {
                proof {
                    reveal_strlit("Not a valid move");
                }
                "Not a valid move"
            },
        }
    }
}

/// The text with leading and trailing whitespace removed.
pub uninterp spec fn trimmed(s: Seq<char>) -> Seq<char>;

/// Relies on `str::trim`, which drops leading and trailing whitespace.
#[verifier::external_body]
fn trim_line(s: &str) -> (r: &str)
    ensures
        r@ == trimmed(s@),
{
    s.trim()
}

/// A decimal digit.
pub open spec fn is_digit(c: char) -> bool {
    '0' <= c <= '9'
}

/// The number that a string of decimal digits writes.
pub open spec fn digits_value(s: Seq<char>) -> int
    decreases s.len(),
{
    if s.len() == 0 {
        0
    } else {
        digits_value(s.drop_last()) * 10 + (s.last() as u32 - '0' as u32)
    }
}

/// The digits of an unsigned number: the text without one leading `+`.
pub open spec fn unsigned_digits(s: Seq<char>) -> Seq<char> {
    if s.len() > 0 && s[0] == '+' {
        s.subrange(1, s.len() as int)
    } else {
        s
    }
}

/// What `usize`'s `from_str` gives: an optional `+` and at least one
/// digit, nothing else, and a value that fits.
pub open spec fn parsed_usize(s: Seq<char>) -> Option<usize> {
    let d = unsigned_digits(s);
    if d.len() > 0 && (forall|i: int| 0 <= i < d.len() ==> is_digit(#[trigger] d[i]))
        && digits_value(d) <= usize::MAX {
        Some(digits_value(d) as usize)
    } else {
        None
    }
}

/// Relies on `str::parse::<usize>`, documented to accept an optional `+`
/// followed by decimal digits only, and to fail on overflow.
#[verifier::external_body]
fn parse_usize(s: &str) -> (r: Option<usize>)
    ensures
        r == parsed_usize(s@),
{
    s.parse::<usize>().ok()
}

/// The move that the number `n` chooses (cells are numbered from 1), or why
/// it is refused.
pub open spec fn choice_outcome(b: Seq<Player>, n: Option<usize>) -> Result<usize, InputError> {
    match n {
        None => Err(InputError::InvalidNumber),
        Some(x) => if 1 <= x <= 9 {
            if is_legal(b, x - 1) {
                Ok((x - 1) as usize)
            } else {
                Err(InputError::Occupied)
            }
        } else {
            Err(InputError::OutOfRange)
        },
    }
}

/// Checks a number read from a player against the board: it must name a
/// cell from 1 to 9, and that cell must be empty.
pub fn check_choice(board: &[Player; 9], n: Option<usize>) -> (r: Result<usize, InputError>)
    ensures
        r == choice_outcome(board@, n),
{
    match n {
        None => Err(InputError::InvalidNumber),
        Some(x) => {
            if 1 <= x && x <= 9 {
                if valid_move(board, x - 1) {
                    Ok(x - 1)
                } else {
                    Err(InputError::Occupied)
                }
            } else {
                Err(InputError::OutOfRange)
            }
        },
    }
}

/// Reads a move from a typed line: surrounding whitespace is ignored, and
/// the rest must be a cell number from 1 to 9 that names an empty cell.
pub fn parse_choice(board: &[Player; 9], line: &str) -> (r: Result<usize, InputError>)
    ensures
        r == choice_outcome(board@, parsed_usize(trimmed(line@))),
        r matches Ok(i) ==> is_legal(board@, i as int),
{
    let t = trim_line(line);
    let n = parse_usize(t);
    check_choice(board, n)
}

} // verus!

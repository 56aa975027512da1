//! Reading a move typed as text: `e2 e4`, `e2e4`, or `e24` / `e2f` where the target
//! names only a rank or only a file and takes the other from the origin.
use vstd::prelude::*;

use crate::error::ChessError;
use crate::position::{column_of_char, position_of_text, row_of_char, Move, Position, Column, Row};
use crate::text::{blank, chars_of, copy_range, skip_blanks, skip_word, trim, trim_bounds};

verus! {

/// The origin and target tokens of a trimmed move text: when it holds a space, its
/// first two blank-separated words; otherwise its first two characters and the rest,
/// provided there are at least three characters.
pub open spec fn move_tokens(t: Seq<char>) -> Option<(Seq<char>, Seq<char>)> {
    if t.contains(' ') {
        let e1 = skip_word(t, 0);
        let b2 = skip_blanks(t, e1);
        let e2 = skip_word(t, b2);
        if e1 > 0 && e2 > b2 {
            Some((t.subrange(0, e1), t.subrange(b2, e2)))
        } else {
            None
        }
    } else if t.len() < 3 {
        None
    } else {
        Some((t.subrange(0, 2), t.subrange(2, t.len() as int)))
    }
}

/// The target a token names, given the origin: a digit alone is a rank on the
/// origin's file, any other single character a file on the origin's rank, and
/// anything longer a square name.
pub open spec fn target_of(from: Position, w: Seq<char>) -> Option<Position> {
    if w.len() == 1 {
        if '0' <= w[0] <= '9' {
            match row_of_char(w[0]) {
                Some(row) => Some(Position { row, column: from.column }),
                None => None,
            }
        } else {
            match column_of_char(w[0]) {
                Some(column) => Some(Position { row: from.row, column }),
                None => None,
            }
        }
    } else {
        position_of_text(w)
    }
}

/// The move a text names, if any.
pub open spec fn move_of_text(s: Seq<char>) -> Option<Move> {
    match move_tokens(trim(s)) {
        Some(tokens) => match position_of_text(tokens.0) {
            Some(from) => match target_of(from, tokens.1) {
                Some(to) => Some(Move { from, to }),
                None => None,
            },
            None => None,
        },
        None => None,
    }
}

/// Whether `t` holds a space character.
fn has_space(t: &Vec<char>) -> (r: bool)
    ensures
        r == t@.contains(' '),
{
    let mut k: usize = 0;
    while k < t.len()
        invariant
            k <= t@.len(),
            forall|j: int| 0 <= j < k ==> t@[j] != ' ',
        decreases t@.len() - k,
    {
        if t[k] == ' ' {
            return true;
        }
        k = k + 1;
    }
    false
}

/// The end of the word of `t` that starts at `i`.
fn word_end(t: &Vec<char>, i: usize) -> (r: usize)
    requires
        i <= t@.len(),
    ensures
        r == skip_word(t@, i as int),
        i <= r <= t@.len(),
{
    let mut e: usize = i;
    while e < t.len() && !blank(t[e])
        invariant
            i <= e <= t@.len(),
            skip_word(t@, i as int) == skip_word(t@, e as int),
        decreases t@.len() - e,
    {
        e = e + 1;
    }
    e
}

/// The first index at or after `i` that does not hold a blank.
fn blanks_end(t: &Vec<char>, i: usize) -> (r: usize)
    requires
        i <= t@.len(),
    ensures
        r == skip_blanks(t@, i as int),
        i <= r <= t@.len(),
{
    let mut e: usize = i;
    while e < t.len() && blank(t[e])
        invariant
            i <= e <= t@.len(),
            skip_blanks(t@, i as int) == skip_blanks(t@, e as int),
        decreases t@.len() - e,
    {
        e = e + 1;
    }
    e
}

/// The move a line of text names, blanks around it ignored: `e2 e4` (any further
/// words are ignored), `e2e4`, or a target naming only a rank (`e24`) or only a file
/// (`e2f`). An `InvalidMove` error for any other text.
pub fn parse_input_to_move(input: &str) -> (r: Result<Move, ChessError>)
    ensures
        move_of_text(input@) matches Some(m) ==> r == Ok::<Move, ChessError>(m),
        move_of_text(input@) is None ==> r matches Err(ChessError::InvalidMove(_)),
{
    let cs = chars_of(input);
    let (lo, hi) = trim_bounds(&cs);
    let t = copy_range(&cs, lo, hi);
    let (first, second) = if has_space(&t) {
        let e1 = word_end(&t, 0);
        let b2 = blanks_end(&t, e1);
        let e2 = word_end(&t, b2);
        if e1 == 0 {
            return Err(ChessError::InvalidMove("No 'from' position provided".to_string()));
        }
        if e2 == b2 {
            return Err(ChessError::InvalidMove("No 'to' position provided".to_string()));
        }
        (copy_range(&t, 0, e1), copy_range(&t, b2, e2))
    } else {
        if t.len() < 3 {
            return Err(
                ChessError::InvalidMove("Input must be at least 3 characters long".to_string()),
            );
        }
        (copy_range(&t, 0, 2), copy_range(&t, 2, t.len()))
    };
    let from = match Position::parse_chars(&first) {
        Ok(p) => p,
        Err(_) => {
            return Err(ChessError::InvalidMove("Invalid 'from' position".to_string()));
        },
    };
    let to = if second.len() == 1 {
        let c = second[0];
        if '0' <= c && c <= '9' {
            Position { row: Row::from_char(c)?, column: from.column }
        } else {
            Position { row: from.row, column: Column::from_char(c)? }
        }
    } else {
        match Position::parse_chars(&second) {
            Ok(p) => p,
            Err(_) => {
                return Err(ChessError::InvalidMove("Invalid 'to' position".to_string()));
            },
        }
    };
    Ok(Move { from, to })
}

} // verus!

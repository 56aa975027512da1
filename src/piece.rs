//! Pieces: their kind, their side, and their one-letter names.
use vstd::prelude::*;

use crate::error::ChessError;

verus! {

/// The kind of a piece.
#[derive(Debug, Clone, Copy, PartialEq, Eq, Hash, Structural)]
pub enum ChessPieceKind {
    Pawn,
    Knight,
    Bishop,
    Rook,
    Queen,
    King,
}

/// A side, or the light/dark shading of a square.
#[derive(Debug, Clone, Copy, PartialEq, Eq, Hash, Structural)]
pub enum ChessColour {
    White,
    Black,
}

/// A piece on the board. `moved` is false until the piece first leaves its square.
#[derive(Debug, Clone, Copy, PartialEq, Eq, Hash, Structural)]
pub struct ChessPiece {
    pub kind: ChessPieceKind,
    pub colour: ChessColour,
    pub moved: bool,
}

/// The material value of a kind; the king's is a sentinel far above the rest.
pub open spec fn kind_value(k: ChessPieceKind) -> int {
    match k {
        ChessPieceKind::Pawn => 1,
        ChessPieceKind::Knight => 3,
        ChessPieceKind::Bishop => 3,
        ChessPieceKind::Rook => 5,
        ChessPieceKind::Queen => 9,
        ChessPieceKind::King => 200,
    }
}

/// The code of a kind in the board fingerprint.
pub open spec fn kind_code(k: ChessPieceKind) -> int {
    match k {
        ChessPieceKind::Pawn => 1,
        ChessPieceKind::Knight => 2,
        ChessPieceKind::Bishop => 3,
        ChessPieceKind::Rook => 4,
        ChessPieceKind::Queen => 5,
        ChessPieceKind::King => 6,
    }
}

/// The code of a side in the board fingerprint.
pub open spec fn side_code(c: ChessColour) -> int {
    match c {
        ChessColour::White => 1,
        ChessColour::Black => 0,
    }
}

/// The rank step of a side's pawns: up for White, down for Black.
pub open spec fn forward(c: ChessColour) -> int {
    match c {
        ChessColour::White => 1,
        ChessColour::Black => -1,
    }
}

/// The other side.
pub open spec fn opponent(c: ChessColour) -> ChessColour {
    match c {
        ChessColour::White => ChessColour::Black,
        ChessColour::Black => ChessColour::White,
    }
}

/// The lower-case letter of a kind.
pub open spec fn kind_letter(k: ChessPieceKind) -> char {
    match k {
        ChessPieceKind::Pawn => 'p',
        ChessPieceKind::Knight => 'n',
        ChessPieceKind::Bishop => 'b',
        ChessPieceKind::Rook => 'r',
        ChessPieceKind::Queen => 'q',
        ChessPieceKind::King => 'k',
    }
}

/// The letter of a piece: upper case for White, lower case for Black.
pub open spec fn piece_letter(p: ChessPiece) -> char {
    match p.colour {
        ChessColour::White => match p.kind {
            ChessPieceKind::Pawn => 'P',
            ChessPieceKind::Knight => 'N',
            ChessPieceKind::Bishop => 'B',
            ChessPieceKind::Rook => 'R',
            ChessPieceKind::Queen => 'Q',
            ChessPieceKind::King => 'K',
        },
        ChessColour::Black => kind_letter(p.kind),
    }
}

/// The kind a letter names in either case, if any.
pub open spec fn kind_of_letter(c: char) -> Option<ChessPieceKind> {
    if c == 'p' || c == 'P' {
        Some(ChessPieceKind::Pawn)
    } else if c == 'n' || c == 'N' {
        Some(ChessPieceKind::Knight)
    } else if c == 'b' || c == 'B' {
        Some(ChessPieceKind::Bishop)
    } else if c == 'r' || c == 'R' {
        Some(ChessPieceKind::Rook)
    } else if c == 'q' || c == 'Q' {
        Some(ChessPieceKind::Queen)
    } else if c == 'k' || c == 'K' {
        Some(ChessPieceKind::King)
    } else {
        None
    }
}

/// The unmoved piece a letter names: the kind from the letter, White for upper case.
pub open spec fn piece_of_letter(c: char) -> Option<ChessPiece> {
    match kind_of_letter(c) {
        Some(k) => Some(
            ChessPiece {
                kind: k,
                colour: if 'A' <= c <= 'Z' {
                    ChessColour::White
                } else {
                    ChessColour::Black
                },
                moved: false,
            },
        ),
        None => None,
    }
}

impl ChessPieceKind {
    /// The code of the kind in the board fingerprint.
    pub fn hash_value(&self) -> (r: u8)
        ensures
            r == kind_code(*self),
    {
        match *self {
            ChessPieceKind::Pawn => 1,
            ChessPieceKind::Knight => 2,
            ChessPieceKind::Bishop => 3,
            ChessPieceKind::Rook => 4,
            ChessPieceKind::Queen => 5,
            ChessPieceKind::King => 6,
        }
    }

    /// The material value of the kind (pawn 1, knight and bishop 3, rook 5, queen 9,
    /// king 200).
    pub fn value(&self) -> (r: isize)
        ensures
            r == kind_value(*self),
    {
        match self {
            ChessPieceKind::Pawn => 1,
            ChessPieceKind::Knight => 3,
            ChessPieceKind::Bishop => 3,
            ChessPieceKind::Rook => 5,
            ChessPieceKind::Queen => 9,
            ChessPieceKind::King => 200,
        }
    }
}

impl ChessColour {
    /// The code of the side in the board fingerprint.
    pub fn hash_multiplier(&self) -> (r: u8)
        ensures
            r == side_code(*self),
    {
        match *self {
            ChessColour::White => 1,
            ChessColour::Black => 0,
        }
    }

    /// The rank step of the side's pawns: 1 for White, -1 for Black.
    pub fn direction(&self) -> (r: isize)
        ensures
            r == forward(*self),
    {
        match self {
            ChessColour::White => 1,
            ChessColour::Black => -1,
        }
    }

    /// The other side.
    pub fn flip(&self) -> (r: ChessColour)
        ensures
            r == opponent(*self),
    {
        match self {
            ChessColour::White => ChessColour::Black,
            ChessColour::Black => ChessColour::White,
        }
    }
}

impl ChessPiece {
    /// The letter of the piece: upper case for White, lower case for Black.
    pub fn to_char(&self) -> (r: char)
        ensures
            r == piece_letter(*self),
    {
        let c = match self.kind {
            ChessPieceKind::Pawn => 'p',
            ChessPieceKind::Knight => 'n',
            ChessPieceKind::Bishop => 'b',
            ChessPieceKind::Rook => 'r',
            ChessPieceKind::Queen => 'q',
            ChessPieceKind::King => 'k',
        };
        match self.colour {
            ChessColour::White => ((c as u8) - 32) as char,
            ChessColour::Black => c,
        }
    }

    /// The unmoved piece a letter names (`P`, `n`, ...); an `InvalidPiece` error for
    /// any other character.
    pub fn from_char(c: char) -> (r: Result<ChessPiece, ChessError>)
        ensures
            piece_of_letter(c) matches Some(p) ==> r == Ok::<ChessPiece, ChessError>(p),
            piece_of_letter(c) is None ==> r matches Err(ChessError::InvalidPiece(_)),
    {
        let kind = match c {
            'p' | 'P' => ChessPieceKind::Pawn,
            'n' | 'N' => ChessPieceKind::Knight,
            'b' | 'B' => ChessPieceKind::Bishop,
            'r' | 'R' => ChessPieceKind::Rook,
            'q' | 'Q' => ChessPieceKind::Queen,
            'k' | 'K' => ChessPieceKind::King,
            _ => {
                return Err(ChessError::InvalidPiece("invalid chess piece character".to_string()));
            },
        };
        let colour = if 'A' <= c && c <= 'Z' {
            ChessColour::White
        } else {
            ChessColour::Black
        };
        Ok(ChessPiece { kind, colour, moved: false })
    }
}

/// Reading the letter of any unmoved piece gives the piece back.
pub proof fn lemma_piece_letter_round_trip(p: ChessPiece)
    requires
        !p.moved,
    ensures
        piece_of_letter(piece_letter(p)) == Some(p),
{
}

} // verus!

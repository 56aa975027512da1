use vstd::prelude::*;

verus! {

/// The errors of the library; each carries a human-readable message.
#[derive(Debug, PartialEq, Eq)]
pub enum ChessError {
    /// A bad piece character or a malformed board diagram.
    InvalidPiece(String),
    /// Bad coordinate text, an illegal target, or acting on an empty or opposing square.
    InvalidMove(String),
    /// The search found no move to play.
    SolverError(String),
}

impl ChessError {
    /// The message carried by the error.
    pub fn message(&self) -> (r: &String)
        ensures
            r == match self {
                ChessError::InvalidPiece(m) => m,
                ChessError::InvalidMove(m) => m,
                ChessError::SolverError(m) => m,
            },
    {
        match self {
            ChessError::InvalidPiece(m) => m,
            ChessError::InvalidMove(m) => m,
            ChessError::SolverError(m) => m,
        }
    }
}

} // verus!

//! The rules engine: owns the board and the history, validates and applies moves.
use vstd::prelude::*;

use crate::board::{Cell, ChessBoard};
use crate::error::ChessError;
use crate::piece::{opponent, ChessPiece, ChessPieceKind};
use crate::position::{offset, Move, Position};
use crate::rules::{
    apply_move, bishop_candidates, can_move, capture_target, captured, full_ray, keep_open,
    king_candidates, knight_candidates, legal_moves, maybe, pawn_candidates, queen_candidates,
    ray, rook_candidates,
};

verus! {

/// Where the game stands after a move. Only `Ongoing` is ever reported: mate and
/// stalemate are not detected.
#[derive(Debug, Clone, Copy, PartialEq, Eq, Hash, Structural)]
pub enum GameStatus {
    Ongoing,
    Checkmate,
    Stalemate,
}

/// The outcome of a successful move: the status and the board it left.
pub struct GameState<'a> {
    pub status: GameStatus,
    board: &'a ChessBoard,
}

impl<'a> GameState<'a> {
    /// The status reported.
    pub closed spec fn status_view(&self) -> GameStatus {
        self.status
    }

    /// The board after the move.
    pub closed spec fn board_view(&self) -> ChessBoard {
        *self.board
    }

    /// The status reported.
    pub fn status(&self) -> (r: GameStatus)
        ensures
            r == self.status_view(),
    {
        self.status
    }

    /// The board after the move.
    pub fn board(&self) -> (r: &'a ChessBoard)
        ensures
            *r == self.board_view(),
    {
        self.board
    }
}

/// The abstract state of an engine: the board, the moves played, the pieces taken.
pub struct EngineView {
    pub board: ChessBoard,
    pub moves: Seq<Move>,
    pub taken: Seq<ChessPiece>,
}

/// A game in progress: the board, the moves played so far and the captured pieces,
/// both in the order they happened.
pub struct ChessEngine {
    chess_board: ChessBoard,
    moves: Vec<Move>,
    taken_pieces: Vec<ChessPiece>,
}

impl View for ChessEngine {
    type V = EngineView;

    closed spec fn view(&self) -> EngineView {
        EngineView { board: self.chess_board, moves: self.moves@, taken: self.taken_pieces@ }
    }
}

/// Appends the square `(dr, dc)` away from `pos`, if it is on the board.
fn push_offset(out: &mut Vec<Position>, pos: &Position, dr: isize, dc: isize)
    ensures
        final(out)@ == old(out)@ + maybe(offset(*pos, dr as int, dc as int)),
{
    match pos.add_offset(dr, dc) {
        Ok(q) => {
            out.push(q);
        },
        Err(_) => {
            assert(maybe(offset(*pos, dr as int, dc as int)) =~= Seq::<Position>::empty());
        },
    }
    assert(final(out)@ =~= old(out)@ + maybe(offset(*pos, dr as int, dc as int)));
}

impl ChessEngine {
    /// A game starting from `board`, with no moves played and nothing taken.
    pub fn new(board: ChessBoard) -> (r: ChessEngine)
        ensures
            r@.board == board,
            r@.moves == Seq::<Move>::empty(),
            r@.taken == Seq::<ChessPiece>::empty(),
    {
        ChessEngine { chess_board: board, moves: Vec::new(), taken_pieces: Vec::new() }
    }

    /// The current board.
    pub fn get_board(&self) -> (r: &ChessBoard)
        ensures
            *r == self@.board,
    {
        &self.chess_board
    }

    /// The moves played so far, oldest first.
    pub fn played_moves(&self) -> (r: &Vec<Move>)
        ensures
            r@ == self@.moves,
    {
        &self.moves
    }

    /// The pieces captured so far, oldest first.
    pub fn taken_pieces(&self) -> (r: &Vec<ChessPiece>)
        ensures
            r@ == self@.taken,
    {
        &self.taken_pieces
    }

    /// Plays the piece on `from` to `to`. An `InvalidMove` error, with nothing
    /// changed, when `from` is empty, holds a piece of the side not to move, or `to`
    /// is not among its legal destinations. Otherwise the piece moves (and is marked
    /// as moved), a piece standing on `to` joins the captured pieces, the move joins
    /// the history, and the other side is to move.
    pub fn make_move(&mut self, from: Position, to: Position) -> (r: Result<
        GameState<'_>,
        ChessError,
    >)
        ensures
            r is Ok <==> can_move(old(self)@.board, from, to),
            r is Ok ==> final(self)@.board == apply_move(old(self)@.board, from, to),
            r is Ok ==> final(self)@.board.turn == opponent(old(self)@.board.turn),
            r is Ok ==> final(self)@.moves == old(self)@.moves.push(Move { from, to }),
            r is Ok ==> final(self)@.taken == old(self)@.taken + captured(
                old(self)@.board,
                to,
            ),
            r is Ok && old(self)@.board.piece_at(to) is Some ==> final(self)@.taken == old(
                self,
            )@.taken.push(old(self)@.board.piece_at(to)->0),
            r matches Ok(state) ==> state.status_view() == GameStatus::Ongoing
                && state.board_view() == final(self)@.board,
            r is Err ==> r matches Err(ChessError::InvalidMove(_)),
            r is Err ==> final(self)@ == old(self)@,
    {
        let from_cell = match self.chess_board.get_piece_at(&from) {
            Some(cell) => *cell,
            None => {
                return Err(ChessError::InvalidMove("from position does not exist".to_string()));
            },
        };
        let piece = match from_cell.piece {
            Some(piece) => piece,
            None => {
                return Err(ChessError::InvalidMove("no piece at from position".to_string()));
            },
        };
        if piece.colour != self.chess_board.turn {
            return Err(ChessError::InvalidMove("cannot move opponent's piece".to_string()));
        }
        let available = match self.get_available_moves(from) {
            Ok(v) => v,
            Err(e) => {
                return Err(e);
            },
        };
        if !contains_position(&available, &to) {
            return Err(ChessError::InvalidMove("target is not a legal destination".to_string()));
        }
        self.moves.push(Move { from, to });
        let (old_x, old_y) = from.board_position();
        let (new_x, new_y) = to.board_position();
        let taken_cell = self.chess_board.board[new_y][new_x];
        self.chess_board.board[new_y][new_x] = Cell {
            piece: Some(ChessPiece { moved: true, ..piece }),
            colour: taken_cell.colour,
        };
        self.chess_board.board[old_y][old_x] = Cell { piece: None, colour: from_cell.colour };
        if let Some(taken_piece) = taken_cell.piece {
            self.taken_pieces.push(taken_piece);
        }
        self.chess_board.turn = self.chess_board.turn.flip();
        Ok(GameState { status: GameStatus::Ongoing, board: &self.chess_board })
    }

    /// The legal destinations of the piece on `pos`, in generation order; empty for
    /// an empty square. Never an error: every square is on the board.
    pub fn get_available_moves(&self, pos: Position) -> (r: Result<Vec<Position>, ChessError>)
        ensures
            r matches Ok(v) && v@ == legal_moves(self@.board, pos),
    {
        let cell = match self.chess_board.get_piece_at(&pos) {
            Some(cell) => *cell,
            None => {
                return Err(ChessError::InvalidMove("cell does not exist".to_string()));
            },
        };
        match cell.piece {
            Some(piece) => {
                let raw = match piece.kind {
                    ChessPieceKind::Pawn => self.available_move_for_pawn(&pos, &piece),
                    ChessPieceKind::Knight => self.available_move_for_knight(&pos, &piece),
                    ChessPieceKind::Bishop => self.available_move_for_bishop(&pos, &piece),
                    ChessPieceKind::Rook => self.available_move_for_rook(&pos, &piece),
                    ChessPieceKind::Queen => self.available_move_for_queen(&pos, &piece),
                    ChessPieceKind::King => self.available_move_for_king(&pos, &piece),
                };
                Ok(self.keep_open_squares(&raw, &piece))
            },
            None => Ok(Vec::new()),
        }
    }

    /// The squares of `raw`, in order, that are empty or hold a piece of the side
    /// other than `piece`'s.
    fn keep_open_squares(&self, raw: &Vec<Position>, piece: &ChessPiece) -> (r: Vec<Position>)
        ensures
            r@ == keep_open(self@.board, piece.colour, raw@),
    {
        let mut out: Vec<Position> = Vec::new();
        let mut k: usize = 0;
        while k < raw.len()
            invariant
                k <= raw@.len(),
                out@ == keep_open(self@.board, piece.colour, raw@.subrange(0, k as int)),
            decreases raw@.len() - k,
        {
            let q = raw[k];
            assert(raw@.subrange(0, k + 1).drop_last() =~= raw@.subrange(0, k as int));
            let open = match self.chess_board.get_piece_at(&q) {
                Some(cell) => match cell.piece {
                    None => true,
                    Some(p) => p.colour != piece.colour,
                },
                None => false,
            };
            if open {
                out.push(q);
            }
            k = k + 1;
        }
        assert(raw@.subrange(0, raw@.len() as int) =~= raw@);
        out
    }

    /// The candidates of a pawn: one step forward; two steps while it has not moved;
    /// each forward diagonal that holds an opposing piece.
    fn available_move_for_pawn(&self, pos: &Position, piece: &ChessPiece) -> (r: Vec<Position>)
        ensures
            r@ == pawn_candidates(self@.board, *pos, *piece),
    {
        let direction = piece.colour.direction();
        let mut available_moves: Vec<Position> = Vec::new();
        push_offset(&mut available_moves, pos, direction, 0);
        let ghost after_one = available_moves@;
        if !piece.moved {
            push_offset(&mut available_moves, pos, 2 * direction, 0);
        } else {
            assert(available_moves@ =~= after_one + Seq::<Position>::empty());
        }
        self.push_capture(&mut available_moves, pos, piece, direction, -1);
        self.push_capture(&mut available_moves, pos, piece, direction, 1);
        available_moves
    }

    /// Appends the diagonal `(dr, dc)` away from `pos` if it holds a piece of the
    /// side other than `piece`'s.
    fn push_capture(
        &self,
        out: &mut Vec<Position>,
        pos: &Position,
        piece: &ChessPiece,
        dr: isize,
        dc: isize,
    )
        ensures
            final(out)@ == old(out)@ + capture_target(
                self@.board,
                piece.colour,
                offset(*pos, dr as int, dc as int),
            ),
    {
        let ghost t = capture_target(self@.board, piece.colour, offset(*pos, dr as int, dc as int));
        if let Ok(diag) = pos.add_offset(dr, dc) {
            if let Some(cell) = self.chess_board.get_piece_at(&diag) {
                let opposing = match cell.piece {
                    Some(p) => p.colour != piece.colour,
                    None => false,
                };
                if opposing {
                    out.push(diag);
                    return ;
                }
            }
        }
        assert(t =~= Seq::<Position>::empty());
        assert(final(out)@ =~= old(out)@ + t);
    }

    /// The candidates of a king: its four orthogonal neighbours.
    fn available_move_for_king(&self, pos: &Position, piece: &ChessPiece) -> (r: Vec<Position>)
        ensures
            r@ == king_candidates(*pos),
    {
        let mut out: Vec<Position> = Vec::new();
        push_offset(&mut out, pos, 1, 0);
        push_offset(&mut out, pos, -1, 0);
        push_offset(&mut out, pos, 0, 1);
        push_offset(&mut out, pos, 0, -1);
        assert(out@ =~= king_candidates(*pos));
        out
    }

    /// The candidates of a knight: its eight jumps that stay on the board.
    fn available_move_for_knight(&self, pos: &Position, piece: &ChessPiece) -> (r: Vec<Position>)
        ensures
            r@ == knight_candidates(*pos),
    {
        let mut out: Vec<Position> = Vec::new();
        push_offset(&mut out, pos, 1, 2);
        push_offset(&mut out, pos, 1, -2);
        push_offset(&mut out, pos, -1, 2);
        push_offset(&mut out, pos, -1, -2);
        push_offset(&mut out, pos, 2, 1);
        push_offset(&mut out, pos, 2, -1);
        push_offset(&mut out, pos, -2, 1);
        push_offset(&mut out, pos, -2, -1);
        assert(out@ =~= knight_candidates(*pos));
        out
    }

    /// The candidates of a bishop: its four diagonal rays.
    fn available_move_for_bishop(&self, pos: &Position, piece: &ChessPiece) -> (r: Vec<Position>)
        ensures
            r@ == bishop_candidates(self@.board, *pos),
    {
        let mut out = self.moves_with_offset(pos, 1, 1);
        let mut ray = self.moves_with_offset(pos, -1, 1);
        out.append(&mut ray);
        let mut ray = self.moves_with_offset(pos, -1, -1);
        out.append(&mut ray);
        let mut ray = self.moves_with_offset(pos, 1, -1);
        out.append(&mut ray);
        out
    }

    /// The candidates of a rook: its four orthogonal rays.
    fn available_move_for_rook(&self, pos: &Position, piece: &ChessPiece) -> (r: Vec<Position>)
        ensures
            r@ == rook_candidates(self@.board, *pos),
    {
        let mut out = self.moves_with_offset(pos, 1, 0);
        let mut ray = self.moves_with_offset(pos, 0, 1);
        out.append(&mut ray);
        let mut ray = self.moves_with_offset(pos, -1, 0);
        out.append(&mut ray);
        let mut ray = self.moves_with_offset(pos, 0, -1);
        out.append(&mut ray);
        out
    }

    /// The candidates of a queen: the rook's rays, then the bishop's.
    fn available_move_for_queen(&self, pos: &Position, piece: &ChessPiece) -> (r: Vec<Position>)
        ensures
            r@ == queen_candidates(self@.board, *pos),
    {
        let mut out = self.available_move_for_rook(pos, piece);
        let mut diagonals = self.available_move_for_bishop(pos, piece);
        out.append(&mut diagonals);
        out
    }

    /// The ray from `pos` stepping by `(i, j)`: each empty square, and the first
    /// occupied one, where it stops; it stops at the edge too.
    fn moves_with_offset(&self, pos: &Position, i: isize, j: isize) -> (r: Vec<Position>)
        ensures
            r@ == full_ray(self@.board, *pos, i as int, j as int),
    {
        let ghost b = self@.board;
        let mut moves: Vec<Position> = Vec::new();
        let mut cur = *pos;
        let mut n: usize = 1;
        while n < 8
            invariant
                1 <= n <= 8,
                b == self@.board,
                moves@ + ray(b, cur, i as int, j as int, (8 - n) as nat) == full_ray(
                    b,
                    *pos,
                    i as int,
                    j as int,
                ),
            decreases 8 - n,
        {
            let ghost rest = ray(b, cur, i as int, j as int, (8 - n) as nat);
            match cur.add_offset(i, j) {
                Ok(npos) => {
                    let occupied = match self.chess_board.get_piece_at(&npos) {
                        Some(cell) => cell.piece.is_some(),
                        None => false,
                    };
                    let ghost before = moves@;
                    moves.push(npos);
                    if occupied {
                        assert(rest == seq![npos]);
                        assert(moves@ =~= before + rest);
                        return moves;
                    }
                    assert(moves@ + ray(b, npos, i as int, j as int, (8 - (n + 1)) as nat)
                        =~= before + rest);
                    cur = npos;
                },
                Err(_) => {
                    assert(rest =~= Seq::<Position>::empty());
                    assert(moves@ =~= moves@ + rest);
                    return moves;
                },
            }
            n = n + 1;
        }
        assert(ray(b, cur, i as int, j as int, 0) =~= Seq::<Position>::empty());
        assert(moves@ =~= moves@ + ray(b, cur, i as int, j as int, 0));
        moves
    }
}

/// Whether `v` holds `q`.
fn contains_position(v: &Vec<Position>, q: &Position) -> (r: bool)
    ensures
        r == v@.contains(*q),
{
    let mut k: usize = 0;
    while k < v.len()
        invariant
            k <= v@.len(),
            forall|j: int| 0 <= j < k ==> v@[j] != *q,
        decreases v@.len() - k,
    {
        if v[k] == *q {
            return true;
        }
        k = k + 1;
    }
    false
}

impl Clone for ChessEngine {
    /// A full copy: the board and both histories.
    fn clone(&self) -> (r: ChessEngine)
        ensures
            r@ == self@,
    {
        let r = ChessEngine {
            chess_board: self.chess_board,
            moves: self.moves.clone(),
            taken_pieces: self.taken_pieces.clone(),
        };
        assert(r.moves@ =~= self.moves@);
        assert(r.taken_pieces@ =~= self.taken_pieces@);
        r
    }
}

impl Default for ChessEngine {
    /// A game from the standard starting position, White to move.
    fn default() -> (r: ChessEngine)
        ensures
            r@.board.is_standard(),
            r@.moves == Seq::<Move>::empty(),
            r@.taken == Seq::<ChessPiece>::empty(),
    {
        ChessEngine::new(ChessBoard::standard())
    }
}

} // verus!

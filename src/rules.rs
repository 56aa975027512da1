//! What the rules allow: the candidate squares of each kind of piece, the occupancy
//! filter, and the board that a move leaves behind.
use vstd::prelude::*;
use vstd::array::spec_array_update;

use crate::board::{Cell, ChessBoard};
use crate::piece::{forward, opponent, ChessColour, ChessPiece, ChessPieceKind};
use crate::position::{offset, Position};

verus! {

/// The square, if there is one, as a sequence of at most one square.
pub open spec fn maybe(o: Option<Position>) -> Seq<Position> {
    match o {
        Some(q) => seq![q],
        None => Seq::empty(),
    }
}

/// A diagonal pawn target: kept only when it holds a piece of the other side.
pub open spec fn capture_target(b: ChessBoard, side: ChessColour, o: Option<Position>) -> Seq<
    Position,
> {
    match o {
        Some(q) => if b.piece_at(q) matches Some(x) && x.colour != side {
            seq![q]
        } else {
            Seq::empty()
        },
        None => Seq::empty(),
    }
}

/// The candidate squares of a pawn: one step forward; two steps forward while it has
/// not moved (whatever stands between); then the two forward diagonals, left file
/// first, where an opposing piece stands.
pub open spec fn pawn_candidates(b: ChessBoard, p: Position, piece: ChessPiece) -> Seq<Position> {
    let d = forward(piece.colour);
    maybe(offset(p, d, 0)) + (if !piece.moved {
        maybe(offset(p, 2 * d, 0))
    } else {
        Seq::empty()
    }) + capture_target(b, piece.colour, offset(p, d, -1)) + capture_target(
        b,
        piece.colour,
        offset(p, d, 1),
    )
}

/// The candidate squares of a knight, in the order of its eight (rank, file) jumps.
pub open spec fn knight_candidates(p: Position) -> Seq<Position> {
    maybe(offset(p, 1, 2)) + maybe(offset(p, 1, -2)) + maybe(offset(p, -1, 2)) + maybe(
        offset(p, -1, -2),
    ) + maybe(offset(p, 2, 1)) + maybe(offset(p, 2, -1)) + maybe(offset(p, -2, 1)) + maybe(
        offset(p, -2, -1),
    )
}

/// The candidate squares of a king: the four orthogonal neighbours (up, down, right,
/// left). Diagonal steps and castling are not generated.
pub open spec fn king_candidates(p: Position) -> Seq<Position> {
    maybe(offset(p, 1, 0)) + maybe(offset(p, -1, 0)) + maybe(offset(p, 0, 1)) + maybe(
        offset(p, 0, -1),
    )
}

/// The squares a slider reaches from `q` stepping by `(dr, dc)`, at most `fuel`
/// steps: each empty square, then the first occupied one (a possible capture), where
/// the ray stops; it stops at the edge too.
pub open spec fn ray(b: ChessBoard, q: Position, dr: int, dc: int, fuel: nat) -> Seq<Position>
    decreases fuel,
{
    if fuel == 0 {
        Seq::empty()
    } else {
        match offset(q, dr, dc) {
            None => Seq::empty(),
            Some(nq) => if b.piece_at(nq) is Some {
                seq![nq]
            } else {
                seq![nq] + ray(b, nq, dr, dc, (fuel - 1) as nat)
            },
        }
    }
}

/// The full ray from `p` in one direction.
pub open spec fn full_ray(b: ChessBoard, p: Position, dr: int, dc: int) -> Seq<Position> {
    ray(b, p, dr, dc, 7)
}

/// The rays of a bishop, in the order (1, 1), (-1, 1), (-1, -1), (1, -1).
pub open spec fn bishop_candidates(b: ChessBoard, p: Position) -> Seq<Position> {
    full_ray(b, p, 1, 1) + full_ray(b, p, -1, 1) + full_ray(b, p, -1, -1) + full_ray(b, p, 1, -1)
}

/// The rays of a rook, in the order (1, 0), (0, 1), (-1, 0), (0, -1).
pub open spec fn rook_candidates(b: ChessBoard, p: Position) -> Seq<Position> {
    full_ray(b, p, 1, 0) + full_ray(b, p, 0, 1) + full_ray(b, p, -1, 0) + full_ray(b, p, 0, -1)
}

/// The rays of a queen: the rook's four, then the bishop's four.
pub open spec fn queen_candidates(b: ChessBoard, p: Position) -> Seq<Position> {
    rook_candidates(b, p) + bishop_candidates(b, p)
}

/// The candidate squares of `piece` standing on `p`, before the occupancy filter.
pub open spec fn candidates(b: ChessBoard, p: Position, piece: ChessPiece) -> Seq<Position> {
    match piece.kind {
        ChessPieceKind::Pawn => pawn_candidates(b, p, piece),
        ChessPieceKind::Knight => knight_candidates(p),
        ChessPieceKind::Bishop => bishop_candidates(b, p),
        ChessPieceKind::Rook => rook_candidates(b, p),
        ChessPieceKind::Queen => queen_candidates(b, p),
        ChessPieceKind::King => king_candidates(p),
    }
}

/// A square that a piece of `side` may end on: empty, or held by the other side.
pub open spec fn open_to(b: ChessBoard, side: ChessColour, q: Position) -> bool {
    match b.piece_at(q) {
        None => true,
        Some(x) => x.colour != side,
    }
}

/// The squares of `s`, in order, that a piece of `side` may end on.
pub open spec fn keep_open(b: ChessBoard, side: ChessColour, s: Seq<Position>) -> Seq<Position>
    decreases s.len(),
{
    if s.len() == 0 {
        Seq::empty()
    } else {
        let before = keep_open(b, side, s.drop_last());
        if open_to(b, side, s.last()) {
            before.push(s.last())
        } else {
            before
        }
    }
}

/// The legal-destination set of the square `p`, in generation order: empty for an
/// empty square.
pub open spec fn legal_moves(b: ChessBoard, p: Position) -> Seq<Position> {
    match b.piece_at(p) {
        None => Seq::empty(),
        Some(piece) => keep_open(b, piece.colour, candidates(b, p, piece)),
    }
}

/// The side to move may move from `from` to `to`.
pub open spec fn can_move(b: ChessBoard, from: Position, to: Position) -> bool {
    &&& b.piece_at(from) matches Some(piece)
    &&& piece.colour == b.turn
    &&& legal_moves(b, from).contains(to)
}

/// The grid with the cell at rank index `r` and file index `c` replaced.
pub open spec fn set_cell(g: [[Cell; 8]; 8], r: int, c: int, cell: Cell) -> [[Cell; 8]; 8] {
    spec_array_update(g, r, spec_array_update(g[r], c, cell))
}

/// The piece after it moves: the same, marked as moved.
pub open spec fn relocated(piece: Option<ChessPiece>) -> Option<ChessPiece> {
    match piece {
        Some(x) => Some(ChessPiece { moved: true, ..x }),
        None => None,
    }
}

/// The board after the piece on `from` moves to `to`: the target keeps its shading
/// and takes the piece, marked as moved; the origin is emptied; the other side is to
/// move.
pub open spec fn apply_move(b: ChessBoard, from: Position, to: Position) -> ChessBoard {
    let moved = Cell { piece: relocated(b.piece_at(from)), colour: b.cell_at(to).colour };
    let vacated = Cell { piece: None, colour: b.cell_at(from).colour };
    ChessBoard {
        board: set_cell(
            set_cell(b.board, to.row@, to.column@, moved),
            from.row@,
            from.column@,
            vacated,
        ),
        turn: opponent(b.turn),
    }
}

/// The pieces a move from `from` to `to` captures: the occupant of `to`, if any.
pub open spec fn captured(b: ChessBoard, to: Position) -> Seq<ChessPiece> {
    match b.piece_at(to) {
        Some(x) => seq![x],
        None => Seq::empty(),
    }
}

/// Every square that the occupancy filter keeps is open to the side.
proof fn lemma_keep_open(b: ChessBoard, side: ChessColour, s: Seq<Position>, q: Position)
    requires
        keep_open(b, side, s).contains(q),
    ensures
        open_to(b, side, q),
        s.contains(q),
    decreases s.len(),
{
    if s.len() > 0 {
        let before = keep_open(b, side, s.drop_last());
        if before.contains(q) {
            lemma_keep_open(b, side, s.drop_last(), q);
            let i = choose|i: int| 0 <= i < s.drop_last().len() && s.drop_last()[i] == q;
            assert(s[i] == q);
        } else {
            assert(open_to(b, side, s.last()));
            assert(q == s.last());
            assert(s[s.len() - 1] == q);
        }
    }
}

/// No legal destination holds a piece of the mover's own side: each is empty or
/// holds an opposing piece, and each is among the piece's candidate squares.
pub proof fn lemma_legal_closure(b: ChessBoard, p: Position, q: Position)
    requires
        legal_moves(b, p).contains(q),
    ensures
        b.piece_at(p) is Some,
        candidates(b, p, b.piece_at(p)->0).contains(q),
        b.piece_at(q) is None || b.piece_at(q)->0.colour != b.piece_at(p)->0.colour,
{
    let piece = b.piece_at(p)->0;
    lemma_keep_open(b, piece.colour, candidates(b, p, piece), q);
}

} // verus!

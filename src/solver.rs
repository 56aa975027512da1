//! The one-ply search: score every legal move of the side to move by the material it
//! leaves, and pick the lowest-scoring one.
use vstd::prelude::*;

use crate::board::{standard_piece, Cell, ChessBoard};
use crate::engine::ChessEngine;
use crate::error::ChessError;
use crate::piece::{kind_value, ChessColour, ChessPiece};
use crate::position::{offset, square, Move, Position};
use crate::rules::{apply_move, can_move, candidates, keep_open, legal_moves, open_to};

verus! {

#[verifier::external_type_specification]
#[verifier::external_body]
pub struct ExInstant(std::time::Instant);

/// A material score.
pub type BoardScore = i32;

/// The material of `ps` from `side`'s point of view: its pieces' values minus the
/// other side's.
pub open spec fn material_of(ps: Seq<(Position, Cell)>, side: ChessColour) -> int
    decreases ps.len(),
{
    if ps.len() == 0 {
        0
    } else {
        material_of(ps.drop_last(), side) + match ps.last().1.piece {
            Some(p) => if p.colour == side {
                kind_value(p.kind)
            } else {
                -kind_value(p.kind)
            },
            None => 0,
        }
    }
}

/// The material balance of a board from `side`'s point of view.
pub open spec fn material(b: ChessBoard, side: ChessColour) -> int {
    material_of(b.occupied(), side)
}

/// The pieces of `side` among `ps`, in order.
pub open spec fn movable(ps: Seq<(Position, Cell)>, side: ChessColour) -> Seq<
    (Position, ChessPiece),
>
    decreases ps.len(),
{
    if ps.len() == 0 {
        Seq::empty()
    } else {
        let before = movable(ps.drop_last(), side);
        match ps.last().1.piece {
            Some(p) => if p.colour == side {
                before.push((ps.last().0, p))
            } else {
                before
            },
            None => before,
        }
    }
}

/// The moves from `from` to each square of `tos`, in order.
pub open spec fn moves_from(from: Position, tos: Seq<Position>) -> Seq<Move> {
    tos.map_values(|to: Position| Move { from, to })
}

/// The legal moves of the pieces `ms`, piece by piece in order.
pub open spec fn moves_of(b: ChessBoard, ms: Seq<(Position, ChessPiece)>) -> Seq<Move>
    decreases ms.len(),
{
    if ms.len() == 0 {
        Seq::empty()
    } else {
        moves_of(b, ms.drop_last()) + moves_from(ms.last().0, legal_moves(b, ms.last().0))
    }
}

/// Every legal move of the side to move, in search order: pieces rank 1 first, file
/// a first, and each piece's destinations in generation order.
pub open spec fn all_moves(b: ChessBoard) -> Seq<Move> {
    moves_of(b, movable(b.occupied(), b.turn))
}

/// The score of a move for the side to move: the material it leaves.
pub open spec fn move_score(b: ChessBoard, m: Move) -> int {
    material(apply_move(b, m.from, m.to), b.turn)
}

/// The pick among `ms`: the lowest score, the last such move when several tie.
pub open spec fn pick(b: ChessBoard, ms: Seq<Move>) -> Option<(Move, int)>
    decreases ms.len(),
{
    if ms.len() == 0 {
        None
    } else {
        let s = move_score(b, ms.last());
        match pick(b, ms.drop_last()) {
            Some(best) => if s <= best.1 {
                Some((ms.last(), s))
            } else {
                Some(best)
            },
            None => Some((ms.last(), s)),
        }
    }
}

/// The move the search picks on a board, if the side to move has any.
pub open spec fn best_move(b: ChessBoard) -> Option<(Move, int)> {
    pick(b, all_moves(b))
}

/// The search budget: fewer than ten levels deep and at most five seconds spent.
pub open spec fn budget_allows(depth: int, elapsed_secs: int) -> bool {
    depth < 10 && elapsed_secs <= 5
}

proof fn lemma_occupied_upto(b: ChessBoard, k: int)
    requires
        0 <= k <= 64,
    ensures
        b.occupied_upto(k).len() <= k,
        forall|i: int|
            0 <= i < b.occupied_upto(k).len() ==> {
                let e = #[trigger] b.occupied_upto(k)[i];
                &&& b.cell_at(e.0) == e.1
                &&& e.1.piece is Some
            },
    decreases k,
{
    if k > 0 {
        lemma_occupied_upto(b, k - 1);
        let r = (k - 1) / 8;
        let c = (k - 1) % 8;
        assert(0 <= r < 8 && 0 <= c < 8);
    }
}

proof fn lemma_material_bound(ps: Seq<(Position, Cell)>, side: ChessColour)
    ensures
        -200 * ps.len() <= material_of(ps, side) <= 200 * ps.len(),
    decreases ps.len(),
{
    if ps.len() > 0 {
        lemma_material_bound(ps.drop_last(), side);
    }
}

/// What `movable` keeps are pieces of `side`, standing where `ps` says.
proof fn lemma_movable(b: ChessBoard, ps: Seq<(Position, Cell)>, side: ChessColour)
    requires
        forall|i: int|
            0 <= i < ps.len() ==> b.cell_at((#[trigger] ps[i]).0) == ps[i].1,
    ensures
        forall|i: int|
            0 <= i < movable(ps, side).len() ==> {
                let e = #[trigger] movable(ps, side)[i];
                &&& b.piece_at(e.0) == Some(e.1)
                &&& e.1.colour == side
            },
    decreases ps.len(),
{
    if ps.len() > 0 {
        let d = ps.drop_last();
        assert forall|i: int| 0 <= i < d.len() implies b.cell_at((#[trigger] d[i]).0) == d[i].1 by {
            assert(d[i] == ps[i]);
        }
        lemma_movable(b, d, side);
        assert(b.cell_at(ps.last().0) == ps.last().1);
    }
}

/// Every move of `moves_of` is one the side to move may play, when the pieces are
/// that side's and stand where they are listed.
proof fn lemma_moves_of(b: ChessBoard, ms: Seq<(Position, ChessPiece)>, m: Move)
    requires
        forall|i: int|
            0 <= i < ms.len() ==> {
                let e = #[trigger] ms[i];
                &&& b.piece_at(e.0) == Some(e.1)
                &&& e.1.colour == b.turn
            },
        moves_of(b, ms).contains(m),
    ensures
        can_move(b, m.from, m.to),
    decreases ms.len(),
{
    if ms.len() > 0 {
        let d = ms.drop_last();
        let last = ms.last();
        let tail = moves_from(last.0, legal_moves(b, last.0));
        let i = choose|i: int| 0 <= i < moves_of(b, ms).len() && moves_of(b, ms)[i] == m;
        if i < moves_of(b, d).len() {
            assert(moves_of(b, ms)[i] == moves_of(b, d)[i]);
            assert forall|j: int| 0 <= j < d.len() implies {
                let e = #[trigger] d[j];
                &&& b.piece_at(e.0) == Some(e.1)
                &&& e.1.colour == b.turn
            } by {
                assert(d[j] == ms[j]);
            }
            lemma_moves_of(b, d, m);
        } else {
            let j = i - moves_of(b, d).len();
            assert(moves_of(b, ms)[i] == tail[j]);
            assert(m.from == last.0);
            assert(legal_moves(b, last.0)[j] == m.to);
            assert(ms[ms.len() - 1] == last);
        }
    }
}

/// The pick is one of the moves, with its score; no move scores lower, and every
/// later move scores higher.
proof fn lemma_pick(b: ChessBoard, ms: Seq<Move>)
    ensures
        pick(b, ms) is None <==> ms.len() == 0,
        pick(b, ms) matches Some(best) ==> {
            &&& ms.contains(best.0)
            &&& best.1 == move_score(b, best.0)
            &&& forall|j: int| 0 <= j < ms.len() ==> best.1 <= #[trigger] move_score(b, ms[j])
        },
    decreases ms.len(),
{
    if ms.len() > 0 {
        let d = ms.drop_last();
        lemma_pick(b, d);
        assert(ms[ms.len() - 1] == ms.last());
        match pick(b, d) {
            Some(best) => {
                let i = choose|i: int| 0 <= i < d.len() && d[i] == best.0;
                assert(ms[i] == best.0);
                assert forall|j: int| 0 <= j < ms.len() implies (pick(b, ms)->0).1 <= #[trigger] move_score(b, ms[j]) by {
                    if j < d.len() {
                        assert(ms[j] == d[j]);
                    }
                }
            },
            None => {},
        }
    }
}

/// The search picks a move exactly when the side to move has a legal move; the move
/// it picks is legal for that side, scores no more than any other legal move, and
/// its score is the material it leaves.
pub proof fn lemma_best_move_is_legal(b: ChessBoard)
    ensures
        best_move(b) is None <==> all_moves(b).len() == 0,
        best_move(b) matches Some(best) ==> {
            &&& can_move(b, best.0.from, best.0.to)
            &&& all_moves(b).contains(best.0)
            &&& best.1 == move_score(b, best.0)
            &&& forall|j: int|
                0 <= j < all_moves(b).len() ==> best.1 <= #[trigger] move_score(
                    b,
                    all_moves(b)[j],
                )
        },
{
    lemma_pick(b, all_moves(b));
    lemma_occupied_upto(b, 64);
    lemma_movable(b, b.occupied(), b.turn);
    if best_move(b) is Some {
        let best = best_move(b)->0;
        lemma_moves_of(b, movable(b.occupied(), b.turn), best.0);
    }
}

/// Relies on `std::time::Instant::now`: the current instant; nothing is known of it.
/// Each occupied square among the first `k` appears in `occupied_upto(k)` with its
/// cell.
proof fn lemma_occupied_contains(b: ChessBoard, k: int, j: int)
    requires
        0 <= j < k <= 64,
        b.cell(j / 8, j % 8).piece is Some,
    ensures
        b.occupied_upto(k).contains((square(j / 8, j % 8), b.cell(j / 8, j % 8))),
    decreases k,
{
    let e = (square(j / 8, j % 8), b.cell(j / 8, j % 8));
    if j < k - 1 {
        lemma_occupied_contains(b, k - 1, j);
        let prev = b.occupied_upto(k - 1);
        let i = choose|i: int| 0 <= i < prev.len() && prev[i] == e;
        assert(b.occupied_upto(k)[i] == e);
    } else {
        let cur = b.occupied_upto(k);
        assert(cur[cur.len() - 1] == e);
    }
}

/// A piece of `side` listed in `ps` is among `movable(ps, side)`.
proof fn lemma_movable_contains(
    ps: Seq<(Position, Cell)>,
    side: ChessColour,
    e: (Position, Cell),
    p: ChessPiece,
)
    requires
        ps.contains(e),
        e.1.piece == Some(p),
        p.colour == side,
    ensures
        movable(ps, side).contains((e.0, p)),
    decreases ps.len(),
{
    let d = ps.drop_last();
    if d.contains(e) {
        lemma_movable_contains(d, side, e, p);
        let m = movable(d, side);
        let i = choose|i: int| 0 <= i < m.len() && m[i] == (e.0, p);
        assert(movable(ps, side)[i] == (e.0, p));
    } else {
        let i = choose|i: int| 0 <= i < ps.len() && ps[i] == e;
        if i < d.len() {
            assert(d[i] == e);
        }
        assert(ps.last() == e);
        let m = movable(ps, side);
        assert(m[m.len() - 1] == (e.0, p));
    }
}

/// A listed piece with a legal destination gives `moves_of` a move.
proof fn lemma_moves_of_nonempty(b: ChessBoard, ms: Seq<(Position, ChessPiece)>, e: (
    Position,
    ChessPiece,
))
    requires
        ms.contains(e),
        legal_moves(b, e.0).len() > 0,
    ensures
        moves_of(b, ms).len() > 0,
    decreases ms.len(),
{
    let d = ms.drop_last();
    if d.contains(e) {
        lemma_moves_of_nonempty(b, d, e);
    } else {
        let i = choose|i: int| 0 <= i < ms.len() && ms[i] == e;
        if i < d.len() {
            assert(d[i] == e);
        }
        assert(ms.last() == e);
    }
}

/// The occupancy filter keeps any square of `s` that is open to the side.
proof fn lemma_keep_open_nonempty(b: ChessBoard, side: ChessColour, s: Seq<Position>, i: int)
    requires
        0 <= i < s.len(),
        open_to(b, side, s[i]),
    ensures
        keep_open(b, side, s).len() > 0,
    decreases s.len(),
{
    if i < s.len() - 1 {
        assert(s.drop_last()[i] == s[i]);
        lemma_keep_open_nonempty(b, side, s.drop_last(), i);
    }
}

/// On the standard starting position the search has a move to pick, and that move
/// is legal for White.
pub proof fn lemma_standard_position_has_move(b: ChessBoard)
    requires
        b.is_standard(),
    ensures
        best_move(b) matches Some(best) && can_move(b, best.0.from, best.0.to),
{
    let a2 = square(1, 0);
    let a3 = square(2, 0);
    let cell = b.cell(1, 0);
    let pawn = cell.piece->0;
    assert(b.cell(2, 0).piece is None);
    assert(cell.piece == standard_piece(1, 0));
    assert(offset(a2, 1, 0) == Some(a3));
    let cands = candidates(b, a2, pawn);
    assert(cands[0] == a3);
    lemma_keep_open_nonempty(b, pawn.colour, cands, 0);
    assert(8int / 8 == 1 && 8int % 8 == 0);
    lemma_occupied_contains(b, 64, 8);
    lemma_movable_contains(b.occupied(), b.turn, (a2, cell), pawn);
    lemma_moves_of_nonempty(b, movable(b.occupied(), b.turn), (a2, pawn));
    lemma_best_move_is_legal(b);
}

#[verifier::external_body]
fn now() -> std::time::Instant {
    std::time::Instant::now()
}

/// Relies on `std::time::Instant::elapsed`, read in whole seconds (`Duration::as_secs`);
/// nothing is known of the value, which depends on the clock.
#[verifier::external_body]
fn elapsed_secs(start: &std::time::Instant) -> u64 {
    start.elapsed().as_secs()
}

/// The material balance of `board` from `self_colour`'s point of view: the values of
/// its pieces minus those of the other side's (pawn 1, knight and bishop 3, rook 5,
/// queen 9, king 200).
pub fn score_board(board: &ChessBoard, self_colour: &ChessColour) -> (r: BoardScore)
    ensures
        r == material(*board, *self_colour),
{
    let ps = board.pieces();
    proof {
        lemma_occupied_upto(*board, 64);
    }
    let mut total: BoardScore = 0;
    let mut i: usize = 0;
    while i < ps.len()
        invariant
            ps@ == board.occupied(),
            ps@.len() <= 64,
            i <= ps@.len(),
            total == material_of(ps@.subrange(0, i as int), *self_colour),
        decreases ps@.len() - i,
    {
        let ghost before = ps@.subrange(0, i as int);
        assert(ps@.subrange(0, i + 1).drop_last() =~= before);
        proof {
            lemma_material_bound(before, *self_colour);
        }
        match ps[i].1.piece {
            Some(chess_piece) => {
                let value = chess_piece.kind.value() as BoardScore;
                if chess_piece.colour == *self_colour {
                    total = total + value;
                } else {
                    total = total - value;
                }
            },
            None => {},
        }
        i = i + 1;
    }
    assert(ps@.subrange(0, ps@.len() as int) =~= ps@);
    total
}

/// Whether the search budget allows going on: fewer than ten levels deep and at most
/// five seconds spent.
pub fn within_budget(depth: usize, elapsed_secs: u64) -> (r: bool)
    ensures
        r == budget_allows(depth as int, elapsed_secs as int),
{
    depth < 10 && elapsed_secs <= 5
}

/// How deep the search is and when it started.
struct RecursionContext {
    depth: usize,
    start_time: std::time::Instant,
}

impl RecursionContext {
    /// Whether the budget allows another step, `elapsed_secs` having passed on this
    /// context's clock.
    fn should_recurse(&self, elapsed_secs: u64) -> (r: bool)
        ensures
            r == budget_allows(self.depth as int, elapsed_secs as int),
    {
        within_budget(self.depth, elapsed_secs)
    }

    /// The context one level deeper, on the same clock.
    fn recurse(&self) -> (r: RecursionContext)
        requires
            self.depth < 10,
        ensures
            r.depth == self.depth + 1,
    {
        RecursionContext { depth: self.depth + 1, start_time: self.start_time }
    }
}

/// The pick of the search for the side to move: every legal move is played on a
/// copy of the game and scored by the material it leaves for the mover; the
/// lowest-scoring move wins, the last one found among equals. `None` when the side
/// to move has no legal move.
pub fn select_move(game: &ChessEngine) -> (r: Option<(Move, BoardScore)>)
    ensures
        match best_move(game@.board) {
            Some(best) => r == Some((best.0, best.1 as BoardScore)) && best.1 == (r->0).1,
            None => r is None,
        },
{
    let ghost b = game@.board;
    let self_colour = game.get_board().turn;
    let ps = game.get_board().pieces();
    proof {
        lemma_occupied_upto(b, 64);
    }
    let mut movable_pieces: Vec<(Position, ChessPiece)> = Vec::new();
    let mut i: usize = 0;
    while i < ps.len()
        invariant
            ps@ == b.occupied(),
            self_colour == b.turn,
            i <= ps@.len(),
            movable_pieces@ == movable(ps@.subrange(0, i as int), self_colour),
        decreases ps@.len() - i,
    {
        assert(ps@.subrange(0, i + 1).drop_last() =~= ps@.subrange(0, i as int));
        let (position, cell) = ps[i];
        if let Some(piece) = cell.piece {
            if piece.colour == self_colour {
                movable_pieces.push((position, piece));
            }
        }
        i = i + 1;
    }
    assert(ps@.subrange(0, ps@.len() as int) =~= ps@);
    proof {
        lemma_movable(b, b.occupied(), b.turn);
    }
    let ghost ms = movable_pieces@;
    let ghost mut seen: Seq<Move> = Seq::empty();
    let mut best: Option<(Move, BoardScore)> = None;
    let mut k: usize = 0;
    while k < movable_pieces.len()
        invariant
            b == game@.board,
            self_colour == b.turn,
            ms == movable_pieces@,
            ms == movable(b.occupied(), b.turn),
            forall|i: int|
                0 <= i < ms.len() ==> {
                    let e = #[trigger] ms[i];
                    &&& b.piece_at(e.0) == Some(e.1)
                    &&& e.1.colour == b.turn
                },
            k <= ms.len(),
            seen == moves_of(b, ms.subrange(0, k as int)),
            match pick(b, seen) {
                Some(p) => best == Some((p.0, p.1 as BoardScore)) && p.1 == (best->0).1,
                None => best is None,
            },
        decreases ms.len() - k,
    {
        let (position, piece) = movable_pieces[k];
        let dests = match game.get_available_moves(position) {
            Ok(v) => v,
            Err(_) => Vec::new(),
        };
        let ghost seen0 = seen;
        let mut j: usize = 0;
        while j < dests.len()
            invariant
                b == game@.board,
                self_colour == b.turn,
                dests@ == legal_moves(b, position),
                b.piece_at(position) == Some(piece),
                piece.colour == b.turn,
                j <= dests@.len(),
                seen == seen0 + moves_from(position, dests@.subrange(0, j as int)),
                match pick(b, seen) {
                    Some(p) => best == Some((p.0, p.1 as BoardScore)) && p.1 == (best->0).1,
                    None => best is None,
                },
            decreases dests@.len() - j,
        {
            let to_pos = dests[j];
            let mv = Move { from: position, to: to_pos };
            assert(legal_moves(b, position)[j as int] == to_pos);
            let mut new_game = game.clone();
            // The candidate came from the engine's own legality function, so the copy
            // accepts it.
            assert(can_move(b, mv.from, mv.to));
            if new_game.make_move(mv.from, mv.to).is_ok() {
                let score = score_board(new_game.get_board(), &self_colour);
                let ghost prev = seen;
                proof {
                    seen = seen.push(mv);
                    assert(seen.drop_last() =~= prev);
                    assert(seen0 + moves_from(position, dests@.subrange(0, j + 1)) =~= seen);
                }
                let replace = match best {
                    Some((_, s)) => score <= s,
                    None => true,
                };
                if replace {
                    best = Some((mv, score));
                }
            }
            j = j + 1;
        }
        proof {
            assert(dests@.subrange(0, dests@.len() as int) =~= dests@);
            let t = ms.subrange(0, k + 1);
            assert(t.drop_last() =~= ms.subrange(0, k as int));
            assert(t.last() == (position, piece));
        }
        k = k + 1;
    }
    assert(ms.subrange(0, ms.len() as int) =~= ms);
    best
}

/// The search from a position for `self_colour`, which is the side to move,
/// `elapsed_secs` after it started: `None` when the budget is spent, else the pick of
/// `select_move`.
fn best_move_from_position(
    game: &ChessEngine,
    self_colour: &ChessColour,
    context: RecursionContext,
    elapsed_secs: u64,
) -> (r: Option<(Move, BoardScore)>)
    requires
        *self_colour == game@.board.turn,
    ensures
        r == if budget_allows(context.depth as int, elapsed_secs as int) {
            select_spec(game@.board)
        } else {
            None
        },
{
    if !context.should_recurse(elapsed_secs) {
        return None;
    }
    select_move(game)
}

/// The message of the solver's error.
pub open spec fn no_move_message() -> Seq<char> {
    seq![
        'N', 'o', ' ', 'v', 'a', 'l', 'i', 'd', ' ', 'm', 'o', 'v', 'e', 's', ' ', 'f', 'o',
        'u', 'n', 'd',
    ]
}

/// What `select_move` returns on a board.
pub open spec fn select_spec(b: ChessBoard) -> Option<(Move, BoardScore)> {
    match best_move(b) {
        Some(best) => Some((best.0, best.1 as BoardScore)),
        None => None,
    }
}

/// The move the solver plays for the side to move: the pick of `select_move`. A
/// `SolverError` ("No valid moves found") when that side has no legal move, or when
/// the time budget was spent before the search began.
pub fn solve_next_move(game: &ChessEngine) -> (r: Result<Move, ChessError>)
    ensures
        r matches Ok(m) ==> best_move(game@.board) matches Some(best) && best.0 == m,
        r matches Ok(m) ==> can_move(game@.board, m.from, m.to),
        best_move(game@.board) is None ==> r is Err,
        r is Err ==> (r matches Err(ChessError::SolverError(msg)) && msg@ == no_move_message()),
{
    let self_colour = game.get_board().turn;
    let context = RecursionContext { depth: 0, start_time: now() };
    let secs = elapsed_secs(&context.start_time);
    let best = best_move_from_position(game, &self_colour, context, secs);
    proof {
        lemma_best_move_is_legal(game@.board);
    }
    match best {
        Some((mv, _score)) => Ok(mv),
        None => {
            let msg = "No valid moves found".to_string();
            proof {
                reveal_strlit("No valid moves found");
            }
            Err(ChessError::SolverError(msg))
        },
    }
}

} // verus!

//! The board: an 8×8 grid of shaded cells holding optional pieces, and the side to move.
use vstd::prelude::*;

use crate::error::ChessError;
use crate::piece::{
    ChessColour, ChessPiece, ChessPieceKind, kind_code, piece_letter, piece_of_letter, side_code,
};
use crate::position::{on_board, square, string_from_chars, Column, Position, Row};
use crate::text::{chars_of, copy_range, trim, trim_bounds};

verus! {

/// A square of the board: its occupant, if any, and its fixed shading.
#[derive(Debug, Clone, Copy, PartialEq, Eq, Hash, Structural)]
pub struct Cell {
    pub piece: Option<ChessPiece>,
    pub colour: ChessColour,
}

/// The grid, indexed `[rank][file]` with rank index 0 being rank 1, and the side to
/// move.
#[derive(Debug, Clone, Copy, PartialEq, Eq)]
pub struct ChessBoard {
    pub board: [[Cell; 8]; 8],
    pub turn: ChessColour,
}

/// The shading of the square at rank index `r` and file index `c`.
pub open spec fn shade(r: int, c: int) -> ChessColour {
    if (r + c) % 2 == 0 {
        ChessColour::White
    } else {
        ChessColour::Black
    }
}

/// Whether a diagram character is `.` (an empty square) or a piece letter.
pub open spec fn is_cell_char(c: char) -> bool {
    c == '.' || piece_of_letter(c) is Some
}

/// The occupant a diagram character stands for.
pub open spec fn occupant_of_char(c: char) -> Option<ChessPiece> {
    if c == '.' {
        None
    } else {
        piece_of_letter(c)
    }
}

/// The diagram character of a cell: its piece's letter, or `.`.
pub open spec fn cell_char(cell: Cell) -> char {
    match cell.piece {
        Some(p) => piece_letter(p),
        None => '.',
    }
}

/// The number of characters from index `i` up to the next line break (or the end).
pub open spec fn line_len(s: Seq<char>, i: int) -> nat
    decreases s.len() - i,
{
    if i < 0 || i >= s.len() || s[i] == '\n' {
        0
    } else {
        1 + line_len(s, i + 1)
    }
}

/// The lines of `s` from index `i` on, top to bottom, each trimmed, blank ones left out.
pub open spec fn diagram_lines_from(s: Seq<char>, i: int) -> Seq<Seq<char>>
    decreases s.len() - i,
{
    if i < 0 || i >= s.len() {
        Seq::empty()
    } else {
        let e = i + line_len(s, i);
        let t = trim(s.subrange(i, e));
        let rest = if e + 1 < s.len() {
            diagram_lines_from(s, e + 1)
        } else {
            Seq::empty()
        };
        if t.len() > 0 {
            seq![t].add(rest)
        } else {
            rest
        }
    }
}

/// The non-blank trimmed lines of a diagram, top to bottom.
pub open spec fn diagram_lines(s: Seq<char>) -> Seq<Seq<char>> {
    diagram_lines_from(s, 0)
}

/// The diagram line that describes rank index `r` (the last line is rank 1).
pub open spec fn diagram_rank(s: Seq<char>, r: int) -> Seq<char> {
    let lines = diagram_lines(s);
    lines[lines.len() - 1 - r]
}

/// A diagram is well formed: at most eight lines of at most eight characters, each
/// `.` or a piece letter.
pub open spec fn diagram_ok(s: Seq<char>) -> bool {
    let lines = diagram_lines(s);
    &&& lines.len() <= 8
    &&& forall|k: int| 0 <= k < lines.len() ==> (#[trigger] lines[k]).len() <= 8
    &&& forall|k: int, j: int|
        0 <= k < lines.len() && 0 <= j < lines[k].len() ==> is_cell_char(#[trigger] lines[k][j])
}

/// The cell of a diagram at rank index `r` and file index `c`; squares the diagram
/// does not reach are empty.
pub open spec fn diagram_cell(s: Seq<char>, r: int, c: int) -> Cell {
    let n = diagram_lines(s).len();
    Cell {
        piece: if r < n && c < diagram_rank(s, r).len() {
            occupant_of_char(diagram_rank(s, r)[c])
        } else {
            None
        },
        colour: shade(r, c),
    }
}

/// The kind standing on file index `c` of a back rank in the starting position.
pub open spec fn back_rank_kind(c: int) -> ChessPieceKind {
    if c == 0 || c == 7 {
        ChessPieceKind::Rook
    } else if c == 1 || c == 6 {
        ChessPieceKind::Knight
    } else if c == 2 || c == 5 {
        ChessPieceKind::Bishop
    } else if c == 3 {
        ChessPieceKind::Queen
    } else {
        ChessPieceKind::King
    }
}

/// The occupant of a square in the standard starting position.
pub open spec fn standard_piece(r: int, c: int) -> Option<ChessPiece> {
    if r == 0 {
        Some(ChessPiece { kind: back_rank_kind(c), colour: ChessColour::White, moved: false })
    } else if r == 1 {
        Some(ChessPiece { kind: ChessPieceKind::Pawn, colour: ChessColour::White, moved: false })
    } else if r == 6 {
        Some(ChessPiece { kind: ChessPieceKind::Pawn, colour: ChessColour::Black, moved: false })
    } else if r == 7 {
        Some(ChessPiece { kind: back_rank_kind(c), colour: ChessColour::Black, moved: false })
    } else {
        None
    }
}

/// The cell of a square in the standard starting position.
pub open spec fn standard_cell(r: int, c: int) -> Cell {
    Cell { piece: standard_piece(r, c), colour: shade(r, c) }
}

/// The fingerprint byte of a cell: 0 when empty, else the kind's code plus 8 for White.
pub open spec fn cell_code(cell: Cell) -> u8 {
    match cell.piece {
        Some(p) => (kind_code(p.kind) + 8 * side_code(p.colour)) as u8,
        None => 0,
    }
}

/// The digit for a count of 1 to 8 empty squares.
pub open spec fn run_digit(n: int) -> char {
    if n == 1 {
        '1'
    } else if n == 2 {
        '2'
    } else if n == 3 {
        '3'
    } else if n == 4 {
        '4'
    } else if n == 5 {
        '5'
    } else if n == 6 {
        '6'
    } else if n == 7 {
        '7'
    } else {
        '8'
    }
}

/// The pending count of empty squares, written as a digit if there is one.
pub open spec fn flush_run(run: int) -> Seq<char> {
    if run > 0 {
        seq![run_digit(run)]
    } else {
        Seq::empty()
    }
}

/// The FEN text of rank index `r` from file index `c` on, with `run` empty squares
/// just before `c` not yet written.
pub open spec fn fen_rank_from(b: ChessBoard, r: int, c: int, run: int) -> Seq<char>
    decreases 8 - c,
{
    if c >= 8 {
        flush_run(run)
    } else {
        match b.cell(r, c).piece {
            None => fen_rank_from(b, r, c + 1, run + 1),
            Some(p) => flush_run(run) + seq![piece_letter(p)] + fen_rank_from(b, r, c + 1, 0),
        }
    }
}

/// The FEN ranks from rank index `r` down to rank 1, separated by `/`.
pub open spec fn fen_ranks_down(b: ChessBoard, r: int) -> Seq<char>
    decreases r,
{
    if r <= 0 {
        fen_rank_from(b, 0, 0, 0)
    } else {
        fen_rank_from(b, r, 0, 0) + seq!['/'] + fen_ranks_down(b, r - 1)
    }
}

/// What follows rank index `r` in the FEN placement: `/` and the ranks below, if any.
pub open spec fn ranks_below(b: ChessBoard, r: int) -> Seq<char> {
    if r > 0 {
        seq!['/'] + fen_ranks_down(b, r - 1)
    } else {
        Seq::empty()
    }
}

/// The FEN text of a board: the placement from rank 8 down, the side to move, and no
/// castling or en-passant rights, no halfmove count, move number 1.
pub open spec fn fen_text(b: ChessBoard) -> Seq<char> {
    fen_ranks_down(b, 7) + seq![
        ' ',
        if b.turn == ChessColour::White {
            'w'
        } else {
            'b'
        },
    ] + seq![' ', '-', ' ', '-', ' ', '0', ' ', '1']
}

/// The digest of a byte sequence under XXH3-64.
pub uninterp spec fn xxh3_64_of(bytes: Seq<u8>) -> u64;

/// Relies on `xxhash_rust::xxh3::xxh3_64`: an unseeded XXH3-64 digest, a function of
/// the bytes alone.
#[verifier::external_body]
fn xxh3_digest(bytes: &[u8]) -> (r: u64)
    ensures
        r == xxh3_64_of(bytes@),
{
    xxhash_rust::xxh3::xxh3_64(bytes)
}

/// The shading of the square at rank index `r` and file index `c`.
fn shade_of(r: usize, c: usize) -> (s: ChessColour)
    ensures
        s == shade(r as int, c as int),
{
    if r % 2 == c % 2 {
        ChessColour::White
    } else {
        ChessColour::Black
    }
}

impl Cell {
    /// The cell for a diagram character at grid position `pos` (rank index, file
    /// index): `.` is empty, a piece letter is that unmoved piece; the shading follows
    /// the position. An `InvalidPiece` error for any other character.
    pub fn parse(value: char, pos: (usize, usize)) -> (r: Result<Cell, ChessError>)
        ensures
            is_cell_char(value) ==> r == Ok::<Cell, ChessError>(
                Cell { piece: occupant_of_char(value), colour: shade(pos.0 as int, pos.1 as int) },
            ),
            !is_cell_char(value) ==> r matches Err(ChessError::InvalidPiece(_)),
    {
        let piece = if value == '.' {
            None
        } else {
            Some(ChessPiece::from_char(value)?)
        };
        Ok(Cell { piece, colour: shade_of(pos.0, pos.1) })
    }

    /// The diagram character of the cell: its piece's letter, or `.`.
    pub fn to_char(&self) -> (r: char)
        ensures
            r == cell_char(*self),
    {
        match &self.piece {
            Some(p) => p.to_char(),
            None => '.',
        }
    }
}

/// The non-blank trimmed lines of a diagram, top to bottom.
fn split_diagram(cs: &Vec<char>) -> (r: Vec<Vec<char>>)
    ensures
        r@.len() == diagram_lines(cs@).len(),
        forall|k: int| 0 <= k < r@.len() ==> (#[trigger] r@[k])@ == diagram_lines(cs@)[k],
{
    let n = cs.len();
    let mut out: Vec<Vec<char>> = Vec::new();
    let ghost mut acc: Seq<Seq<char>> = Seq::empty();
    let mut i: usize = 0;
    while i < n
        invariant
            n == cs@.len(),
            i <= n,
            acc + diagram_lines_from(cs@, i as int) == diagram_lines(cs@),
            out@.len() == acc.len(),
            forall|k: int| 0 <= k < out@.len() ==> (#[trigger] out@[k])@ == acc[k],
        decreases n - i,
    {
        let mut e: usize = i;
        while e < n && cs[e] != '\n'
            invariant
                i <= e <= n,
                n == cs@.len(),
                i + line_len(cs@, i as int) == e + line_len(cs@, e as int),
            decreases n - e,
        {
            e = e + 1;
        }
        let line = copy_range(cs, i, e);
        let (lo, hi) = trim_bounds(&line);
        let ghost rest = if e + 1 < n {
            diagram_lines_from(cs@, e + 1)
        } else {
            Seq::empty()
        };
        if hi > lo {
            let t = copy_range(&line, lo, hi);
            out.push(t);
            proof {
                assert(acc + seq![t@].add(rest) =~= acc.push(t@) + rest);
                acc = acc.push(t@);
            }
        }
        if e < n {
            i = e + 1;
        } else {
            assert(diagram_lines_from(cs@, n as int) =~= Seq::<Seq<char>>::empty());
            i = n;
        }
    }
    assert(diagram_lines_from(cs@, n as int) =~= Seq::<Seq<char>>::empty());
    assert(acc + Seq::<Seq<char>>::empty() =~= acc);
    out
}

impl ChessBoard {
    /// The cell at rank index `r` and file index `c`.
    pub open spec fn cell(self, r: int, c: int) -> Cell {
        self.board[r][c]
    }

    /// The cell of a square.
    pub open spec fn cell_at(self, p: Position) -> Cell {
        self.cell(p.row@, p.column@)
    }

    /// The occupant of a square.
    pub open spec fn piece_at(self, p: Position) -> Option<ChessPiece> {
        self.cell_at(p).piece
    }

    /// Every cell is shaded by the parity of its coordinates.
    pub open spec fn wf(self) -> bool {
        forall|r: int, c: int|
            on_board(r) && on_board(c) ==> (#[trigger] self.cell(r, c)).colour == shade(r, c)
    }

    /// The board is the one a diagram describes, White to move.
    pub open spec fn matches_diagram(self, s: Seq<char>) -> bool {
        &&& self.turn == ChessColour::White
        &&& forall|r: int, c: int|
            on_board(r) && on_board(c) ==> #[trigger] self.cell(r, c) == diagram_cell(s, r, c)
    }

    /// The board is the standard starting position, White to move.
    pub open spec fn is_standard(self) -> bool {
        &&& self.turn == ChessColour::White
        &&& self.wf()
        &&& forall|r: int, c: int|
            on_board(r) && on_board(c) ==> (#[trigger] self.cell(r, c)).piece == standard_piece(
                r,
                c,
            )
    }

    /// The occupied squares with their cells, in rank-major order, of the first `k`
    /// squares of that order.
    pub open spec fn occupied_upto(self, k: int) -> Seq<(Position, Cell)>
        decreases k,
    {
        if k <= 0 {
            Seq::empty()
        } else {
            let before = self.occupied_upto(k - 1);
            let cell = self.cell((k - 1) / 8, (k - 1) % 8);
            if cell.piece is Some {
                before.push((square((k - 1) / 8, (k - 1) % 8), cell))
            } else {
                before
            }
        }
    }

    /// The occupied squares with their cells, rank 1 first, file a first within a rank.
    pub open spec fn occupied(self) -> Seq<(Position, Cell)> {
        self.occupied_upto(64)
    }

    /// The 64-byte fingerprint, rank-major: a code of the occupant of each square.
    pub open spec fn fingerprint(self) -> Seq<u8> {
        Seq::new(64, |k: int| cell_code(self.cell(k / 8, k % 8)))
    }

    /// The board that a text diagram describes, White to move. Non-blank lines are
    /// read trimmed, the last being rank 1; the characters of a line are files a, b,
    /// ... in order, `.` for an empty square. Squares the diagram does not reach are
    /// empty. An `InvalidPiece` error for more than eight lines, a line longer than
    /// eight characters, or any other character.
    pub fn parse(s: &str) -> (r: Result<ChessBoard, ChessError>)
        ensures
            r is Ok <==> diagram_ok(s@),
            r matches Ok(b) ==> b.matches_diagram(s@) && b.wf(),
            r is Err ==> r matches Err(ChessError::InvalidPiece(_)),
    {
        let cs = chars_of(s);
        let lines = split_diagram(&cs);
        let ghost ls = diagram_lines(s@);
        let nl = lines.len();
        assert(forall|k: int| 0 <= k < nl ==> (#[trigger] lines@[k])@ == ls[k]);
        if nl > 8 {
            return Err(ChessError::InvalidPiece("too many rows on chess board".to_string()));
        }
        let mut k: usize = 0;
        while k < nl
            invariant
                k <= nl,
                nl == lines@.len(),
                nl == ls.len(),
                ls == diagram_lines(s@),
                forall|j: int| 0 <= j < nl ==> (#[trigger] lines@[j])@ == ls[j],
                forall|j: int| 0 <= j < k ==> (#[trigger] ls[j]).len() <= 8,
            decreases nl - k,
        {
            if lines[k].len() > 8 {
                return Err(
                    ChessError::InvalidPiece("too many columns on chess board".to_string()),
                );
            }
            k = k + 1;
        }
        let mut board = [[Cell { piece: None, colour: ChessColour::White };8];8];
        let mut r: usize = 0;
        while r < 8
            invariant
                r <= 8,
                nl <= 8,
                nl == ls.len(),
                nl == lines@.len(),
                ls == diagram_lines(s@),
                forall|j: int| 0 <= j < nl ==> (#[trigger] lines@[j])@ == ls[j],
                forall|j: int| 0 <= j < nl ==> (#[trigger] ls[j]).len() <= 8,
                forall|rr: int, cc: int|
                    0 <= rr < r && on_board(cc) ==> #[trigger] board[rr][cc] == diagram_cell(
                        s@,
                        rr,
                        cc,
                    ),
                forall|j: int, cc: int|
                    0 <= j && nl - r <= j < nl && 0 <= cc < ls[j].len() ==> is_cell_char(
                        #[trigger] ls[j][cc],
                    ),
            decreases 8 - r,
        {
            let mut c: usize = 0;
            while c < 8
                invariant
                    r < 8,
                    c <= 8,
                    nl <= 8,
                    nl == ls.len(),
                    nl == lines@.len(),
                    ls == diagram_lines(s@),
                    forall|j: int| 0 <= j < nl ==> (#[trigger] lines@[j])@ == ls[j],
                    forall|j: int| 0 <= j < nl ==> (#[trigger] ls[j]).len() <= 8,
                    forall|rr: int, cc: int|
                        0 <= rr < r && on_board(cc) ==> #[trigger] board[rr][cc]
                            == diagram_cell(s@, rr, cc),
                    forall|cc: int| 0 <= cc < c ==> #[trigger] board[r as int][cc] == diagram_cell(
                        s@,
                        r as int,
                        cc,
                    ),
                    forall|j: int, cc: int|
                        0 <= j && nl - r <= j < nl && 0 <= cc < ls[j].len() ==> is_cell_char(
                            #[trigger] ls[j][cc],
                        ),
                    r < nl ==> forall|cc: int|
                        0 <= cc < c && cc < ls[nl - 1 - r].len() ==> is_cell_char(
                            #[trigger] ls[nl - 1 - r][cc],
                        ),
                decreases 8 - c,
            {
                let cell = if r < nl && c < lines[nl - 1 - r].len() {
                    Cell::parse(lines[nl - 1 - r][c], (r, c))?
                } else {
                    Cell { piece: None, colour: shade_of(r, c) }
                };
                board[r][c] = cell;
                c = c + 1;
            }
            assert forall|j: int, cc: int|
                0 <= j && nl - (r + 1) <= j < nl && 0 <= cc < ls[j].len() implies is_cell_char(
                #[trigger] ls[j][cc],
            ) by {
                if j == nl - 1 - r {
                    assert(cc < 8);
                }
            }
            r = r + 1;
        }
        let b = ChessBoard { board, turn: ChessColour::White };
        assert(diagram_ok(s@)) by {
            assert forall|j: int, cc: int| 0 <= j < ls.len() && 0 <= cc < ls[j].len() implies
                is_cell_char(#[trigger] ls[j][cc]) by {}
        }
        Ok(b)
    }

    /// The standard starting position, White to move.
    pub fn standard() -> (r: ChessBoard)
        ensures
            r.is_standard(),
    {
        let mut board = [[Cell { piece: None, colour: ChessColour::White };8];8];
        let mut r: usize = 0;
        while r < 8
            invariant
                r <= 8,
                forall|rr: int, cc: int|
                    0 <= rr < r && on_board(cc) ==> #[trigger] board[rr][cc] == standard_cell(rr, cc),
            decreases 8 - r,
        {
            let mut c: usize = 0;
            while c < 8
                invariant
                    r < 8,
                    c <= 8,
                    forall|rr: int, cc: int|
                        0 <= rr < r && on_board(cc) ==> #[trigger] board[rr][cc] == standard_cell(rr, cc),
                    forall|cc: int| 0 <= cc < c ==> #[trigger] board[r as int][cc] == standard_cell(r as int, cc),
                decreases 8 - c,
            {
                board[r][c] = Cell { piece: standard_occupant(r, c), colour: shade_of(r, c) };
                c = c + 1;
            }
            r = r + 1;
        }
        ChessBoard { board, turn: ChessColour::White }
    }

    /// The cell of a square; always present, since every square is on the board.
    pub fn get_piece_at(&self, pos: &Position) -> (r: Option<&Cell>)
        ensures
            r matches Some(cell) && *cell == self.cell_at(*pos),
    {
        let x = pos.row.index();
        let y = pos.column.index();
        Some(&self.board[x][y])
    }

    /// The occupied squares with their cells, rank 1 first and file a first within a
    /// rank, read from the board as it is now.
    pub fn pieces(&self) -> (r: Vec<(Position, Cell)>)
        ensures
            r@ == self.occupied(),
    {
        let mut out: Vec<(Position, Cell)> = Vec::new();
        let mut r: usize = 0;
        while r < 8
            invariant
                r <= 8,
                out@ == self.occupied_upto(8 * r),
            decreases 8 - r,
        {
            let mut c: usize = 0;
            while c < 8
                invariant
                    r < 8,
                    c <= 8,
                    out@ == self.occupied_upto(8 * r + c),
                decreases 8 - c,
            {
                let k = 8 * r + c;
                assert(k / 8 == r && k % 8 == c) by (nonlinear_arith)
                    requires
                        k == 8 * r + c,
                        c < 8,
                ;
                let cell = self.board[r][c];
                if cell.piece.is_some() {
                    let row = Row::from_index(r as isize);
                    let column = Column::from_index(c as isize);
                    match (row, column) {
                        (Ok(row), Ok(column)) => {
                            out.push((Position { row, column }, cell));
                        },
                        _ => {},
                    }
                }
                c = c + 1;
            }
            r = r + 1;
        }
        out
    }

    /// The ranks of the grid, rank 1 first.
    pub fn rows(&self) -> (r: &[[Cell; 8]; 8])
        ensures
            *r == self.board,
    {
        &self.board
    }

    /// The 64-byte fingerprint of the board, rank-major: 0 for an empty square, else
    /// the kind's code (pawn 1 to king 6) plus 8 for a White piece.
    pub fn hash_encoding(&self) -> (r: Vec<u8>)
        ensures
            r@ == self.fingerprint(),
    {
        let mut out: Vec<u8> = Vec::new();
        let mut r: usize = 0;
        while r < 8
            invariant
                r <= 8,
                out@.len() == 8 * r,
                forall|k: int| 0 <= k < out@.len() ==> #[trigger] out@[k] == self.fingerprint()[k],
            decreases 8 - r,
        {
            let mut c: usize = 0;
            while c < 8
                invariant
                    r < 8,
                    c <= 8,
                    out@.len() == 8 * r + c,
                    forall|k: int|
                        0 <= k < out@.len() ==> #[trigger] out@[k] == self.fingerprint()[k],
                decreases 8 - c,
            {
                let k = 8 * r + c;
                assert(k / 8 == r && k % 8 == c) by (nonlinear_arith)
                    requires
                        k == 8 * r + c,
                        c < 8,
                ;
                let code: u8 = match self.board[r][c].piece {
                    Some(p) => p.kind.hash_value() + 8 * p.colour.hash_multiplier(),
                    None => 0,
                };
                out.push(code);
                c = c + 1;
            }
            r = r + 1;
        }
        assert(out@ =~= self.fingerprint());
        out
    }

    /// The board in Forsyth-Edwards notation: ranks 8 to 1 separated by `/`, piece
    /// letters, digits for runs of empty squares, then the side to move (`w` or `b`)
    /// and `- - 0 1`, since castling, en passant and move counts are not tracked.
    pub fn fen(&self) -> (r: String)
        ensures
            r@ == fen_text(*self),
    {
        let mut out: Vec<char> = Vec::new();
        let mut r: usize = 8;
        while r > 0
            invariant
                r <= 8,
                r < 8 ==> out@ + ranks_below(*self, r as int) == fen_ranks_down(*self, 7),
                r == 8 ==> out@ == Seq::<char>::empty(),
            decreases r,
        {
            r = r - 1;
            let ghost prior = out@;
            if r < 7 {
                out.push('/');
            }
            let ghost start = out@;
            assert(r < 7 ==> start.drop_last() =~= prior);
            let mut run: usize = 0;
            let mut c: usize = 0;
            while c < 8
                invariant
                    r < 8,
                    c <= 8,
                    run <= c,
                    out@ + fen_rank_from(*self, r as int, c as int, run as int) == start
                        + fen_rank_from(*self, r as int, 0, 0),
                decreases 8 - c,
            {
                match self.board[r][c].piece {
                    None => {
                        run = run + 1;
                    },
                    Some(p) => {
                        let ghost before = out@;
                        if run > 0 {
                            out.push(digit_char(run));
                        }
                        out.push(p.to_char());
                        assert(out@ =~= before + flush_run(run as int) + seq![piece_letter(p)]);
                        run = 0;
                    },
                }
                c = c + 1;
            }
            let ghost before = out@;
            if run > 0 {
                out.push(digit_char(run));
            }
            assert(out@ =~= before + flush_run(run as int));
            assert(out@ =~= start + fen_rank_from(*self, r as int, 0, 0));
            proof {
                assert(fen_ranks_down(*self, r as int) == fen_rank_from(*self, r as int, 0, 0)
                    + ranks_below(*self, r as int));
                if r < 7 {
                    assert(ranks_below(*self, r + 1) == seq!['/'] + fen_ranks_down(*self, r as int));
                    assert(start =~= start.drop_last().push('/'));
                    assert(start.drop_last() + ranks_below(*self, r + 1) == fen_ranks_down(*self, 7));
                    assert(out@ + ranks_below(*self, r as int) =~= start.drop_last() + ranks_below(*self, r + 1));
                } else {
                    assert(out@ + ranks_below(*self, r as int) =~= fen_ranks_down(*self, 7));
                }
            }
        }
        assert(out@ + ranks_below(*self, 0) =~= out@);
        out.push(' ');
        out.push(if self.turn == ChessColour::White { 'w' } else { 'b' });
        out.push(' ');
        out.push('-');
        out.push(' ');
        out.push('-');
        out.push(' ');
        out.push('0');
        out.push(' ');
        out.push('1');
        assert(out@ =~= fen_text(*self));
        string_from_chars(out.as_slice())
    }

    /// A fast structural hash: the XXH3-64 digest of the fingerprint.
    pub fn hash(&self) -> (r: u64)
        ensures
            r == xxh3_64_of(self.fingerprint()),
    {
        let bytes = self.hash_encoding();
        xxh3_digest(bytes.as_slice())
    }
}

/// The digit for a count of 1 to 8.
fn digit_char(n: usize) -> (c: char)
    requires
        1 <= n <= 8,
    ensures
        c == run_digit(n as int),
{
    match n {
        1 => '1',
        2 => '2',
        3 => '3',
        4 => '4',
        5 => '5',
        6 => '6',
        7 => '7',
        _ => '8',
    }
}

/// The occupant of a square in the standard starting position.
fn standard_occupant(r: usize, c: usize) -> (p: Option<ChessPiece>)
    requires
        r < 8,
        c < 8,
    ensures
        p == standard_piece(r as int, c as int),
{
    let kind = if c == 0 || c == 7 {
        ChessPieceKind::Rook
    } else if c == 1 || c == 6 {
        ChessPieceKind::Knight
    } else if c == 2 || c == 5 {
        ChessPieceKind::Bishop
    } else if c == 3 {
        ChessPieceKind::Queen
    } else {
        ChessPieceKind::King
    };
    if r == 0 {
        Some(ChessPiece { kind, colour: ChessColour::White, moved: false })
    } else if r == 1 {
        Some(ChessPiece { kind: ChessPieceKind::Pawn, colour: ChessColour::White, moved: false })
    } else if r == 6 {
        Some(ChessPiece { kind: ChessPieceKind::Pawn, colour: ChessColour::Black, moved: false })
    } else if r == 7 {
        Some(ChessPiece { kind, colour: ChessColour::Black, moved: false })
    } else {
        None
    }
}

impl std::str::FromStr for ChessBoard {
    type Err = ChessError;

    /// As `ChessBoard::parse`.
    fn from_str(s: &str) -> (r: Result<ChessBoard, ChessError>)
        ensures
            r is Ok <==> diagram_ok(s@),
            r matches Ok(b) ==> b.matches_diagram(s@) && b.wf(),
            r is Err ==> r matches Err(ChessError::InvalidPiece(_)),
    {
        ChessBoard::parse(s)
    }
}

impl Default for ChessBoard {
    /// The standard starting position, White to move.
    fn default() -> (r: ChessBoard)
        ensures
            r.is_standard(),
    {
        ChessBoard::standard()
    }
}

} // verus!

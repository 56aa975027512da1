//! Board coordinates: ranks, files, squares and moves.
use vstd::prelude::*;

use crate::error::ChessError;
use crate::text::chars_of;

verus! {

/// A rank of the board, `One` being White's back rank.
#[derive(Debug, Clone, Copy, PartialEq, Eq, Hash, Structural)]
pub enum Row {
    One,
    Two,
    Three,
    Four,
    Five,
    Six,
    Seven,
    Eight,
}

/// A file of the board, `A` to `H` from White's left.
#[derive(Debug, Clone, Copy, PartialEq, Eq, Hash, Structural)]
pub enum Column {
    A,
    B,
    C,
    D,
    E,
    F,
    G,
    H,
}

impl View for Row {
    type V = int;

    /// The zero-based index of the rank.
    open spec fn view(&self) -> int {
        match self {
            Row::One => 0,
            Row::Two => 1,
            Row::Three => 2,
            Row::Four => 3,
            Row::Five => 4,
            Row::Six => 5,
            Row::Seven => 6,
            Row::Eight => 7,
        }
    }
}

impl View for Column {
    type V = int;

    /// The zero-based index of the file.
    open spec fn view(&self) -> int {
        match self {
            Column::A => 0,
            Column::B => 1,
            Column::C => 2,
            Column::D => 3,
            Column::E => 4,
            Column::F => 5,
            Column::G => 6,
            Column::H => 7,
        }
    }
}

/// The rank with index `i` (meaningful for `0 <= i < 8`).
pub open spec fn row_at(i: int) -> Row {
    if i <= 0 {
        Row::One
    } else if i == 1 {
        Row::Two
    } else if i == 2 {
        Row::Three
    } else if i == 3 {
        Row::Four
    } else if i == 4 {
        Row::Five
    } else if i == 5 {
        Row::Six
    } else if i == 6 {
        Row::Seven
    } else {
        Row::Eight
    }
}

/// The file with index `i` (meaningful for `0 <= i < 8`).
pub open spec fn column_at(i: int) -> Column {
    if i <= 0 {
        Column::A
    } else if i == 1 {
        Column::B
    } else if i == 2 {
        Column::C
    } else if i == 3 {
        Column::D
    } else if i == 4 {
        Column::E
    } else if i == 5 {
        Column::F
    } else if i == 6 {
        Column::G
    } else {
        Column::H
    }
}

/// Whether `i` is the index of a rank or file.
pub open spec fn on_board(i: int) -> bool {
    0 <= i < 8
}

/// The digit naming a rank.
pub open spec fn row_char(r: Row) -> char {
    match r {
        Row::One => '1',
        Row::Two => '2',
        Row::Three => '3',
        Row::Four => '4',
        Row::Five => '5',
        Row::Six => '6',
        Row::Seven => '7',
        Row::Eight => '8',
    }
}

/// The lower-case letter naming a file.
pub open spec fn column_char(c: Column) -> char {
    match c {
        Column::A => 'a',
        Column::B => 'b',
        Column::C => 'c',
        Column::D => 'd',
        Column::E => 'e',
        Column::F => 'f',
        Column::G => 'g',
        Column::H => 'h',
    }
}

/// The rank a digit names, if any.
pub open spec fn row_of_char(c: char) -> Option<Row> {
    if c == '1' {
        Some(Row::One)
    } else if c == '2' {
        Some(Row::Two)
    } else if c == '3' {
        Some(Row::Three)
    } else if c == '4' {
        Some(Row::Four)
    } else if c == '5' {
        Some(Row::Five)
    } else if c == '6' {
        Some(Row::Six)
    } else if c == '7' {
        Some(Row::Seven)
    } else if c == '8' {
        Some(Row::Eight)
    } else {
        None
    }
}

/// The file a lower-case letter names, if any.
pub open spec fn column_of_char(c: char) -> Option<Column> {
    if c == 'a' {
        Some(Column::A)
    } else if c == 'b' {
        Some(Column::B)
    } else if c == 'c' {
        Some(Column::C)
    } else if c == 'd' {
        Some(Column::D)
    } else if c == 'e' {
        Some(Column::E)
    } else if c == 'f' {
        Some(Column::F)
    } else if c == 'g' {
        Some(Column::G)
    } else if c == 'h' {
        Some(Column::H)
    } else {
        None
    }
}

/// The rank that a text token names: the token is one digit from 1 to 8.
pub open spec fn row_of_text(s: Seq<char>) -> Option<Row> {
    if s.len() == 1 {
        row_of_char(s[0])
    } else {
        None
    }
}

/// The file that a text token names: the token is one letter from a to h.
pub open spec fn column_of_text(s: Seq<char>) -> Option<Column> {
    if s.len() == 1 {
        column_of_char(s[0])
    } else {
        None
    }
}

/// The one character of `s`, if it holds exactly one.
fn single_char(s: &str) -> (r: Option<char>)
    ensures
        s@.len() == 1 ==> r == Some(s@[0]),
        s@.len() != 1 ==> r is None,
{
    if s.unicode_len() == 1 {
        Some(s.get_char(0))
    } else {
        None
    }
}

impl Row {
    /// The zero-based index of the rank.
    pub fn index(&self) -> (r: usize)
        ensures
            r == self@,
    {
        match self {
            Row::One => 0,
            Row::Two => 1,
            Row::Three => 2,
            Row::Four => 3,
            Row::Five => 4,
            Row::Six => 5,
            Row::Seven => 6,
            Row::Eight => 7,
        }
    }

    /// The rank with index `value`; an `InvalidMove` error outside `0..8`.
    pub fn from_index(value: isize) -> (r: Result<Row, ChessError>)
        ensures
            on_board(value as int) ==> r == Ok::<Row, ChessError>(row_at(value as int)),
            !on_board(value as int) ==> r matches Err(ChessError::InvalidMove(_)),
    {
        match value {
            0 => Ok(Row::One),
            1 => Ok(Row::Two),
            2 => Ok(Row::Three),
            3 => Ok(Row::Four),
            4 => Ok(Row::Five),
            5 => Ok(Row::Six),
            6 => Ok(Row::Seven),
            7 => Ok(Row::Eight),
            _ => Err(ChessError::InvalidMove("invalid row index".to_string())),
        }
    }

    /// The rank `amount` ranks away; an `InvalidMove` error when that falls off the board.
    pub fn try_add(&self, amount: isize) -> (r: Result<Row, ChessError>)
        ensures
            on_board(self@ + amount) ==> r == Ok::<Row, ChessError>(row_at(self@ + amount)),
            !on_board(self@ + amount) ==> r matches Err(ChessError::InvalidMove(_)),
    {
        if amount < -7 || amount > 7 {
            return Err(ChessError::InvalidMove("row out of range".to_string()));
        }
        Row::from_index(self.index() as isize + amount)
    }

    /// The digit naming the rank.
    pub fn to_char(&self) -> (r: char)
        ensures
            r == row_char(*self),
    {
        match self {
            Row::One => '1',
            Row::Two => '2',
            Row::Three => '3',
            Row::Four => '4',
            Row::Five => '5',
            Row::Six => '6',
            Row::Seven => '7',
            Row::Eight => '8',
        }
    }

    /// The rank a digit names; an `InvalidMove` error for any other character.
    pub fn from_char(c: char) -> (r: Result<Row, ChessError>)
        ensures
            row_of_char(c) matches Some(row) ==> r == Ok::<Row, ChessError>(row),
            row_of_char(c) is None ==> r matches Err(ChessError::InvalidMove(_)),
    {
        match c {
            '1' => Ok(Row::One),
            '2' => Ok(Row::Two),
            '3' => Ok(Row::Three),
            '4' => Ok(Row::Four),
            '5' => Ok(Row::Five),
            '6' => Ok(Row::Six),
            '7' => Ok(Row::Seven),
            '8' => Ok(Row::Eight),
            _ => Err(ChessError::InvalidMove("invalid row".to_string())),
        }
    }

    /// The rank that a token names; an `InvalidMove` error for anything but one digit
    /// from 1 to 8.
    pub fn parse(s: &str) -> (r: Result<Row, ChessError>)
        ensures
            row_of_text(s@) matches Some(row) ==> r == Ok::<Row, ChessError>(row),
            row_of_text(s@) is None ==> r matches Err(ChessError::InvalidMove(_)),
    {
        match single_char(s) {
            Some(c) => Row::from_char(c),
            None => Err(ChessError::InvalidMove("invalid row".to_string())),
        }
    }
}

impl Column {
    /// The zero-based index of the file.
    pub fn index(&self) -> (r: usize)
        ensures
            r == self@,
    {
        match self {
            Column::A => 0,
            Column::B => 1,
            Column::C => 2,
            Column::D => 3,
            Column::E => 4,
            Column::F => 5,
            Column::G => 6,
            Column::H => 7,
        }
    }

    /// The file with index `value`; an `InvalidMove` error outside `0..8`.
    pub fn from_index(value: isize) -> (r: Result<Column, ChessError>)
        ensures
            on_board(value as int) ==> r == Ok::<Column, ChessError>(column_at(value as int)),
            !on_board(value as int) ==> r matches Err(ChessError::InvalidMove(_)),
    {
        match value {
            0 => Ok(Column::A),
            1 => Ok(Column::B),
            2 => Ok(Column::C),
            3 => Ok(Column::D),
            4 => Ok(Column::E),
            5 => Ok(Column::F),
            6 => Ok(Column::G),
            7 => Ok(Column::H),
            _ => Err(ChessError::InvalidMove("invalid column index".to_string())),
        }
    }

    /// The file `amount` files away; an `InvalidMove` error when that falls off the board.
    pub fn try_add(&self, amount: isize) -> (r: Result<Column, ChessError>)
        ensures
            on_board(self@ + amount) ==> r == Ok::<Column, ChessError>(column_at(self@ + amount)),
            !on_board(self@ + amount) ==> r matches Err(ChessError::InvalidMove(_)),
    {
        if amount < -7 || amount > 7 {
            return Err(ChessError::InvalidMove("column out of range".to_string()));
        }
        Column::from_index(self.index() as isize + amount)
    }

    /// The lower-case letter naming the file.
    pub fn to_char(&self) -> (r: char)
        ensures
            r == column_char(*self),
    {
        match self {
            Column::A => 'a',
            Column::B => 'b',
            Column::C => 'c',
            Column::D => 'd',
            Column::E => 'e',
            Column::F => 'f',
            Column::G => 'g',
            Column::H => 'h',
        }
    }

    /// The file a lower-case letter names; an `InvalidMove` error for any other
    /// character.
    pub fn from_char(c: char) -> (r: Result<Column, ChessError>)
        ensures
            column_of_char(c) matches Some(col) ==> r == Ok::<Column, ChessError>(col),
            column_of_char(c) is None ==> r matches Err(ChessError::InvalidMove(_)),
    {
        match c {
            'a' => Ok(Column::A),
            'b' => Ok(Column::B),
            'c' => Ok(Column::C),
            'd' => Ok(Column::D),
            'e' => Ok(Column::E),
            'f' => Ok(Column::F),
            'g' => Ok(Column::G),
            'h' => Ok(Column::H),
            _ => Err(ChessError::InvalidMove("invalid column".to_string())),
        }
    }

    /// The file that a token names; an `InvalidMove` error for anything but one
    /// lower-case letter from a to h.
    pub fn parse(s: &str) -> (r: Result<Column, ChessError>)
        ensures
            column_of_text(s@) matches Some(col) ==> r == Ok::<Column, ChessError>(col),
            column_of_text(s@) is None ==> r matches Err(ChessError::InvalidMove(_)),
    {
        match single_char(s) {
            Some(c) => Column::from_char(c),
            None => Err(ChessError::InvalidMove("invalid column".to_string())),
        }
    }
}

/// A square of the board.
#[derive(Debug, Clone, Copy, PartialEq, Eq, Hash, Structural)]
pub struct Position {
    pub row: Row,
    pub column: Column,
}

/// A move from one square to another; what it means is read off the board when it
/// is played.
#[derive(Debug, Clone, Copy, PartialEq, Eq, Hash, Structural)]
pub struct Move {
    pub from: Position,
    pub to: Position,
}

/// The square at rank index `r` and file index `c`.
pub open spec fn square(r: int, c: int) -> Position {
    Position { row: row_at(r), column: column_at(c) }
}

/// The square `dr` ranks and `dc` files away from `p`, if it is on the board.
pub open spec fn offset(p: Position, dr: int, dc: int) -> Option<Position> {
    if on_board(p.row@ + dr) && on_board(p.column@ + dc) {
        Some(square(p.row@ + dr, p.column@ + dc))
    } else {
        None
    }
}

/// The canonical two-character name of a square, file first (`e2`).
pub open spec fn position_text(p: Position) -> Seq<char> {
    seq![column_char(p.column), row_char(p.row)]
}

/// The square that a two-character name gives: a lower-case file letter, then a rank
/// digit.
pub open spec fn position_of_text(s: Seq<char>) -> Option<Position> {
    if s.len() == 2 && column_of_char(s[0]) is Some && row_of_char(s[1]) is Some {
        Some(Position { row: row_of_char(s[1])->0, column: column_of_char(s[0])->0 })
    } else {
        None
    }
}

/// Relies on `String: FromIterator<char>`: the string holds the characters in order.
#[verifier::external_body]
pub(crate) fn string_from_chars(cs: &[char]) -> (r: String)
    ensures
        r@ == cs@,
{
    cs.iter().collect()
}

impl Position {
    /// The grid index pair `(x, y)`: the file index, then the rank index.
    pub fn board_position(&self) -> (r: (usize, usize))
        ensures
            r.0 == self.column@,
            r.1 == self.row@,
    {
        (self.column.index(), self.row.index())
    }

    /// The square `row` ranks and `column` files away; an `InvalidMove` error when it
    /// is off the board.
    pub fn add_offset(&self, row: isize, column: isize) -> (r: Result<Position, ChessError>)
        ensures
            offset(*self, row as int, column as int) matches Some(p) ==> r == Ok::<
                Position,
                ChessError,
            >(p),
            offset(*self, row as int, column as int) is None ==> r matches Err(
                ChessError::InvalidMove(_),
            ),
    {
        let r = self.row.try_add(row)?;
        let c = self.column.try_add(column)?;
        Ok(Position { row: r, column: c })
    }

    /// The canonical name of the square, file first (`e2`).
    pub fn to_text(&self) -> (r: String)
        ensures
            r@ == position_text(*self),
    {
        let cs = [self.column.to_char(), self.row.to_char()];
        let r = string_from_chars(cs.as_slice());
        assert(cs@ =~= position_text(*self));
        r
    }

    /// The square a two-character name gives (`e2`); an `InvalidMove` error for
    /// any other text.
    pub fn parse(s: &str) -> (r: Result<Position, ChessError>)
        ensures
            position_of_text(s@) matches Some(p) ==> r == Ok::<Position, ChessError>(p),
            position_of_text(s@) is None ==> r matches Err(ChessError::InvalidMove(_)),
    {
        let cs = chars_of(s);
        Position::parse_chars(&cs)
    }

    /// `parse` on a sequence of characters.
    pub fn parse_chars(cs: &Vec<char>) -> (r: Result<Position, ChessError>)
        ensures
            position_of_text(cs@) matches Some(p) ==> r == Ok::<Position, ChessError>(p),
            position_of_text(cs@) is None ==> r matches Err(ChessError::InvalidMove(_)),
    {
        if cs.len() != 2 {
            return Err(ChessError::InvalidMove("invalid position format".to_string()));
        }
        let column = Column::from_char(cs[0])?;
        let row = Row::from_char(cs[1])?;
        Ok(Position { row, column })
    }
}

impl Move {
    /// A move in the coordinate form of the engine protocol (`e2e4`, `e7e8q`): two
    /// square names, then at most one promotion letter, which is dropped since a
    /// move here carries no promotion. An `InvalidMove` error for any other text.
    pub fn from_uci(s: &str) -> (r: Result<Move, ChessError>)
        ensures
            r is Ok <==> uci_move(s@) is Some,
            uci_move(s@) matches Some(m) ==> r == Ok::<Move, ChessError>(m),
            r is Err ==> r matches Err(ChessError::InvalidMove(_)),
    {
        let cs = chars_of(s);
        if cs.len() != 4 && cs.len() != 5 {
            return Err(ChessError::InvalidMove("invalid move format".to_string()));
        }
        let from = Position::parse_chars(&vec![cs[0], cs[1]])?;
        let to = Position::parse_chars(&vec![cs[2], cs[3]])?;
        proof {
            assert(s@.subrange(0, 2) =~= seq![cs@[0], cs@[1]]);
            assert(s@.subrange(2, 4) =~= seq![cs@[2], cs@[3]]);
        }
        Ok(Move { from, to })
    }
}

/// The move that an engine-protocol token names: four or five characters, the first
/// two naming the origin and the next two the target.
pub open spec fn uci_move(s: Seq<char>) -> Option<Move> {
    if (s.len() == 4 || s.len() == 5) && position_of_text(s.subrange(0, 2)) is Some
        && position_of_text(s.subrange(2, 4)) is Some {
        Some(
            Move {
                from: position_of_text(s.subrange(0, 2))->0,
                to: position_of_text(s.subrange(2, 4))->0,
            },
        )
    } else {
        None
    }
}

impl std::str::FromStr for Row {
    type Err = ChessError;

    /// As `Row::parse`.
    fn from_str(s: &str) -> (r: Result<Row, ChessError>)
        ensures
            row_of_text(s@) matches Some(row) ==> r == Ok::<Row, ChessError>(row),
            row_of_text(s@) is None ==> r matches Err(ChessError::InvalidMove(_)),
    {
        Row::parse(s)
    }
}

impl std::str::FromStr for Column {
    type Err = ChessError;

    /// As `Column::parse`.
    fn from_str(s: &str) -> (r: Result<Column, ChessError>)
        ensures
            column_of_text(s@) matches Some(col) ==> r == Ok::<Column, ChessError>(col),
            column_of_text(s@) is None ==> r matches Err(ChessError::InvalidMove(_)),
    {
        Column::parse(s)
    }
}

impl std::str::FromStr for Position {
    type Err = ChessError;

    /// As `Position::parse`.
    fn from_str(s: &str) -> (r: Result<Position, ChessError>)
        ensures
            position_of_text(s@) matches Some(p) ==> r == Ok::<Position, ChessError>(p),
            position_of_text(s@) is None ==> r matches Err(ChessError::InvalidMove(_)),
    {
        Position::parse(s)
    }
}

/// Naming a square and reading the name back gives the square again.
pub proof fn lemma_position_text_round_trip(p: Position)
    ensures
        position_of_text(position_text(p)) == Some(p),
{
}

/// Reading a square name and naming the square gives the name back.
pub proof fn lemma_position_parse_round_trip(s: Seq<char>)
    requires
        position_of_text(s) is Some,
    ensures
        position_text(position_of_text(s)->0) == s,
{
    assert(position_text(position_of_text(s)->0) =~= s);
}

/// A file and its letter correspond both ways.
pub proof fn lemma_column_text_round_trip(c: Column, s: Seq<char>)
    ensures
        column_of_text(seq![column_char(c)]) == Some(c),
        column_of_text(s) is Some ==> seq![column_char(column_of_text(s)->0)] == s,
{
    if column_of_text(s) is Some {
        assert(seq![column_char(column_of_text(s)->0)] =~= s);
    }
}

} // verus!

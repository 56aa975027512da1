use chess_engine::{
    Cell, ChessBoard, ChessColour, ChessError, ChessPiece, ChessPieceKind, Column, Position, Row,
};

const STANDARD: &str = "
    rnbqkbnr
    pppppppp
    ........
    ........
    ........
    ........
    PPPPPPPP
    RNBQKBNR
";

fn piece(kind: ChessPieceKind, colour: ChessColour) -> ChessPiece {
    ChessPiece { kind, colour, moved: false }
}

#[test]
fn standard_diagram_is_default_board() {
    let parsed = ChessBoard::parse(STANDARD).unwrap();
    assert_eq!(parsed, ChessBoard::default());
    assert_eq!(parsed.turn, ChessColour::White);
    assert_eq!(
        parsed.board[0][4].piece,
        Some(piece(ChessPieceKind::King, ChessColour::White))
    );
    assert_eq!(
        parsed.board[7][3].piece,
        Some(piece(ChessPieceKind::Queen, ChessColour::Black))
    );
    assert_eq!(
        parsed.board[6][0].piece,
        Some(piece(ChessPieceKind::Pawn, ChessColour::Black))
    );
    assert_eq!(parsed.board[3][3].piece, None);
}

#[test]
fn cells_are_shaded_by_parity() {
    let b = ChessBoard::parse("k").unwrap();
    for r in 0..8 {
        for c in 0..8 {
            let expected = if (r + c) % 2 == 0 { ChessColour::White } else { ChessColour::Black };
            assert_eq!(b.board[r][c].colour, expected);
        }
    }
    assert_eq!(b.board[0][0].piece, Some(piece(ChessPieceKind::King, ChessColour::Black)));
    assert_eq!(b.pieces().len(), 1);
}

#[test]
fn short_diagram_fills_from_rank_one() {
    let b = ChessBoard::parse("\n  n.\n\n  .Q  \n").unwrap();
    assert_eq!(b.board[0][1].piece, Some(piece(ChessPieceKind::Queen, ChessColour::White)));
    assert_eq!(b.board[1][0].piece, Some(piece(ChessPieceKind::Knight, ChessColour::Black)));
    assert_eq!(b.pieces().len(), 2);
}

#[test]
fn diagram_errors_are_invalid_piece() {
    let nine_rows = "........\n".repeat(9);
    assert!(matches!(ChessBoard::parse(&nine_rows), Err(ChessError::InvalidPiece(_))));
    assert!(matches!(ChessBoard::parse("........."), Err(ChessError::InvalidPiece(_))));
    assert!(matches!(ChessBoard::parse("...x...."), Err(ChessError::InvalidPiece(_))));
    assert!(ChessBoard::parse("").is_ok());
    assert!(ChessBoard::parse(&"........\n".repeat(8)).is_ok());
}

#[test]
fn piece_letters_are_a_bijection() {
    for c in "pnbrqkPNBRQK".chars() {
        let p = ChessPiece::from_char(c).unwrap();
        assert_eq!(p.to_char(), c);
        assert!(!p.moved);
    }
    assert_eq!(ChessPiece::from_char('N').unwrap().colour, ChessColour::White);
    assert_eq!(ChessPiece::from_char('n').unwrap().colour, ChessColour::Black);
    for c in ['x', '.', ' ', '1', 'é'] {
        assert!(matches!(ChessPiece::from_char(c), Err(ChessError::InvalidPiece(_))));
    }
}

#[test]
fn cell_parse_and_char() {
    let cell = Cell::parse('.', (2, 3)).unwrap();
    assert_eq!(cell, Cell { piece: None, colour: ChessColour::Black });
    assert_eq!(cell.to_char(), '.');
    let cell = Cell::parse('R', (3, 3)).unwrap();
    assert_eq!(cell.colour, ChessColour::White);
    assert_eq!(cell.to_char(), 'R');
    assert!(matches!(Cell::parse('?', (0, 0)), Err(ChessError::InvalidPiece(_))));
    assert_eq!(Cell::parse('.', (usize::MAX, 1)).unwrap().colour, ChessColour::White);
}

#[test]
fn piece_values_and_sides() {
    assert_eq!(ChessPieceKind::Pawn.value(), 1);
    assert_eq!(ChessPieceKind::Knight.value(), 3);
    assert_eq!(ChessPieceKind::Bishop.value(), 3);
    assert_eq!(ChessPieceKind::Rook.value(), 5);
    assert_eq!(ChessPieceKind::Queen.value(), 9);
    assert_eq!(ChessPieceKind::King.value(), 200);
    assert_eq!(ChessColour::White.direction(), 1);
    assert_eq!(ChessColour::Black.direction(), -1);
    assert_eq!(ChessColour::White.flip(), ChessColour::Black);
    assert_eq!(ChessColour::Black.flip(), ChessColour::White);
    assert_eq!(ChessPieceKind::Queen.hash_value(), 5);
    assert_eq!(ChessColour::White.hash_multiplier(), 1);
}

#[test]
fn pieces_are_listed_rank_major() {
    let b = ChessBoard::default();
    let ps = b.pieces();
    assert_eq!(ps.len(), 32);
    assert_eq!(ps[0].0, Position { row: Row::One, column: Column::A });
    assert_eq!(ps[8].0, Position { row: Row::Two, column: Column::A });
    assert_eq!(ps[31].0, Position { row: Row::Eight, column: Column::H });
    assert!(ps.iter().all(|(_, cell)| cell.piece.is_some()));
    assert_eq!(b.rows()[1][2].piece, Some(piece(ChessPieceKind::Pawn, ChessColour::White)));
}

#[test]
fn fingerprint_codes_kind_and_side() {
    let b = ChessBoard::parse("q......K").unwrap();
    let enc = b.hash_encoding();
    assert_eq!(enc.len(), 64);
    assert_eq!(enc[0], 5);
    assert_eq!(enc[7], 6 + 8);
    assert!(enc[1..7].iter().all(|&x| x == 0));
    assert!(enc[8..].iter().all(|&x| x == 0));
}

#[test]
fn hash_is_xxh3_of_fingerprint() {
    let b = ChessBoard::default();
    let enc = b.hash_encoding();
    assert_eq!(b.hash(), xxhash_rust::xxh3::xxh3_64(&enc));
    assert_ne!(b.hash(), ChessBoard::parse("").unwrap().hash());
    assert_eq!(b.hash(), ChessBoard::parse(STANDARD).unwrap().hash());
}

#[test]
fn fen_of_standard_position() {
    let b = ChessBoard::default();
    assert_eq!(b.fen(), "rnbqkbnr/pppppppp/8/8/8/8/PPPPPPPP/RNBQKBNR w - - 0 1");
    let b = ChessBoard { turn: ChessColour::Black, ..ChessBoard::parse("...k\n\n.Q......").unwrap() };
    assert_eq!(b.fen(), "8/8/8/8/8/8/3k4/1Q6 b - - 0 1");
}

use chess_engine::{ChessError, Column, Move, Position, Row};

const ROWS: [Row; 8] = [
    Row::One,
    Row::Two,
    Row::Three,
    Row::Four,
    Row::Five,
    Row::Six,
    Row::Seven,
    Row::Eight,
];
const COLUMNS: [Column; 8] = [
    Column::A,
    Column::B,
    Column::C,
    Column::D,
    Column::E,
    Column::F,
    Column::G,
    Column::H,
];

#[test]
fn position_text_round_trip_every_square() {
    for row in ROWS {
        for column in COLUMNS {
            let p = Position { row, column };
            let text = p.to_text();
            assert_eq!(text.len(), 2);
            assert_eq!(Position::parse(&text).unwrap(), p);
        }
    }
}

#[test]
fn position_parse_round_trip_every_name() {
    for f in "abcdefgh".chars() {
        for r in "12345678".chars() {
            let name: String = [f, r].iter().collect();
            let p = Position::parse(&name).unwrap();
            assert_eq!(p.to_text(), name);
            let upper: String = [f.to_ascii_uppercase(), r].iter().collect();
            assert!(matches!(Position::parse(&upper), Err(ChessError::InvalidMove(_))));
        }
    }
}

#[test]
fn position_text_is_file_then_rank() {
    let p = Position { row: Row::Two, column: Column::E };
    assert_eq!(p.to_text(), "e2");
    assert_eq!(p.board_position(), (4, 1));
}

#[test]
fn position_parse_rejects_bad_text() {
    for s in ["", "e", "e22", "i1", "a0", "a9", " e2", "2e", "ée"] {
        assert!(matches!(Position::parse(s), Err(ChessError::InvalidMove(_))), "{:?}", s);
    }
}

#[test]
fn row_and_column_offsets_fail_off_board() {
    assert_eq!(Row::One.try_add(7).unwrap(), Row::Eight);
    assert_eq!(Row::Four.try_add(-3).unwrap(), Row::One);
    assert!(matches!(Row::One.try_add(-1), Err(ChessError::InvalidMove(_))));
    assert!(matches!(Row::Eight.try_add(1), Err(ChessError::InvalidMove(_))));
    assert!(matches!(Row::One.try_add(isize::MAX), Err(ChessError::InvalidMove(_))));
    assert_eq!(Column::C.try_add(2).unwrap(), Column::E);
    assert!(matches!(Column::H.try_add(1), Err(ChessError::InvalidMove(_))));
    assert!(matches!(Column::A.try_add(isize::MIN), Err(ChessError::InvalidMove(_))));
}

#[test]
fn add_offset_moves_both_axes() {
    let d4 = Position { row: Row::Four, column: Column::D };
    assert_eq!(
        d4.add_offset(2, -1).unwrap(),
        Position { row: Row::Six, column: Column::C }
    );
    assert!(matches!(d4.add_offset(5, 0), Err(ChessError::InvalidMove(_))));
    assert!(matches!(d4.add_offset(0, -4), Err(ChessError::InvalidMove(_))));
}

#[test]
fn row_and_column_text() {
    assert_eq!(Row::parse("3").unwrap(), Row::Three);
    assert_eq!(Column::parse("e").unwrap(), Column::E);
    assert!(matches!(Row::parse(" 3 "), Err(ChessError::InvalidMove(_))));
    assert!(matches!(Column::parse("E"), Err(ChessError::InvalidMove(_))));
    assert!(matches!(Column::parse("\th\n"), Err(ChessError::InvalidMove(_))));
    assert!(matches!(Row::parse("9"), Err(ChessError::InvalidMove(_))));
    assert!(matches!(Row::parse("12"), Err(ChessError::InvalidMove(_))));
    assert!(matches!(Column::parse(""), Err(ChessError::InvalidMove(_))));
    assert_eq!(Row::Seven.to_char(), '7');
    assert_eq!(Column::G.to_char(), 'g');
    assert_eq!(Row::Five.index(), 4);
    assert_eq!(Column::B.index(), 1);
    assert_eq!(Row::from_index(6).unwrap(), Row::Seven);
    assert!(matches!(Column::from_index(8), Err(ChessError::InvalidMove(_))));
}

#[test]
fn uci_moves_drop_promotion() {
    let m = Move::from_uci("e7e8q").unwrap();
    assert_eq!(
        m,
        Move {
            from: Position { row: Row::Seven, column: Column::E },
            to: Position { row: Row::Eight, column: Column::E },
        }
    );
    assert_eq!(Move::from_uci("g1f3").unwrap().to.column, Column::F);
    assert!(matches!(Move::from_uci("e2e"), Err(ChessError::InvalidMove(_))));
    assert!(matches!(Move::from_uci("e2e4qq"), Err(ChessError::InvalidMove(_))));
    assert!(matches!(Move::from_uci("e2x4"), Err(ChessError::InvalidMove(_))));
}

#[test]
fn from_str_matches_parse() {
    let p: Position = "h8".parse().unwrap();
    assert_eq!(p, Position { row: Row::Eight, column: Column::H });
    let r: Row = "4".parse().unwrap();
    assert_eq!(r, Row::Four);
    let c: Column = "b".parse().unwrap();
    assert_eq!(c, Column::B);
    assert!("h9".parse::<Position>().is_err());
    assert!("H8".parse::<Position>().is_err());
    for (i, name) in ["a", "b", "c", "d", "e", "f", "g", "h"].iter().enumerate() {
        let c: Column = name.parse().unwrap();
        assert_eq!(c.index(), i);
        assert_eq!(c.to_char().to_string(), *name);
    }
}

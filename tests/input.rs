use chess_engine::{parse_input_to_move, ChessError, Column, Move, Position, Row};

fn sq(column: Column, row: Row) -> Position {
    Position { row, column }
}

#[test]
fn test_parse_simple_inputs() {
    let expected = Move {
        from: Position {
            row: Row::Two,
            column: Column::A,
        },
        to: Position {
            row: Row::Three,
            column: Column::A,
        },
    };
    for input in ["a2 a3", "a2a3", " a2    a3", "a23"] {
        let move_result = parse_input_to_move(input);
        assert!(move_result.is_ok(), "Failed to parse input: {}", input);
        let chess_move = move_result.unwrap();
        assert_eq!(
            chess_move, expected,
            "Parsed move does not match expected for input: {}",
            input
        );
    }
}

#[test]
fn parse_input_file_only_target() {
    let m = parse_input_to_move("e2f").unwrap();
    assert_eq!(m, Move { from: sq(Column::E, Row::Two), to: sq(Column::F, Row::Two) });
}

#[test]
fn parse_input_single_file_after_space() {
    let m = parse_input_to_move("e2 g").unwrap();
    assert_eq!(m, Move { from: sq(Column::E, Row::Two), to: sq(Column::G, Row::Two) });
}

#[test]
fn parse_input_blanks_and_extra_words() {
    let m = parse_input_to_move("\te2  e4 now\n").unwrap();
    assert_eq!(m, Move { from: sq(Column::E, Row::Two), to: sq(Column::E, Row::Four) });
}

#[test]
fn parse_input_rejects_bad_text() {
    for input in ["", "e2", "  e2  ", "z2e4", "e2e9", "e20", "e2 x4", "e2e4e6", "é2e4", "E2E4", "e2 E4"] {
        let r = parse_input_to_move(input);
        assert!(matches!(r, Err(ChessError::InvalidMove(_))), "accepted: {:?}", input);
    }
}

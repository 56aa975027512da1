use chess_engine::solver::within_budget;
use chess_engine::{
    score_board, select_move, solve_next_move, ChessBoard, ChessColour, ChessEngine, ChessError,
    ChessPieceKind, Column, GameStatus, Move, Position, Row,
};

fn sq(name: &str) -> Position {
    Position::parse(name).unwrap()
}

fn engine(diagram: &str) -> ChessEngine {
    ChessEngine::new(ChessBoard::parse(diagram).unwrap())
}

fn sorted(mut v: Vec<Position>) -> Vec<String> {
    let mut names: Vec<String> = v.drain(..).map(|p| p.to_text()).collect();
    names.sort();
    names
}

#[test]
fn opening_pawn_double_step() {
    let mut game = ChessEngine::default();
    let before = game.get_board().board[1][4].piece;
    let state = game.make_move(sq("e2"), sq("e4")).unwrap();
    assert_eq!(state.status, GameStatus::Ongoing);
    assert_eq!(state.status(), GameStatus::Ongoing);
    assert_eq!(state.board().turn, ChessColour::Black);
    let board = game.get_board();
    let moved = board.board[3][4].piece.unwrap();
    assert_eq!(moved.kind, before.unwrap().kind);
    assert_eq!(moved.colour, ChessColour::White);
    assert!(moved.moved);
    assert_eq!(board.board[1][4].piece, None);
    assert_eq!(board.turn, ChessColour::Black);
    assert_eq!(game.played_moves(), &vec![Move { from: sq("e2"), to: sq("e4") }]);
    assert!(game.taken_pieces().is_empty());
}

#[test]
fn moved_pawn_loses_double_step() {
    let mut game = ChessEngine::default();
    game.make_move(sq("e2"), sq("e3")).unwrap();
    game.make_move(sq("a7"), sq("a6")).unwrap();
    assert_eq!(sorted(game.get_available_moves(sq("e3")).unwrap()), vec!["e4"]);
}

#[test]
fn failed_moves_change_nothing() {
    let mut game = ChessEngine::default();
    let board = *game.get_board();
    for (from, to) in [("e4", "e5"), ("e7", "e5"), ("e2", "e5"), ("a1", "a2"), ("b1", "b3")] {
        let r = game.make_move(sq(from), sq(to));
        assert!(matches!(r, Err(ChessError::InvalidMove(_))), "{} {}", from, to);
        assert_eq!(*game.get_board(), board);
        assert!(game.played_moves().is_empty());
    }
}

#[test]
fn turns_alternate() {
    let mut game = ChessEngine::default();
    let plies = [("g1", "f3"), ("b8", "c6"), ("f3", "g1"), ("c6", "b8")];
    let mut turn = ChessColour::White;
    for (from, to) in plies {
        assert_eq!(game.get_board().turn, turn);
        game.make_move(sq(from), sq(to)).unwrap();
        turn = turn.flip();
        assert_eq!(game.get_board().turn, turn);
    }
    assert_eq!(game.played_moves().len(), 4);
}

#[test]
fn capture_is_recorded() {
    let mut game = engine(
        "
        ....k...
        ........
        ........
        ...p....
        ....P...
        ........
        ........
        ....K...
        ",
    );
    let target = game.get_board().board[4][3].piece.unwrap();
    game.make_move(sq("e4"), sq("d5")).unwrap();
    assert_eq!(game.taken_pieces(), &vec![target]);
    assert_eq!(game.get_board().board[4][3].piece.unwrap().kind, ChessPieceKind::Pawn);
    assert_eq!(game.get_board().board[4][3].piece.unwrap().colour, ChessColour::White);
    game.make_move(sq("e8"), sq("d8")).unwrap();
    assert_eq!(game.taken_pieces().len(), 1);
}

#[test]
fn knight_from_d4() {
    let game = engine(
        "
        ........
        ........
        ........
        ........
        ...N....
        ........
        ........
        ........
        ",
    );
    let moves = sorted(game.get_available_moves(sq("d4")).unwrap());
    assert_eq!(moves, vec!["b3", "b5", "c2", "c6", "e2", "e6", "f3", "f5"]);
}

#[test]
fn knight_in_corner() {
    let game = engine("N.......");
    assert_eq!(sorted(game.get_available_moves(sq("a1")).unwrap()), vec!["b3", "c2"]);
}

#[test]
fn bishop_ray_stops_at_blocker() {
    let open = engine("..B.....");
    let moves = sorted(open.get_available_moves(sq("c1")).unwrap());
    assert_eq!(moves, vec!["a3", "b2", "d2", "e3", "f4", "g5", "h6"]);

    let blocked = engine(
        "
        .....p..
        ........
        ........
        ..B.....
        ",
    );
    let moves = sorted(blocked.get_available_moves(sq("c1")).unwrap());
    assert_eq!(moves, vec!["a3", "b2", "d2", "e3", "f4"]);

    let own = engine(
        "
        .....P..
        ........
        ........
        ..B.....
        ",
    );
    let moves = sorted(own.get_available_moves(sq("c1")).unwrap());
    assert_eq!(moves, vec!["a3", "b2", "d2", "e3"]);
}

#[test]
fn legal_destinations_never_hold_own_pieces() {
    let game = engine(
        "
        r...k..r
        pp.n.ppp
        ..p.bn..
        q..pp...
        .b.PP.Q.
        ..N..N..
        PPP..PPP
        R.B.KB.R
        ",
    );
    let board = *game.get_board();
    for (pos, cell) in board.pieces() {
        let side = cell.piece.unwrap().colour;
        for to in game.get_available_moves(pos).unwrap() {
            let target = board.board[to.row.index()][to.column.index()].piece;
            assert!(target.map_or(true, |p| p.colour != side), "{:?} -> {:?}", pos, to);
        }
    }
}

#[test]
fn rook_queen_and_king_rays() {
    let game = engine(
        "
        ........
        ........
        ........
        ........
        ...p....
        ........
        ........
        R..Q...K
        ",
    );
    assert_eq!(
        sorted(game.get_available_moves(sq("a1")).unwrap()),
        vec!["a2", "a3", "a4", "a5", "a6", "a7", "a8", "b1", "c1"]
    );
    let queen = sorted(game.get_available_moves(sq("d1")).unwrap());
    assert_eq!(
        queen,
        vec!["a4", "b1", "b3", "c1", "c2", "d2", "d3", "d4", "e1", "e2", "f1", "f3", "g1", "g4", "h5"]
    );
    assert_eq!(sorted(game.get_available_moves(sq("h1")).unwrap()), vec!["g1", "h2"]);
}

#[test]
fn pawn_captures_diagonally_only_onto_opponents() {
    let game = engine(
        "
        ........
        ........
        ........
        ........
        ........
        .p.P....
        ..P.....
        ........
        ",
    );
    assert_eq!(
        sorted(game.get_available_moves(sq("c2")).unwrap()),
        vec!["b3", "c3", "c4"]
    );
    let black = sorted(game.get_available_moves(sq("b3")).unwrap());
    assert_eq!(black, vec!["b1", "b2", "c2"]);
}

#[test]
fn empty_square_has_no_moves() {
    let game = ChessEngine::default();
    assert!(game.get_available_moves(sq("e4")).unwrap().is_empty());
}

#[test]
fn material_score() {
    let board = ChessBoard::default();
    assert_eq!(score_board(&board, &ChessColour::White), 0);
    let board = ChessBoard::parse("....k...\n........\nQR......\n....K...").unwrap();
    assert_eq!(score_board(&board, &ChessColour::White), 14);
    assert_eq!(score_board(&board, &ChessColour::Black), -14);
}

#[test]
fn solver_plays_a_legal_opening_move() {
    let game = ChessEngine::default();
    let mv = solve_next_move(&game).unwrap();
    let from = game.get_board().board[mv.from.row.index()][mv.from.column.index()];
    assert_eq!(from.piece.unwrap().colour, ChessColour::White);
    assert!(game.get_available_moves(mv.from).unwrap().contains(&mv.to));
    let (picked, score) = select_move(&game).unwrap();
    assert_eq!(picked, mv);
    assert_eq!(score, 0);
}

#[test]
fn solver_takes_last_of_equal_scores() {
    let diagram = format!("K.......\n{}.......k", "........\n".repeat(6));
    let game = engine(&diagram);
    let mv = solve_next_move(&game).unwrap();
    assert_eq!(mv.from, Position { row: Row::Eight, column: Column::A });
    assert_eq!(mv.to, Position { row: Row::Eight, column: Column::B });
}

#[test]
fn solver_prefers_lowest_score() {
    let mut game = engine(
        "
        .......k
        ........
        ........
        ........
        ........
        ........
        p.......
        R......K
        ",
    );
    let (mv, score) = select_move(&game).unwrap();
    assert_eq!(score, 5 + 200 - 1 - 200);
    assert_ne!(mv.to, sq("a2"));
    game.make_move(mv.from, mv.to).unwrap();
    let (_, black_score) = select_move(&game).unwrap();
    assert!(black_score <= -4);
}

#[test]
fn solver_without_moves_is_an_error() {
    let stuck = engine("P.......\nK.......");
    let stuck = ChessEngine::new(ChessBoard { turn: ChessColour::Black, ..*stuck.get_board() });
    match solve_next_move(&stuck) {
        Err(ChessError::SolverError(msg)) => assert_eq!(msg, "No valid moves found"),
        other => panic!("unexpected result {:?}", other),
    }
    assert!(select_move(&stuck).is_none());
}

#[test]
fn fen_after_opening_move() {
    let mut game = ChessEngine::default();
    game.make_move(sq("e2"), sq("e4")).unwrap();
    assert_eq!(
        game.get_board().fen(),
        "rnbqkbnr/pppppppp/8/8/4P3/8/PPPP1PPP/RNBQKBNR b - - 0 1"
    );
}

#[test]
fn search_budget_limits() {
    assert!(within_budget(0, 0));
    assert!(within_budget(9, 5));
    assert!(!within_budget(10, 0));
    assert!(!within_budget(0, 6));
}

#[test]
fn board_text_round_trip_through_from_str() {
    let text = format!("rnbqkbnr\npppppppp\n{}PPPPPPPP\nRNBQKBNR", "........\n".repeat(4));
    let board: ChessBoard = text.parse().unwrap();
    assert_eq!(board.fen(), ChessBoard::default().fen());
}

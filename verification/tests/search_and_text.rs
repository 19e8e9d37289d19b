use chess_engine2::search::{negamax, NEG_INFINITY, POS_INFINITY};
use chess_engine2::{Chess, Color, EngineError, Move, PieceType, Position};

#[test]
fn best_move_is_deterministic_across_runs() {
    let chess = Chess::from_fen("r1bqkbnr/pppp1ppp/2n5/4p3/2B1P3/5N2/PPPP1PPP/RNBQK2R w KQkq - 0 1")
        .unwrap();
    let first = chess.get_best_move(2);
    let second = chess.get_best_move(2);
    assert!(first.is_some());
    assert_eq!(first, second);
    let start = Chess::new();
    assert_eq!(start.get_best_move(2), start.get_best_move(2));
}

#[test]
fn search_finds_mate_in_one() {
    let chess = Chess::from_fen("6k1/8/6K1/8/8/8/8/R7 w - - 0 1").unwrap();
    let best = chess.get_best_move(2).unwrap();
    assert_eq!(best, Move { from: Position { row: 7, col: 0 }, to: Position { row: 0, col: 0 }, prom: None });
    assert_eq!(chess.get_best_move_uci(2), Some(String::from("a1a8")));
}

#[test]
fn search_returns_none_on_checkmate() {
    let mut chess = Chess::new();
    for text in ["f2f3", "e7e5", "g2g4", "d8h4"] {
        chess.set(Move::from_uci(text).unwrap()).unwrap();
    }
    assert_eq!(chess.get_best_move(3), None);
    assert_eq!(chess.get_best_move_uci(3), None);
}

#[test]
fn negamax_at_depth_zero_is_the_static_evaluation() {
    let chess = Chess::from_fen("4k3/8/8/8/8/8/8/R3K3 w - - 0 1").unwrap();
    assert_eq!(
        negamax(chess.clone(), NEG_INFINITY, POS_INFINITY, 0, Color::White),
        chess.evaluate(Color::White)
    );
}

#[test]
fn negamax_prefers_winning_material() {
    // White to move can capture a free queen: the search value at depth
    // two is far above the standing evaluation.
    let chess = Chess::from_fen("4k3/8/8/3q4/4P3/8/8/4K3 w - - 0 1").unwrap();
    let standing = chess.evaluate(Color::White);
    let searched = negamax(chess, NEG_INFINITY, POS_INFINITY, 2, Color::White);
    assert!(searched > standing + 500);
}

#[test]
fn sorting_puts_the_biggest_capture_first() {
    // A pawn can take a queen or a knight; the queen capture scores
    // higher and comes first after ordering.
    let chess = Chess::from_fen("4k3/8/8/3q1n2/4P3/8/8/4K3 w - - 0 1").unwrap();
    let ordered = chess.sort_moves(chess.gen_legal_moves());
    assert_eq!(ordered[0], Move { from: Position { row: 4, col: 4 }, to: Position { row: 3, col: 3 }, prom: None });
}

#[test]
fn position_text_decodes_files_and_ranks() {
    assert_eq!(Position::from_alg("a1"), Ok(Position { row: 7, col: 0 }));
    assert_eq!(Position::from_alg("e4"), Ok(Position { row: 4, col: 4 }));
    assert_eq!(Position::from_alg("h8"), Ok(Position { row: 0, col: 7 }));
    assert_eq!(Position::from_alg("i1"), Err(EngineError::MalformedInput));
    assert_eq!(Position::from_alg("a9"), Err(EngineError::MalformedInput));
    assert_eq!(Position::from_alg("a"), Err(EngineError::MalformedInput));
    assert_eq!(Position::from_alg(""), Err(EngineError::MalformedInput));
}

#[test]
fn position_text_round_trips() {
    for i in 0..64 {
        let p = Position::coordinates(i);
        let text = p.to_alg();
        assert_eq!(Position::from_alg(text.as_str()), Ok(p));
    }
}

#[test]
fn move_text_decodes_squares_and_promotion() {
    let m = Move::from_uci("e2e4").unwrap();
    assert_eq!(m.from, Position { row: 6, col: 4 });
    assert_eq!(m.to, Position { row: 4, col: 4 });
    assert_eq!(m.prom, None);
    let p = Move::from_uci("e7e8q").unwrap();
    assert_eq!(p.prom, Some(PieceType::Queen));
    // The knight's promotion letter is 'k' in this dialect; 'n' is
    // rejected.
    assert_eq!(Move::from_uci("e7e8k").unwrap().prom, Some(PieceType::Knight));
    assert_eq!(Move::from_uci("e7e8n"), Err(EngineError::MalformedInput));
    assert_eq!(Move::from_uci("e2e"), Err(EngineError::MalformedInput));
    assert_eq!(Move::from_uci("e2x4"), Err(EngineError::MalformedInput));
}

#[test]
fn move_text_round_trips() {
    for text in ["e2e4", "g8f6", "a7a8q", "h2h1r", "b7b8b", "c7c8k"] {
        let m = Move::from_uci(text).unwrap();
        assert_eq!(m.to_uci(), text);
    }
}

#[test]
fn fen_rejects_wrong_field_counts() {
    assert_eq!(
        Chess::from_fen("rnbqkbnr/pppppppp/8/8/8/8/PPPPPPPP/RNBQKBNR w KQkq -"),
        Err(EngineError::MalformedInput)
    );
    assert_eq!(Chess::from_fen(""), Err(EngineError::MalformedInput));
}

#[test]
fn fen_rejects_unknown_letters() {
    assert_eq!(
        Chess::from_fen("rnbqkbnr/pppppppp/8/8/8/8/PPPPPPPP/RNBQKBNX w KQkq - 0 1"),
        Err(EngineError::MalformedInput)
    );
    assert_eq!(
        Chess::from_fen("rnbqkbnr/pppppppp/8/8/8/8/PPPPPPPP/RNBQKBNR x KQkq - 0 1"),
        Err(EngineError::MalformedInput)
    );
}

#[test]
fn fen_startpos_matches_the_built_in_initial_position() {
    let parsed = Chess::from_fen("rnbqkbnr/pppppppp/8/8/8/8/PPPPPPPP/RNBQKBNR w KQkq - 0 1")
        .unwrap();
    assert_eq!(parsed, Chess::new());
}

#[test]
fn fen_reads_castling_and_en_passant_fields() {
    let chess = Chess::from_fen("rnbqkbnr/pppp1ppp/8/4p3/4P3/8/PPPP1PPP/RNBQKBNR w Kq e6 0 2")
        .unwrap();
    assert!(chess.white_castle.can_kingside_castle());
    assert!(!chess.white_castle.can_queenside_castle());
    assert!(!chess.black_castle.can_kingside_castle());
    assert!(chess.black_castle.can_queenside_castle());
    assert_eq!(chess.en_passant, Some(Position { row: 2, col: 4 }));
    let quiet = Chess::from_fen("4k3/8/8/8/8/8/8/4K3 b - - 0 1").unwrap();
    assert!(quiet.en_passant.is_none());
    assert!(!quiet.white_castle.can_castle());
    assert_eq!(quiet.turn, Color::Black);
}

#[test]
fn negamax_scores_checkmate_by_remaining_depth() {
    // After the fool's mate sequence the side to move is mated; the
    // search reports the mate sentinel minus the remaining depth, so a
    // mate met nearer the root ranks strictly worse for the mated side.
    let mut chess = Chess::new();
    for text in ["f2f3", "e7e5", "g2g4", "d8h4"] {
        chess.set(Move::from_uci(text).unwrap()).unwrap();
    }
    let mate_base: i32 = -1073741824;
    assert_eq!(negamax(chess.clone(), NEG_INFINITY, POS_INFINITY, 1, Color::White), mate_base - 1);
    assert_eq!(negamax(chess, NEG_INFINITY, POS_INFINITY, 3, Color::White), mate_base - 3);
}

#[test]
fn negamax_scores_stalemate_as_zero() {
    let chess = Chess::from_fen("k7/8/1Q6/8/8/8/8/7K b - - 0 1").unwrap();
    assert_eq!(negamax(chess, NEG_INFINITY, POS_INFINITY, 4, Color::Black), 0);
}

use chess_engine2::{Chess, Color, EngineError, Move, Piece, PieceType, Position};

fn mv(text: &str) -> Move {
    Move::from_uci(text).unwrap()
}

#[test]
fn index_of_coordinates_round_trips() {
    for i in 0..64 {
        let p = Position::coordinates(i);
        assert!(p.is_on_board());
        assert_eq!(p.index(), i);
    }
}

#[test]
fn initial_position_has_twenty_legal_moves() {
    let chess = Chess::new();
    assert_eq!(chess.gen_legal_moves().len(), 20);
}

#[test]
fn initial_position_has_all_castle_rights_and_no_en_passant() {
    let chess = Chess::new();
    assert!(chess.white_castle.can_kingside_castle());
    assert!(chess.white_castle.can_queenside_castle());
    assert!(chess.black_castle.can_kingside_castle());
    assert!(chess.black_castle.can_queenside_castle());
    assert!(chess.en_passant.is_none());
    assert_eq!(chess.turn, Color::White);
}

#[test]
fn double_push_sets_en_passant_target() {
    let mut chess = Chess::new();
    chess.set(mv("e2e4")).unwrap();
    assert_eq!(chess.en_passant, Some(Position { row: 5, col: 4 }));
}

#[test]
fn en_passant_target_cleared_after_one_further_move() {
    let mut chess = Chess::new();
    chess.set(mv("e2e4")).unwrap();
    chess.set(mv("g8f6")).unwrap();
    assert!(chess.en_passant.is_none());
}

#[test]
fn en_passant_capture_removes_the_passed_pawn() {
    let mut chess = Chess::new();
    chess.set(mv("e2e4")).unwrap();
    chess.set(mv("a7a6")).unwrap();
    chess.set(mv("e4e5")).unwrap();
    chess.set(mv("d7d5")).unwrap();
    // White captures the d5 pawn en passant on d6.
    let target = Position { row: 2, col: 3 };
    assert_eq!(chess.en_passant, Some(target));
    assert!(chess.gen_legal_moves().contains(&Move { from: mv("e5d6").from, to: target, prom: None }));
    chess.set(mv("e5d6")).unwrap();
    // The captured pawn's square (d5) is now empty.
    let d5 = Position { row: 3, col: 3 };
    assert!(!d5.is_there_a_piece(&chess.board));
    // The capturing pawn stands on d6.
    assert!(d5.up(1).is_there_a_piece_type_color(&chess.board, PieceType::Pawn, Color::White));
}

#[test]
fn castling_blocked_by_occupied_transit_squares() {
    // In the initial position the kingside flag is set, but f1 and g1
    // are occupied: no castling move may appear.
    let chess = Chess::new();
    let castle = Move { from: Position { row: 7, col: 4 }, to: Position { row: 7, col: 6 }, prom: None };
    assert!(!chess.gen_legal_moves().contains(&castle));
}

#[test]
fn castling_blocked_by_attacked_king_square() {
    // White king on e1 is in check from the rook on e2.
    let chess = Chess::from_fen("4k3/8/8/8/8/8/4r3/4K2R w K - 0 1").unwrap();
    let castle = Move { from: Position { row: 7, col: 4 }, to: Position { row: 7, col: 6 }, prom: None };
    assert!(!chess.gen_legal_moves().contains(&castle));
}

#[test]
fn castling_blocked_by_attacked_transit_square() {
    // The f1 square the king passes through is attacked by the rook on f2.
    let chess = Chess::from_fen("4k3/8/8/8/8/8/5r2/4K2R w K - 0 1").unwrap();
    let castle = Move { from: Position { row: 7, col: 4 }, to: Position { row: 7, col: 6 }, prom: None };
    assert!(!chess.gen_legal_moves().contains(&castle));
}

#[test]
fn kingside_castling_moves_king_and_rook() {
    let mut chess = Chess::from_fen("4k3/8/8/8/8/8/8/4K2R w K - 0 1").unwrap();
    let castle = Move { from: Position { row: 7, col: 4 }, to: Position { row: 7, col: 6 }, prom: None };
    assert!(chess.gen_legal_moves().contains(&castle));
    chess.set(castle).unwrap();
    let g1 = Position { row: 7, col: 6 };
    let f1 = Position { row: 7, col: 5 };
    assert!(g1.is_there_a_piece_type_color(&chess.board, PieceType::King, Color::White));
    assert!(f1.is_there_a_piece_type_color(&chess.board, PieceType::Rook, Color::White));
    assert!(!chess.white_castle.can_kingside_castle());
    assert!(!chess.white_castle.can_queenside_castle());
}

#[test]
fn castling_without_rook_is_a_recoverable_error() {
    // The kingside flag is set but the rook is absent: applying the
    // castling move reports an illegal state and leaves the board alone.
    let mut chess = Chess::from_fen("4k3/8/8/8/8/8/8/4K3 w K - 0 1").unwrap();
    let before = chess.clone();
    let castle = Move { from: Position { row: 7, col: 4 }, to: Position { row: 7, col: 6 }, prom: None };
    assert_eq!(chess.set(castle), Err(EngineError::IllegalState));
    assert_eq!(chess, before);
}

#[test]
fn fools_mate_is_checkmate() {
    let mut chess = Chess::new();
    chess.set(mv("f2f3")).unwrap();
    chess.set(mv("e7e5")).unwrap();
    chess.set(mv("g2g4")).unwrap();
    chess.set(mv("d8h4")).unwrap();
    assert_eq!(chess.gen_legal_moves().len(), 0);
    assert!(chess.is_check());
}

#[test]
fn stalemate_has_no_moves_and_no_check() {
    let chess = Chess::from_fen("k7/8/1Q6/8/8/8/8/7K b - - 0 1").unwrap();
    assert_eq!(chess.gen_legal_moves().len(), 0);
    assert!(!chess.is_check());
}

#[test]
fn promotion_generates_all_four_piece_choices() {
    let chess = Chess::from_fen("8/P6k/8/8/8/8/8/K7 w - - 0 1").unwrap();
    let legal = chess.gen_legal_moves();
    let from = Position { row: 1, col: 0 };
    let to = Position { row: 0, col: 0 };
    for typ in [PieceType::Queen, PieceType::Rook, PieceType::Bishop, PieceType::Knight] {
        assert!(legal.contains(&Move { from, to, prom: Some(typ) }));
    }
    assert!(!legal.contains(&Move { from, to, prom: None }));
}

#[test]
fn promotion_replaces_the_pawn() {
    let mut chess = Chess::from_fen("8/P6k/8/8/8/8/8/K7 w - - 0 1").unwrap();
    chess.set(mv("a7a8q")).unwrap();
    let a8 = Position { row: 0, col: 0 };
    assert!(a8.is_there_a_piece_type_color(&chess.board, PieceType::Queen, Color::White));
}

#[test]
fn capturing_a_home_rook_clears_the_matching_right() {
    // White's queen takes the rook on h8; black loses the kingside right.
    let mut chess = Chess::from_fen("r3k2r/8/7Q/8/8/8/8/4K3 w kq - 0 1").unwrap();
    chess.set(mv("h6h8")).unwrap();
    assert!(!chess.black_castle.can_kingside_castle());
    assert!(chess.black_castle.can_queenside_castle());
}

#[test]
fn moving_a_rook_off_its_home_square_clears_one_right() {
    let mut chess = Chess::from_fen("4k3/8/8/8/8/8/8/R3K2R w KQ - 0 1").unwrap();
    chess.set(mv("h1h2")).unwrap();
    assert!(!chess.white_castle.can_kingside_castle());
    assert!(chess.white_castle.can_queenside_castle());
}

#[test]
fn evaluation_is_antisymmetric_in_color() {
    let chess = Chess::from_fen("r1bqkbnr/pppp1ppp/2n5/4p3/2B1P3/5N2/PPPP1PPP/RNBQK2R w KQkq - 0 1")
        .unwrap();
    assert_eq!(chess.evaluate(Color::White), -chess.evaluate(Color::Black));
    let start = Chess::new();
    assert_eq!(start.evaluate(Color::White), -start.evaluate(Color::Black));
    assert_eq!(start.evaluate(Color::White), 0);
}

#[test]
fn piece_evaluation_adds_material_and_square_bonus() {
    // A white pawn on e4 gets its material value 100 plus the square
    // bonus 20 for that central square.
    let pawn = Piece::new(PieceType::Pawn, Position { row: 4, col: 4 }, Color::White);
    assert_eq!(pawn.evaluate(), 120);
    assert_eq!(PieceType::Queen.evaluate_material(), 900);
    assert_eq!(PieceType::King.evaluate_material(), 20000);
}

#[test]
fn get_king_finds_the_side_to_move_king() {
    let chess = Chess::new();
    let king = chess.get_king().unwrap();
    assert_eq!(king.typ, PieceType::King);
    assert_eq!(king.color, Color::White);
    assert_eq!(king.pos, Position { row: 7, col: 4 });
}

#[test]
fn applying_a_move_from_an_empty_square_changes_nothing() {
    let mut chess = Chess::new();
    let before = chess.clone();
    chess.apply_move(mv("e4e5")).unwrap();
    assert_eq!(chess, before);
}

#[test]
fn off_board_moves_are_rejected() {
    let mut chess = Chess::new();
    let off = Move { from: Position { row: 9, col: 0 }, to: Position { row: 0, col: 0 }, prom: None };
    assert_eq!(chess.apply_move(off), Err(EngineError::IllegalState));
}

#[test]
fn black_tables_mirror_white_tables() {
    // A black piece scores on a square exactly what the same white piece
    // scores on the vertically mirrored square (same file, flipped rank).
    for typ in [
        PieceType::King,
        PieceType::Queen,
        PieceType::Rook,
        PieceType::Bishop,
        PieceType::Knight,
        PieceType::Pawn,
    ] {
        for i in 0..64 {
            let p = Position::coordinates(i);
            let mirrored = Position { row: 7 - p.row, col: p.col };
            assert_eq!(
                Piece::new(typ, p, Color::White).evaluate(),
                Piece::new(typ, mirrored, Color::Black).evaluate()
            );
        }
    }
    // One pinned pair: a white queen on b3 and a black queen on b6 both
    // score material 900 plus bonus 5.
    let b3 = Position { row: 5, col: 1 };
    let b6 = Position { row: 2, col: 1 };
    assert_eq!(Piece::new(PieceType::Queen, b3, Color::White).evaluate(), 905);
    assert_eq!(Piece::new(PieceType::Queen, b6, Color::Black).evaluate(), 905);
}

#[test]
fn rook_leaving_a_non_home_square_keeps_the_right() {
    // The rook on h5 is not on its home square h1: moving it leaves the
    // kingside right alone.
    let mut chess = Chess::from_fen("4k3/8/8/7R/8/8/8/R3K3 w KQ - 0 1").unwrap();
    chess.set(mv("h5h6")).unwrap();
    assert!(chess.white_castle.can_kingside_castle());
    assert!(chess.white_castle.can_queenside_castle());
}

#[test]
fn capturing_a_rook_off_its_home_square_keeps_the_right() {
    // The black rook on h5 is not on its home square h8: taking it
    // leaves black's kingside right alone.
    let mut chess = Chess::from_fen("4k3/8/8/7r/7R/8/8/4K3 w kq - 0 1").unwrap();
    chess.set(mv("h4h5")).unwrap();
    assert!(chess.black_castle.can_kingside_castle());
    assert!(chess.black_castle.can_queenside_castle());
}

#[test]
fn king_to_g1_without_the_kingside_right_is_a_plain_move() {
    // Only the queenside right is held: a king move onto g1 is no
    // castling attempt, just a king move that forfeits the rights.
    let mut chess = Chess::from_fen("4k3/8/8/8/8/8/8/R3K3 w Q - 0 1").unwrap();
    chess.apply_move(mv("e1g1")).unwrap();
    let g1 = Position { row: 7, col: 6 };
    let a1 = Position { row: 7, col: 0 };
    assert!(g1.is_there_a_piece_type_color(&chess.board, PieceType::King, Color::White));
    assert!(a1.is_there_a_piece_type_color(&chess.board, PieceType::Rook, Color::White));
    assert!(!chess.white_castle.can_castle());
}

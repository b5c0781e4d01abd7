use kishmat::search::opening_book::OpeningBook;
use kishmat::search::polyglot_book::{decode_book, find_polyglot_move, PolyglotEntry};
use kishmat::{
    Arbiter, Board, Color, Evaluation, GameState, Piece, Search, Square, TranspositionEntry,
    TranspositionTable, Zobrist,
};

fn same_position(a: &Board, b: &Board) -> bool {
    a.pieces == b.pieces
        && a.occupancy == b.occupancy
        && a.side_to_move == b.side_to_move
        && a.castling_rights == b.castling_rights
        && a.en_passant == b.en_passant
        && a.halfmove_clock == b.halfmove_clock
        && a.fullmove_number == b.fullmove_number
        && a.history.len() == b.history.len()
}

fn check_round_trips(fen: &str) {
    let board = Board::from_fen(fen).unwrap();
    for color in [Color::White, Color::Black] {
        for (from, to) in board.generate_legal_moves(color) {
            let (piece, _) = board.get_piece_at_square(from).unwrap();
            let mut moved = board.clone();
            moved.make_move(from, to, piece, color);
            assert!(!same_position(&moved, &board));
            moved.unmake_move(from, to, piece, color);
            assert!(same_position(&moved, &board), "{:?}{:?} in {}", from, to, fen);
        }
    }
}

#[test]
fn unmake_restores_every_field_after_every_legal_move() {
    check_round_trips("rnbqkbnr/pppppppp/8/8/8/8/PPPPPPPP/RNBQKBNR w KQkq - 0 1");
    check_round_trips("r3k2r/pppq1ppp/2npbn2/2b1p3/2B1P3/2NPBN2/PPPQ1PPP/R3K2R w KQkq - 4 8");
    check_round_trips("rnbqkbnr/ppp1p1pp/8/3pPp2/8/8/PPPP1PPP/RNBQKBNR w KQkq f6 0 3");
    check_round_trips("4k3/P6p/8/8/8/8/p6P/4K3 w - - 10 40");
}

#[test]
fn unmake_restores_after_a_capture_in_passing() {
    let start = Board::from_fen("rnbqkbnr/ppp1p1pp/8/3pPp2/8/8/PPPP1PPP/RNBQKBNR w KQkq f6 0 3")
        .unwrap();
    let mut board = start.clone();
    board.make_move(Square::E5, Square::F6, Piece::Pawn, Color::White);
    assert_eq!(board.get_piece_at_square(Square::F6), Some((Piece::Pawn, Color::White)));
    assert_eq!(board.get_piece_at_square(Square::F5), None);
    assert_eq!(board.piece_count(Piece::Pawn, Color::Black), 7);
    assert_eq!(board.en_passant, None);
    board.unmake_move(Square::E5, Square::F6, Piece::Pawn, Color::White);
    assert!(same_position(&board, &start));
    assert_eq!(board.en_passant, Some(Square::F6));
}

#[test]
fn unmake_restores_after_castling() {
    let start = Board::from_fen("r3k2r/8/8/8/8/8/8/R3K2R w KQkq - 0 1").unwrap();
    let mut board = start.clone();
    board.make_move(Square::E1, Square::G1, Piece::King, Color::White);
    assert_eq!(board.get_piece_at_square(Square::G1), Some((Piece::King, Color::White)));
    assert_eq!(board.get_piece_at_square(Square::F1), Some((Piece::Rook, Color::White)));
    assert_eq!(board.get_piece_at_square(Square::H1), None);
    assert_eq!(board.castling_rights, 0b1100);
    board.make_move(Square::E8, Square::C8, Piece::King, Color::Black);
    assert_eq!(board.get_piece_at_square(Square::C8), Some((Piece::King, Color::Black)));
    assert_eq!(board.get_piece_at_square(Square::D8), Some((Piece::Rook, Color::Black)));
    assert_eq!(board.get_piece_at_square(Square::A8), None);
    assert_eq!(board.castling_rights, 0);
    assert_eq!(board.fullmove_number, 2);
    board.unmake_move(Square::E8, Square::C8, Piece::King, Color::Black);
    board.unmake_move(Square::E1, Square::G1, Piece::King, Color::White);
    assert!(same_position(&board, &start));
}

#[test]
fn unmake_restores_after_a_promotion_with_capture() {
    let start = Board::from_fen("4k1r1/7P/8/8/8/8/8/4K3 w - - 7 30").unwrap();
    let mut board = start.clone();
    board.make_move(Square::H7, Square::G8, Piece::Pawn, Color::White);
    assert_eq!(board.get_piece_at_square(Square::G8), Some((Piece::Queen, Color::White)));
    assert_eq!(board.piece_count(Piece::Pawn, Color::White), 0);
    assert_eq!(board.piece_count(Piece::Rook, Color::Black), 0);
    assert_eq!(board.halfmove_clock, 8);
    board.unmake_move(Square::H7, Square::G8, Piece::Pawn, Color::White);
    assert!(same_position(&board, &start));
}

#[test]
fn unmake_without_a_move_on_record_changes_nothing() {
    let start = Board::new();
    let mut board = start.clone();
    board.unmake_move(Square::E2, Square::E4, Piece::Pawn, Color::White);
    assert!(same_position(&board, &start));
}

#[test]
fn a_move_from_a_square_without_the_piece_moves_nothing() {
    let start = Board::new();
    let mut board = start.clone();
    board.make_move(Square::E4, Square::E5, Piece::Pawn, Color::White);
    assert_eq!(board.pieces, start.pieces);
    assert_eq!(board.side_to_move, Color::White);
    assert_eq!(board.history.len(), 1);
    board.unmake_move(Square::E4, Square::E5, Piece::Pawn, Color::White);
    assert!(same_position(&board, &start));
}

#[test]
fn the_key_is_the_same_after_a_null_move_and_its_undoing() {
    let zobrist = Zobrist::new();
    let mut board =
        Board::from_fen("r3k2r/pppq1ppp/2npbn2/2b1p3/2B1P3/2NPBN2/PPPQ1PPP/R3K2R b Kq - 4 8")
            .unwrap();
    let key = board.compute_zobrist_hash(&zobrist);
    board.undo_null_move();
    assert_ne!(board.compute_zobrist_hash(&zobrist), key);
    board.do_null_move();
    assert_eq!(board.compute_zobrist_hash(&zobrist), key);
}

#[test]
fn two_move_orders_to_one_position_give_one_key() {
    let zobrist = Zobrist::new();
    let mut first = Board::new();
    first.make_move(Square::G1, Square::F3, Piece::Knight, Color::White);
    first.make_move(Square::G8, Square::F6, Piece::Knight, Color::Black);
    first.make_move(Square::B1, Square::C3, Piece::Knight, Color::White);
    first.make_move(Square::B8, Square::C6, Piece::Knight, Color::Black);
    let mut second = Board::new();
    second.make_move(Square::B1, Square::C3, Piece::Knight, Color::White);
    second.make_move(Square::B8, Square::C6, Piece::Knight, Color::Black);
    second.make_move(Square::G1, Square::F3, Piece::Knight, Color::White);
    second.make_move(Square::G8, Square::F6, Piece::Knight, Color::Black);
    assert_eq!(first.pieces, second.pieces);
    assert_eq!(
        first.compute_zobrist_hash(&zobrist),
        second.compute_zobrist_hash(&zobrist)
    );
    assert_ne!(
        first.compute_zobrist_hash(&zobrist),
        Board::new().compute_zobrist_hash(&zobrist)
    );
}

#[test]
fn the_key_tells_castling_rights_targets_and_sides_apart() {
    let zobrist = Zobrist::new();
    let key = |fen: &str| Board::from_fen(fen).unwrap().compute_zobrist_hash(&zobrist);
    let base = key("r3k2r/8/8/3pP3/8/8/8/R3K2R w KQkq - 0 1");
    assert_ne!(base, key("r3k2r/8/8/3pP3/8/8/8/R3K2R w KQk - 0 1"));
    assert_ne!(base, key("r3k2r/8/8/3pP3/8/8/8/R3K2R w KQkq d6 0 1"));
    assert_ne!(base, key("r3k2r/8/8/3pP3/8/8/8/R3K2R b KQkq - 0 1"));
    assert_eq!(base, key("r3k2r/8/8/3pP3/8/8/8/R3K2R w KQkq - 31 77"));
}

#[test]
fn the_key_table_is_the_same_every_time() {
    let first = Zobrist::new();
    let second = Zobrist::default();
    assert_eq!(first.piece_keys.len(), 1536);
    assert_eq!(first.castling_keys.len(), 16);
    assert_eq!(first.en_passant_keys.len(), 8);
    assert_eq!(first.piece_keys, second.piece_keys);
    assert_eq!(first.castling_keys, second.castling_keys);
    assert_eq!(first.en_passant_keys, second.en_passant_keys);
    assert_eq!(first.side_to_move_key, second.side_to_move_key);
    // The keys come from the generator, not from the seed or the count.
    assert_ne!(first.side_to_move_key, 0);
    assert_ne!(first.side_to_move_key, 1561);
    assert_ne!(first.piece_keys[0], first.piece_keys[1]);
    assert_ne!(first.castling_keys[0], first.en_passant_keys[0]);
}

#[test]
fn the_evaluation_for_one_side_negates_that_for_the_other() {
    for fen in [
        "rnbqkbnr/pppppppp/8/8/8/8/PPPPPPPP/RNBQKBNR w KQkq - 0 1",
        "r3k2r/pppq1ppp/2npbn2/2b1p3/2B1P3/2NPBN2/PPPQ1PPP/R3K2R w KQkq - 4 8",
        "6k1/5ppp/8/8/8/8/8/R6K w - - 0 1",
        "8/8/8/8/8/8/8/8 w - - 0 1",
        "4k3/P6p/8/8/8/8/p6P/4K3 b - - 10 40",
    ] {
        let board = Board::from_fen(fen).unwrap();
        assert_eq!(
            Evaluation::evaluate(&board, Color::White),
            -Evaluation::evaluate(&board, Color::Black)
        );
    }
}

fn full_width(board: &mut Board, depth: i32, color: Color) -> i32 {
    let moves = board.generate_legal_moves(color);
    if moves.is_empty() {
        return if GameState::is_in_check(board, color) { -1_000_000 } else { 0 };
    }
    if depth <= 0 {
        return Search::quiescence_search(board, i32::MIN, i32::MAX, color);
    }
    let mut best = i32::MIN;
    for (from, to) in moves {
        let (piece, _) = board.get_piece_at_square(from).unwrap();
        board.make_move(from, to, piece, color);
        let score = -full_width(board, depth - 1, color.opponent());
        board.unmake_move(from, to, piece, color);
        if score > best {
            best = score;
        }
    }
    best
}

fn check_pruning(fen: &str, color: Color, max_depth: i32) {
    for depth in 0..=max_depth {
        let mut board = Board::from_fen(fen).unwrap();
        let mut table = TranspositionTable::new();
        let pruned = Search::negamax(&mut board, depth, i32::MIN, i32::MAX, color, &mut table).0;
        let mut plain = Board::from_fen(fen).unwrap();
        assert_eq!(pruned, full_width(&mut plain, depth, color), "{} at depth {}", fen, depth);
        assert_eq!(pruned, Search::full_width(&mut plain, depth, color));
        let again = Search::alpha_beta(&mut board, depth, i32::MIN, i32::MAX, color, &mut table).0;
        assert_eq!(again, pruned);
    }
}

#[test]
fn pruning_does_not_change_the_score_of_king_and_pawn_endings() {
    check_pruning("8/8/8/4k3/8/8/4P3/4K3 w - - 0 1", Color::White, 4);
    check_pruning("8/5k2/8/8/2p5/8/3P4/3K4 b - - 0 1", Color::Black, 4);
}

#[test]
fn pruning_does_not_change_the_score_with_a_rook_on_the_board() {
    check_pruning("6k1/5ppp/8/8/8/8/8/R6K w - - 0 1", Color::White, 3);
    check_pruning("6k1/5ppp/8/8/8/8/8/R6K w - - 0 1", Color::Black, 3);
}

#[test]
fn pruning_does_not_change_the_score_when_pieces_hang() {
    check_pruning("4k3/8/8/3q4/4P3/8/8/4K2R w K - 0 1", Color::White, 3);
    check_pruning("k7/8/8/8/8/8/1p6/K7 b - - 0 1", Color::Black, 4);
}

#[test]
fn the_starting_position_has_twenty_legal_moves() {
    let board = Board::starting_position().unwrap();
    let moves = board.generate_legal_moves(Color::White);
    assert_eq!(moves.len(), 20);
    let pawn_moves = moves
        .iter()
        .filter(|m| board.get_piece_at_square(m.0) == Some((Piece::Pawn, Color::White)))
        .count();
    let knight_moves = moves
        .iter()
        .filter(|m| board.get_piece_at_square(m.0) == Some((Piece::Knight, Color::White)))
        .count();
    assert_eq!(pawn_moves, 16);
    assert_eq!(knight_moves, 4);
    assert_eq!(board.generate_legal_moves(Color::Black).len(), 20);
    assert_eq!(moves[0], (Square::A2, Square::A3));
    assert_eq!(moves[1], (Square::A2, Square::A4));
    assert_eq!(moves[16], (Square::B1, Square::A3));
    assert_eq!(moves[19], (Square::G1, Square::H3));
}

#[test]
fn the_back_rank_mate_is_found_at_depth_one() {
    let mut board = Board::from_fen("6k1/5ppp/8/8/8/8/8/R6K w - - 0 1").unwrap();
    let mut engine = Arbiter::new();
    let best = engine.search_best_move(&mut board, 1, Color::White);
    assert_eq!(best, Ok((Square::A1, Square::A8)));
    assert!(!GameState::is_checkmate(&board, Color::Black));
    board.apply_move((Square::A1, Square::A8), Color::White).unwrap();
    assert!(GameState::is_in_check(&board, Color::Black));
    assert!(GameState::is_checkmate(&board, Color::Black));
    assert!(!GameState::is_stalemate(&board, Color::Black));
    assert!(GameState::is_game_over(&board, Color::Black));
}

#[test]
fn every_search_finds_the_back_rank_mate() {
    let fen = "6k1/5ppp/8/8/8/8/8/R6K w - - 0 1";
    let mate = Ok((Square::A1, Square::A8));
    let mut table = TranspositionTable::new();
    let mut board = Board::from_fen(fen).unwrap();
    assert_eq!(Search::best_move(&mut board, 1, Color::White, &mut table), mate);
    assert_eq!(Search::best_move(&mut board, 0, Color::White, &mut table), mate);
    assert_eq!(Search::iterative_deepening(&mut board, 2, Color::White, &mut table), mate);
    assert_eq!(
        kishmat::arbiter::strategy::lmr_strategy(&mut board, 2, Color::White, &mut table),
        mate
    );
    assert_eq!(
        Search::negamax(&mut board, 1, i32::MIN, i32::MAX, Color::White, &mut table),
        (1_000_000, Some((Square::A1, Square::A8)))
    );
}

#[test]
fn what_is_stored_is_what_is_found() {
    let mut table = TranspositionTable::new();
    assert!(table.get(42).is_none());
    let entry = TranspositionEntry {
        depth: 3,
        score: -75,
        best_move: Some((Square::E2, Square::E4)),
    };
    table.store(42, entry);
    let found = table.get(42).unwrap();
    assert_eq!(found.depth, 3);
    assert_eq!(found.score, -75);
    assert_eq!(found.best_move, Some((Square::E2, Square::E4)));
    assert_eq!(table.lookup_best_move(42), Some((Square::E2, Square::E4)));
    assert!(table.get(43).is_none());
    assert_eq!(table.lookup_best_move(43), None);
    table.insert(42, TranspositionEntry { depth: 1, score: 5, best_move: None });
    assert_eq!(table.get(42).unwrap().score, 5);
    assert_eq!(table.lookup_best_move(42), None);
}

#[test]
fn a_book_record_decodes_to_key_move_and_weight() {
    let record: [u8; 16] = [
        0x00, 0x00, 0x00, 0x00, 0x00, 0x00, 0x00, 0x01, 0x01, 0xC4, 0x00, 0x10, 0x00, 0x00, 0x00,
        0x00,
    ];
    let entry = PolyglotEntry::from_bytes(&record);
    assert_eq!(entry.key, 1);
    assert_eq!(entry.move_, 0x01C4);
    assert_eq!(entry.weight, 16);
    assert_eq!(entry.learn, 0);
    let (from, to) = PolyglotEntry::polyglot_move_to_squares(entry.move_);
    assert_eq!(from.to_index(), 7);
    assert_eq!(to.to_index(), 4);
    assert_eq!((from, to), (Square::H1, Square::E1));
    assert_eq!(OpeningBook::polyglot_move_to_squares(0x01C4), (Square::H1, Square::E1));
    let entries = decode_book(&record).unwrap();
    assert_eq!(entries, vec![entry]);
    assert_eq!(find_polyglot_move(&entries, 1), Some(entry));
    assert_eq!(find_polyglot_move(&entries, 2), None);
}

fn count_leaves(board: &mut Board, depth: u32, color: Color) -> u64 {
    if depth == 0 {
        return 1;
    }
    let mut leaves = 0;
    for (from, to) in board.generate_legal_moves(color) {
        let (piece, owner) = board.get_piece_at_square(from).unwrap();
        assert_eq!(owner, color);
        board.make_move(from, to, piece, color);
        leaves += count_leaves(board, depth - 1, color.opponent());
        board.unmake_move(from, to, piece, color);
    }
    leaves
}

#[test]
fn the_move_tree_of_the_starting_position_has_its_known_size() {
    let mut board = Board::new();
    assert_eq!(count_leaves(&mut board, 1, Color::White), 20);
    assert_eq!(count_leaves(&mut board, 2, Color::White), 400);
    assert_eq!(count_leaves(&mut board, 3, Color::White), 8902);
    assert!(same_position(&board, &Board::new()));
}

#[test]
fn a_mate_in_one_is_found_by_every_way_of_searching() {
    for fen in [
        "6k1/5ppp/8/8/8/8/8/R6K w - - 0 1",
        "k7/8/1K6/8/8/8/8/7Q w - - 0 1",
        "r1bqkb1r/pppp1ppp/2n2n2/4p2Q/2B1P3/8/PPPP1PPP/RNB1K1NR w KQkq - 4 4",
    ] {
        let start = Board::from_fen(fen).unwrap();
        let mut board = start.clone();
        let mut table = TranspositionTable::new();
        let mut engine = Arbiter::new();
        for best in [
            Search::best_move(&mut board, 1, Color::White, &mut table),
            Search::iterative_deepening(&mut board, 1, Color::White, &mut table),
            kishmat::arbiter::strategy::lmr_strategy(&mut board, 1, Color::White, &mut table),
            engine.search_best_move(&mut board, 1, Color::White),
        ] {
            let mut after = start.clone();
            after.apply_move(best.unwrap(), Color::White).unwrap();
            assert!(GameState::is_checkmate(&after, Color::Black), "{}", fen);
        }
    }
}

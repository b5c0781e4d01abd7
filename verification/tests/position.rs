use kishmat::arbiter::position_type::determine_position_type;
use kishmat::arbiter::strategy::{
    choose_evaluation_strategy, choose_search_strategy, EvaluationStrategy, SearchStrategy,
};
use kishmat::bitboard::list_members;
use kishmat::notation::{parse_move, parse_square};
use kishmat::play::{engine_turn, player_color, player_turn, MoveSource, PlayerTurn};
use kishmat::search::opening_book::OpeningBook;
use kishmat::search::polyglot_book::{decode_book, find_polyglot_move};
use kishmat::{
    clear_bit, count_bits, get_lsb, is_bit_set, set_bit, Arbiter, Board, ChessError, Color,
    Evaluation, GameState, Piece, PositionType, Square, Zobrist, FULL_BOARD,
};

const START: &str = "rnbqkbnr/pppppppp/8/8/8/8/PPPPPPPP/RNBQKBNR w KQkq - 0 1";

#[test]
fn bits_are_set_cleared_counted_and_found() {
    let mut board = 0u64;
    set_bit(&mut board, 0);
    set_bit(&mut board, 63);
    set_bit(&mut board, 17);
    set_bit(&mut board, 17);
    assert_eq!(board, 0x8000_0000_0002_0001);
    assert!(is_bit_set(board, 17));
    assert!(!is_bit_set(board, 16));
    assert_eq!(count_bits(board), 3);
    assert_eq!(get_lsb(board), 0);
    clear_bit(&mut board, 0);
    clear_bit(&mut board, 5);
    assert_eq!(get_lsb(board), 17);
    assert_eq!(list_members(board), vec![17, 63]);
    assert_eq!(count_bits(0), 0);
    assert_eq!(get_lsb(0), 64);
    assert_eq!(count_bits(FULL_BOARD), 64);
    assert_eq!(count_bits(0xFF00), 8);
}

#[test]
fn squares_have_indices_names_files_and_ranks() {
    assert_eq!(Square::A1.to_index(), 0);
    assert_eq!(Square::H8.to_index(), 63);
    assert_eq!(Square::new(3, 4), Square::E4);
    assert_eq!(Square::from_index(28), Square::E4);
    for index in 0..64 {
        assert_eq!(Square::from_index(index).to_index(), index);
    }
    assert_eq!(Square::E4.rank_usize(), 3);
    assert_eq!(Square::E4.file_usize(), 4);
    assert_eq!(Square::E4.file(), b'e');
    assert_eq!(Square::E4.rank_ascii(), b'4');
    assert_eq!(Square::from_str("e4"), Ok(Square::E4));
    assert_eq!(Square::from_str("h8"), Ok(Square::H8));
    assert_eq!(Square::from_str("i4"), Err(ChessError::InvalidSquareIndex));
    assert_eq!(Square::from_str("e9"), Err(ChessError::InvalidSquareIndex));
    assert_eq!(Square::from_str("e"), Err(ChessError::InvalidSquareIndex));
    assert_eq!(Square::from_str("e44"), Err(ChessError::InvalidSquareIndex));
    assert_eq!(Square::from_str("E4"), Err(ChessError::InvalidSquareIndex));
    assert_eq!(Square::try_from_index(63), Ok(Square::H8));
    assert_eq!(Square::try_from_index(64), Err(ChessError::InvalidSquareIndex));
}

#[test]
fn hints_name_a_file_a_rank_or_both() {
    assert!(Square::D2.matches_hint(""));
    assert!(Square::D2.matches_hint("d"));
    assert!(Square::D2.matches_hint("2"));
    assert!(Square::D2.matches_hint("d2"));
    assert!(!Square::D2.matches_hint("e"));
    assert!(!Square::D2.matches_hint("3"));
    assert!(!Square::D2.matches_hint("d3"));
    assert!(!Square::D2.matches_hint("2d"));
    assert!(!Square::D2.matches_hint("d2x"));
}

#[test]
fn pieces_and_sides_are_read_from_numbers_and_letters() {
    assert_eq!(Piece::from_u8(0), Some(Piece::Pawn));
    assert_eq!(Piece::from_u8(5), Some(Piece::King));
    assert_eq!(Piece::from_u8(6), None);
    assert_eq!(Piece::from_char('n'), Some(Piece::Knight));
    assert_eq!(Piece::from_char('Q'), Some(Piece::Queen));
    assert_eq!(Piece::from_char('x'), None);
    assert_eq!(Color::from_u8(0), Some(Color::White));
    assert_eq!(Color::from_u8(1), Some(Color::Black));
    assert_eq!(Color::from_u8(2), None);
    assert_eq!(Color::White.opponent(), Color::Black);
    assert_eq!(Color::Black.opponent(), Color::White);
}

#[test]
fn the_starting_position_is_read_from_its_text() {
    let read = Board::from_fen(START).unwrap();
    let board = Board::new();
    assert_eq!(read.pieces, board.pieces);
    assert_eq!(read.occupancy, board.occupancy);
    assert_eq!(read.side_to_move, Color::White);
    assert_eq!(read.castling_rights, 0b1111);
    assert_eq!(read.en_passant, None);
    assert_eq!(read.halfmove_clock, 0);
    assert_eq!(read.fullmove_number, 1);
    assert!(read.history.is_empty());
}

#[test]
fn every_field_of_a_position_text_is_read() {
    let board =
        Board::from_fen("  r3k2r/8/8/3pP3/8/8/8/R3K2R   b  Kq   d6  17\t42 ").unwrap();
    assert_eq!(board.get_piece_at_square(Square::A8), Some((Piece::Rook, Color::Black)));
    assert_eq!(board.get_piece_at_square(Square::E8), Some((Piece::King, Color::Black)));
    assert_eq!(board.get_piece_at_square(Square::D5), Some((Piece::Pawn, Color::Black)));
    assert_eq!(board.get_piece_at_square(Square::E5), Some((Piece::Pawn, Color::White)));
    assert_eq!(board.get_piece_at_square(Square::H1), Some((Piece::Rook, Color::White)));
    assert_eq!(board.get_piece_at_square(Square::E4), None);
    assert_eq!(board.occupancy(), board.occupancy[0] | board.occupancy[1]);
    assert_eq!(board.side_to_move, Color::Black);
    assert_eq!(board.castling_rights, 0b1001);
    assert_eq!(board.en_passant, Some(Square::D6));
    assert_eq!(board.halfmove_clock, 17);
    assert_eq!(board.fullmove_number, 42);
}

#[test]
fn a_malformed_position_text_is_refused() {
    for fen in [
        "",
        "rnbqkbnr/pppppppp/8/8/8/8/PPPPPPPP/RNBQKBNR w KQkq - 0",
        "rnbqkbnr/pppppppp/8/8/8/8/PPPPPPPP/RNBQKBNR w KQkq - 0 1 1",
        "rnbqkbnr/pppppppp/8/8/8/8/PPPPPPPP w KQkq - 0 1",
        "rnbqkbnr/pppppppp/9/8/8/8/PPPPPPPP/RNBQKBNR w KQkq - 0 1",
        "rnbqkbnr/pppppppp/7/8/8/8/PPPPPPPP/RNBQKBNR w KQkq - 0 1",
        "rnbqkbnr/ppppxppp/8/8/8/8/PPPPPPPP/RNBQKBNR w KQkq - 0 1",
        "rnbqkbnr/pppppppp/8/8/8/8/PPPPPPPP/RNBQKKNR w KQkq - 0 1",
        "rnbqkbnr/pppppppp/8/8/8/8/PPPPPPPP/RNBQKBNR/8 w KQkq - 0 1",
        "rnbqkbnr/pppppppp/8/8/8/8/PPPPPPPP/RNBQKBNR x KQkq - 0 1",
        "rnbqkbnr/pppppppp/8/8/8/8/PPPPPPPP/RNBQKBNR w KQxq - 0 1",
        "rnbqkbnr/pppppppp/8/8/8/8/PPPPPPPP/RNBQKBNR w KQkq e9 0 1",
        "rnbqkbnr/pppppppp/8/8/8/8/PPPPPPPP/RNBQKBNR w KQkq - x 1",
        "rnbqkbnr/pppppppp/8/8/8/8/PPPPPPPP/RNBQKBNR w KQkq - 0 4294967296",
    ] {
        assert_eq!(
            Board::from_fen(fen).err(),
            Some(ChessError::InvalidPositionEncoding),
            "{}",
            fen
        );
    }
    assert!(
        Board::from_fen("rnbqkbnr/pppppppp/8/8/8/8/PPPPPPPP/RNBQKBNR w - - 0 4294967295").is_ok()
    );
}

#[test]
fn moves_in_notation_are_replayed() {
    let board = Board::from_pgn("e4 e5 Nf3 Nc6 Bc4 Bc5 O-O").unwrap();
    assert_eq!(board.get_piece_at_square(Square::E4), Some((Piece::Pawn, Color::White)));
    assert_eq!(board.get_piece_at_square(Square::E5), Some((Piece::Pawn, Color::Black)));
    assert_eq!(board.get_piece_at_square(Square::F3), Some((Piece::Knight, Color::White)));
    assert_eq!(board.get_piece_at_square(Square::C6), Some((Piece::Knight, Color::Black)));
    assert_eq!(board.get_piece_at_square(Square::C4), Some((Piece::Bishop, Color::White)));
    assert_eq!(board.get_piece_at_square(Square::C5), Some((Piece::Bishop, Color::Black)));
    assert_eq!(board.get_piece_at_square(Square::G1), Some((Piece::King, Color::White)));
    assert_eq!(board.get_piece_at_square(Square::F1), Some((Piece::Rook, Color::White)));
    assert_eq!(board.get_piece_at_square(Square::E1), None);
    assert_eq!(board.get_piece_at_square(Square::H1), None);
    assert_eq!(board.side_to_move, Color::Black);
    assert_eq!(board.castling_rights, 0b1100);
    assert_eq!(board.fullmove_number, 4);
    assert_eq!(board.halfmove_clock, 7);
    assert_eq!(board.history.len(), 7);
    assert_eq!(Board::from_pgn("").unwrap().pieces, Board::new().pieces);
}

#[test]
fn hints_and_capture_marks_are_read() {
    let mut board = Board::from_fen("4k3/8/8/3p4/8/8/8/RN2K1NR w KQ - 0 1").unwrap();
    assert_eq!(
        board.parse_pgn_move("Nbd2", Color::White),
        Ok((Square::B1, Square::D2, None))
    );
    assert_eq!(
        board.parse_pgn_move("Ne2", Color::White),
        Ok((Square::G1, Square::E2, None))
    );
    assert_eq!(
        board.parse_pgn_move("Rxa8", Color::White),
        Ok((Square::A1, Square::A8, None))
    );
    assert_eq!(
        board.parse_pgn_move("R1h4", Color::White),
        Ok((Square::H1, Square::H4, None))
    );
    assert_eq!(board.apply_move_from_pgn("Nb d2"), Err(ChessError::InvalidPositionEncoding));
    assert_eq!(board.apply_move_from_pgn("  "), Err(ChessError::InvalidPositionEncoding));
    board.apply_move_from_pgn(" Nbd2\n").unwrap();
    assert_eq!(board.get_piece_at_square(Square::D2), Some((Piece::Knight, Color::White)));
    board.apply_move_from_pgn("d4").unwrap();
    assert_eq!(board.get_piece_at_square(Square::D4), Some((Piece::Pawn, Color::Black)));
}

#[test]
fn a_pawn_is_promoted_to_the_piece_that_the_text_names() {
    let mut board = Board::from_fen("8/4P3/8/8/8/8/8/k6K w - - 0 1").unwrap();
    assert_eq!(
        board.parse_pgn_move("e8=Q", Color::White),
        Ok((Square::E7, Square::E8, Some(Piece::Queen)))
    );
    board.apply_move_from_pgn("e8=N").unwrap();
    assert_eq!(board.get_piece_at_square(Square::E8), Some((Piece::Knight, Color::White)));
    assert_eq!(board.piece_count(Piece::Pawn, Color::White), 0);
    assert_eq!(board.piece_count(Piece::Queen, Color::White), 0);
    let mut board = Board::from_fen("8/4P3/8/8/8/8/8/k6K w - - 0 1").unwrap();
    board.apply_move_from_pgn("e8=Q").unwrap();
    assert_eq!(board.get_piece_at_square(Square::E8), Some((Piece::Queen, Color::White)));
    board.promote_pawn(Square::E8, Piece::Rook, Color::White);
    assert_eq!(board.get_piece_at_square(Square::E8), Some((Piece::Rook, Color::White)));
    board.promote_pawn(Square::E8, Piece::King, Color::White);
    assert_eq!(board.get_piece_at_square(Square::E8), Some((Piece::Rook, Color::White)));
    board.promote_pawn(Square::E8, Piece::Queen, Color::Black);
    assert_eq!(board.get_piece_at_square(Square::E8), Some((Piece::Rook, Color::White)));
}

#[test]
fn move_texts_that_cannot_be_replayed_fail_and_change_nothing() {
    let mut board = Board::new();
    assert_eq!(board.apply_move_from_pgn("e"), Err(ChessError::InvalidPositionEncoding));
    assert_eq!(board.apply_move_from_pgn("Xf3"), Err(ChessError::InvalidPositionEncoding));
    assert_eq!(board.apply_move_from_pgn("e8=K"), Err(ChessError::InvalidPositionEncoding));
    assert_eq!(board.apply_move_from_pgn("e8="), Err(ChessError::InvalidPositionEncoding));
    assert_eq!(board.apply_move_from_pgn("Nf9"), Err(ChessError::InvalidSquareIndex));
    assert_eq!(board.apply_move_from_pgn("e5"), Err(ChessError::NoPieceAtSquare));
    assert_eq!(board.apply_move_from_pgn("Nd4"), Err(ChessError::NoPieceAtSquare));
    assert_eq!(board.apply_move_from_pgn("O-O"), Err(ChessError::NoPieceAtSquare));
    assert_eq!(board.apply_move_from_pgn("O-O-O"), Err(ChessError::NoPieceAtSquare));
    assert_eq!(board.castle_kingside(), Err(ChessError::NoPieceAtSquare));
    assert_eq!(board.castle_queenside(), Err(ChessError::NoPieceAtSquare));
    assert_eq!(board.pieces, Board::new().pieces);
    assert!(board.history.is_empty());
    assert_eq!(Board::from_pgn("e4 e5 Ke3").err(), Some(ChessError::NoPieceAtSquare));
    assert_eq!(Board::from_pgn("e4 zz").err(), Some(ChessError::InvalidSquareIndex));
}

#[test]
fn castling_on_the_queen_side_takes_the_rook_along() {
    let mut board = Board::from_fen("r3k2r/8/8/8/8/8/8/R3K2R b KQkq - 0 1").unwrap();
    assert_eq!(board.castle_queenside(), Ok(()));
    assert_eq!(board.get_piece_at_square(Square::C8), Some((Piece::King, Color::Black)));
    assert_eq!(board.get_piece_at_square(Square::D8), Some((Piece::Rook, Color::Black)));
    assert_eq!(board.castling_rights, 0b0011);
    assert_eq!(board.castle_kingside(), Ok(()));
    assert_eq!(board.get_piece_at_square(Square::G1), Some((Piece::King, Color::White)));
    assert_eq!(board.get_piece_at_square(Square::F1), Some((Piece::Rook, Color::White)));
    assert_eq!(board.castling_rights, 0);
}

#[test]
fn castling_rights_end_when_king_or_rook_move_or_a_corner_is_taken() {
    let mut board = Board::from_fen("r3k2r/8/8/8/8/8/8/R3K2R w KQkq - 0 1").unwrap();
    board.make_move(Square::H1, Square::H8, Piece::Rook, Color::White);
    assert_eq!(board.castling_rights, 0b1010);
    board.make_move(Square::A8, Square::A1, Piece::Rook, Color::Black);
    assert_eq!(board.castling_rights, 0);
    let mut board = Board::from_fen("r3k2r/8/8/8/8/8/8/R3K2R w KQkq - 0 1").unwrap();
    board.update_castling_rights(Square::E1, Square::E2, Piece::King, Color::White);
    assert_eq!(board.castling_rights, 0b1100);
    board.update_castling_rights(Square::E8, Square::E7, Piece::King, Color::Black);
    assert_eq!(board.castling_rights, 0);
}

#[test]
fn a_pawn_may_capture_onto_the_en_passant_target_only() {
    let board =
        Board::from_fen("rnbqkbnr/ppp1p1pp/8/3pPp2/8/8/PPPP1PPP/RNBQKBNR w KQkq f6 0 3").unwrap();
    assert_eq!(
        board.generate_piece_moves(Piece::Pawn, Square::E5, Color::White),
        vec![Square::E6, Square::F6]
    );
    assert!(board.is_en_passant_target(Square::F6));
    assert!(!board.is_en_passant_target(Square::D6));
    let board =
        Board::from_fen("rnbqkbnr/ppp1p1pp/8/3pPp2/8/8/PPPP1PPP/RNBQKBNR w KQkq - 0 3").unwrap();
    assert_eq!(
        board.generate_piece_moves(Piece::Pawn, Square::E5, Color::White),
        vec![Square::E6]
    );
}

#[test]
fn pawns_are_blocked_capture_diagonally_and_stay_on_the_board() {
    let board = Board::from_fen("4k3/8/8/8/1p1p4/P1P1p3/4P2P/4K3 w - - 0 1").unwrap();
    assert_eq!(
        board.generate_piece_moves(Piece::Pawn, Square::E2, Color::White),
        Vec::<Square>::new()
    );
    assert_eq!(
        board.generate_piece_moves(Piece::Pawn, Square::C3, Color::White),
        vec![Square::C4, Square::B4, Square::D4]
    );
    assert_eq!(
        board.generate_piece_moves(Piece::Pawn, Square::A3, Color::White),
        vec![Square::A4, Square::B4]
    );
    assert_eq!(
        board.generate_piece_moves(Piece::Pawn, Square::H2, Color::White),
        vec![Square::H3, Square::H4]
    );
    assert_eq!(
        board.generate_piece_moves(Piece::Pawn, Square::B4, Color::Black),
        vec![Square::B3, Square::A3, Square::C3]
    );
    assert_eq!(
        board.generate_piece_moves(Piece::Pawn, Square::A8, Color::White),
        Vec::<Square>::new()
    );
}

#[test]
fn knights_and_kings_do_not_wrap_around_the_edge() {
    let board = Board::from_fen("8/8/8/8/8/8/8/8 w - - 0 1").unwrap();
    assert_eq!(
        board.generate_piece_moves(Piece::Knight, Square::A1, Color::White),
        vec![Square::B3, Square::C2]
    );
    assert_eq!(
        board.generate_piece_moves(Piece::Knight, Square::H8, Color::White),
        vec![Square::F7, Square::G6]
    );
    assert_eq!(
        board.generate_piece_moves(Piece::King, Square::H1, Color::White),
        vec![Square::H2, Square::G2, Square::G1]
    );
    assert_eq!(
        board.generate_piece_moves(Piece::King, Square::A8, Color::Black),
        vec![Square::A7, Square::B7, Square::B8]
    );
}

#[test]
fn sliding_pieces_go_up_to_the_first_piece_in_their_way() {
    let board = Board::from_fen("8/8/3p4/8/1P1R2p1/8/3P4/8 w - - 0 1").unwrap();
    assert_eq!(
        board.generate_piece_moves(Piece::Rook, Square::D4, Color::White),
        vec![Square::D3, Square::C4, Square::E4, Square::F4, Square::G4, Square::D5, Square::D6]
    );
    assert_eq!(board.get_rook_attacks(27, board.occupancy()), 0x0000_0808_7608_0800);
    let empty = Board::from_fen("8/8/8/8/8/8/8/8 w - - 0 1").unwrap();
    assert_eq!(empty.get_rook_attacks(0, 0), 0x0101_0101_0101_01FE);
    assert_eq!(empty.get_bishop_attacks(0, 0), 0x8040_2010_0804_0200);
    assert_eq!(empty.get_bishop_attacks(27, 0), 0x8041_2214_0014_2241);
    assert_eq!(
        empty.generate_piece_moves(Piece::Queen, Square::A1, Color::White).len(),
        21
    );
    assert_eq!(
        empty.generate_piece_moves(Piece::Bishop, Square::D4, Color::White).len(),
        13
    );
}

#[test]
fn a_pinned_piece_may_not_leave_its_king_attacked() {
    let board = Board::from_fen("4r1k1/8/8/8/8/8/4N3/4K3 w - - 0 1").unwrap();
    let pseudo = board.generate_pseudo_legal_moves(Color::White);
    let legal = board.generate_legal_moves(Color::White);
    assert!(pseudo.contains(&(Square::E2, Square::C3)));
    assert!(!legal.contains(&(Square::E2, Square::C3)));
    assert!(!board.is_legal_move((Square::E2, Square::C3), Color::White));
    assert!(board.is_legal_move((Square::E1, Square::D1), Color::White));
    assert!(!board.is_legal_move((Square::E1, Square::E3), Color::White));
    assert!(!board.is_legal_move((Square::E8, Square::E7), Color::White));
    assert!(!board.is_legal_move((Square::A1, Square::A2), Color::White));
    assert!(board.is_valid_move(Square::E2, Square::C3, Piece::Knight, Color::White));
    assert!(!board.is_valid_move(Square::E2, Square::E4, Piece::Knight, Color::White));
    assert!(board.leaves_king_safe(Square::E1, Square::D1, Piece::King, Color::White));
    assert!(!board.leaves_king_safe(Square::E2, Square::C3, Piece::Knight, Color::White));
    assert_eq!(legal, vec![
        (Square::E1, Square::D2),
        (Square::E1, Square::D1),
        (Square::E1, Square::F1),
        (Square::E1, Square::F2),
    ]);
}

#[test]
fn captures_are_the_legal_moves_onto_pieces_of_the_opponent() {
    let board = Board::from_fen("4k3/8/8/3q4/4P3/8/8/4K2R w K - 0 1").unwrap();
    assert_eq!(board.generate_captures(Color::White), vec![(Square::E4, Square::D5)]);
    assert_eq!(board.generate_captures(Color::Black), vec![(Square::D5, Square::E4)]);
    assert!(board.is_capture(Square::D5, Color::White));
    assert!(!board.is_capture(Square::D5, Color::Black));
    assert!(!board.is_capture(Square::D4, Color::White));
    assert!(Board::new().generate_captures(Color::White).is_empty());
}

#[test]
fn capturing_a_piece_removes_it_from_the_board() {
    let mut board = Board::new();
    board.capture_piece(Square::D8);
    assert_eq!(board.get_piece_at_square(Square::D8), None);
    assert_eq!(board.piece_count(Piece::Queen, Color::Black), 0);
    assert!(!board.is_occupied(Square::D8));
    board.capture_piece(Square::E4);
    assert_eq!(board.total_piece_count(), 31);
}

#[test]
fn stalemate_is_no_legal_move_without_check() {
    let board = Board::from_fen("k7/8/1Q6/8/8/8/8/7K b - - 0 1").unwrap();
    assert!(GameState::is_stalemate(&board, Color::Black));
    assert!(!GameState::is_checkmate(&board, Color::Black));
    assert!(!GameState::is_in_check(&board, Color::Black));
    assert!(GameState::is_game_over(&board, Color::Black));
    assert!(!GameState::is_game_over(&board, Color::White));
    let kingless = Board::from_fen("8/8/8/8/8/8/8/7K b - - 0 1").unwrap();
    assert!(!GameState::is_in_check(&kingless, Color::Black));
}

#[test]
fn occupancy_is_told_by_side() {
    let board = Board::new();
    assert!(board.is_occupied(Square::E2));
    assert!(board.is_occupied_by_friendly(Square::E2, Color::White));
    assert!(board.is_occupied_by_opponent(Square::E2, Color::Black));
    assert!(!board.is_occupied_by_friendly(Square::E2, Color::Black));
    assert!(!board.is_occupied(Square::E4));
    assert_eq!(board.occupancy(), 0xFFFF_0000_0000_FFFF);
    assert_eq!(board.index_to_piece(3), Piece::Rook);
    assert_eq!(board.get_potential_squares(Piece::Bishop, Color::Black), vec![
        Square::C8,
        Square::F8
    ]);
}

#[test]
fn material_pieces_and_mobility_are_counted() {
    let board = Board::new();
    assert_eq!(board.material_count(), 0);
    assert_eq!(board.total_piece_count(), 32);
    assert_eq!(board.mobility(Color::White), 20);
    assert!(board.is_complex());
    assert!(!board.is_endgame());
    let ending = Board::from_fen("6k1/5ppp/8/8/8/8/8/R6K w - - 0 1").unwrap();
    assert_eq!(ending.material_count(), 200);
    assert_eq!(ending.total_piece_count(), 6);
    assert_eq!(ending.mobility(Color::White), 16);
    assert_eq!(ending.mobility(Color::Black), 8);
    assert!(ending.is_complex());
    assert!(!ending.is_endgame());
    let bare = Board::from_fen("4k3/8/8/8/8/8/3NB3/4K3 w - - 0 1").unwrap();
    assert_eq!(bare.material_count(), 640);
    assert!(bare.is_endgame());
    assert!(!Board::from_fen("4k3/8/8/8/8/8/8/4K3 w - - 0 1").unwrap().is_complex());
}

#[test]
fn the_terms_of_the_evaluation_have_their_values() {
    let board = Board::new();
    let terms = Evaluation::terms(&board);
    assert_eq!(terms.material, 0);
    assert_eq!(terms.psqt, 0);
    assert_eq!(terms.king_safety, -50);
    assert_eq!(terms.pawn_structure, 0);
    assert_eq!(Evaluation::evaluate(&board, Color::White), -50);
    assert_eq!(Evaluation::evaluate(&board, Color::Black), 50);
    assert_eq!(Evaluation::evaluate_material(&board, Color::White), 8 * 100 + 2 * 320 + 2 * 330 + 2 * 500 + 900);
    assert_eq!(Evaluation::evaluate_king_safety(&board, Color::White), -20);
    assert_eq!(Evaluation::evaluate_king_safety(&board, Color::Black), 30);
    assert_eq!(Evaluation::new(), Evaluation::default());
    assert_eq!(Evaluation::new().material, 0);

    // White: pawns a2 (isolated, passed), c2, c3 (doubled), d5; Black: e6.
    let board = Board::from_fen("4k3/8/4p3/3P4/8/2P5/P1P5/4K3 w - - 0 1").unwrap();
    assert_eq!(kishmat::eval::material::evaluate_material(&board), 300);
    // a2: -10 + 50; c2: passed 50; c3: -20 + 50; d5: not passed.
    assert_eq!(Evaluation::evaluate_pawn_structure(&board, Color::White), 120);
    // e6: isolated, not passed.
    assert_eq!(Evaluation::evaluate_pawn_structure(&board, Color::Black), -10);
    assert_eq!(kishmat::eval::pawn_structure::evaluate_pawn_structure(&board), 130);
    // a2 0, c2 -5, c3 10, d5 30 for White; e6 seen from Black is d3: 20.
    assert_eq!(kishmat::eval::psqt::evaluate_psqt(&board), 35 - 20);
    // Kings on e1 and e8 without shields: -50 and 0.
    assert_eq!(kishmat::eval::king_safety::evaluate_king_safety(&board), -50);
    assert_eq!(Evaluation::evaluate(&board, Color::White), 300 + 130 + 15 - 50);
    assert!(kishmat::eval::pawn_structure::is_isolated(&board, Color::White, Square::A2));
    assert!(!kishmat::eval::pawn_structure::is_isolated(&board, Color::White, Square::C2));
    assert!(kishmat::eval::pawn_structure::is_doubled(&board, Color::White, Square::C3));
    assert!(!kishmat::eval::pawn_structure::is_doubled(&board, Color::White, Square::C2));
    assert!(kishmat::eval::pawn_structure::is_passed(&board, Color::White, Square::C3));
    assert!(!kishmat::eval::pawn_structure::is_passed(&board, Color::White, Square::D5));
    assert!(!kishmat::eval::pawn_structure::is_passed(&board, Color::Black, Square::E6));
}

#[test]
fn positions_are_sorted_into_kinds() {
    assert_eq!(determine_position_type(&Board::new(), Color::White), PositionType::Endgame);
    let ending = Board::from_fen("6k1/5ppp/8/8/8/8/8/R6K w - - 0 1").unwrap();
    assert_eq!(determine_position_type(&ending, Color::White), PositionType::Complex);
    let closed = Board::from_fen("4k3/pppppp2/8/8/8/8/PPPPPPPP/2B1K3 w - - 0 1").unwrap();
    assert_eq!(determine_position_type(&closed, Color::White), PositionType::Closed);
    let semi = Board::from_fen("4k3/pppp4/8/8/8/8/PPPP4/Q3K3 w - - 0 1").unwrap();
    assert_eq!(determine_position_type(&semi, Color::White), PositionType::SemiClosed);
    let bare = Board::from_fen("k7/8/8/8/8/8/8/KN6 w - - 0 1").unwrap();
    assert_eq!(determine_position_type(&bare, Color::White), PositionType::Trivial);
    let queen = Board::from_fen("k7/8/8/8/8/8/8/KQ6 w - - 0 1").unwrap();
    assert_eq!(determine_position_type(&queen, Color::Black), PositionType::Complex);

    assert_eq!(choose_search_strategy(PositionType::Open), SearchStrategy::IterativeDeepening);
    assert_eq!(choose_search_strategy(PositionType::SemiOpen), SearchStrategy::IterativeDeepening);
    assert_eq!(choose_search_strategy(PositionType::Complex), SearchStrategy::IterativeDeepening);
    assert_eq!(choose_search_strategy(PositionType::Closed), SearchStrategy::LateMoveReductions);
    assert_eq!(
        choose_search_strategy(PositionType::SemiClosed),
        SearchStrategy::LateMoveReductions
    );
    assert_eq!(choose_search_strategy(PositionType::Endgame), SearchStrategy::Negamax);
    assert_eq!(choose_search_strategy(PositionType::Trivial), SearchStrategy::Negamax);
    assert_eq!(choose_evaluation_strategy(PositionType::Endgame), EvaluationStrategy::Endgame);
    assert_eq!(choose_evaluation_strategy(PositionType::Complex), EvaluationStrategy::Complex);
    assert_eq!(choose_evaluation_strategy(PositionType::Open), EvaluationStrategy::General);
}

#[test]
fn a_search_without_a_legal_move_fails() {
    let mut board = Board::from_fen("k7/8/1Q6/8/8/8/8/7K b - - 0 1").unwrap();
    let mut engine = Arbiter::new();
    assert_eq!(
        engine.search_best_move(&mut board, 2, Color::Black),
        Err(ChessError::NoLegalMove)
    );
    let mut table = kishmat::TranspositionTable::new();
    assert_eq!(
        kishmat::Search::best_move(&mut board, 2, Color::Black, &mut table),
        Err(ChessError::NoLegalMove)
    );
    assert_eq!(
        kishmat::Search::iterative_deepening(&mut board, 2, Color::Black, &mut table),
        Err(ChessError::NoLegalMove)
    );
    assert_eq!(
        kishmat::arbiter::strategy::lmr_strategy(&mut board, 2, Color::Black, &mut table),
        Err(ChessError::NoLegalMove)
    );
    assert_eq!(
        kishmat::Search::negamax(&mut board, 3, -10, 10, Color::Black, &mut table),
        (0, None)
    );
    // A queen up; the kings on h1 and a8 are worth -30 and 20.
    assert_eq!(engine.evaluate_position(&board, Color::White), 900 - 30 - 20);
    let mut adaptive = kishmat::AdaptiveEngine::new();
    assert_eq!(adaptive.evaluate_position(&board), -(900 - 30 - 20));
    assert_eq!(
        adaptive.search_best_move(&mut board, 1, Color::Black),
        Err(ChessError::NoLegalMove)
    );
}

#[test]
fn the_search_files_the_position_in_the_cache_and_restores_the_board() {
    let fen = "4k3/8/8/3q4/4P3/8/8/4K2R w K - 0 1";
    let mut board = Board::from_fen(fen).unwrap();
    let mut table = kishmat::TranspositionTable::new();
    let key = board.compute_zobrist_hash(&table.zobrist);
    let (shallow, taken) =
        kishmat::Search::negamax(&mut board, 1, i32::MIN, i32::MAX, Color::White, &mut table);
    assert_eq!(taken, Some((Square::E4, Square::D5)));
    assert!(shallow > 500);
    let (score, best) =
        kishmat::Search::negamax(&mut board, 2, i32::MIN, i32::MAX, Color::White, &mut table);
    assert!(board.is_legal_move(best.unwrap(), Color::White));
    let entry = table.get(key).unwrap();
    assert_eq!((entry.depth, entry.score, entry.best_move), (2, score, best));
    let start = Board::from_fen(fen).unwrap();
    assert_eq!(board.pieces, start.pieces);
    assert_eq!(board.side_to_move, start.side_to_move);
    assert!(board.history.is_empty());
}

#[test]
fn quiescence_takes_what_hangs_and_stands_pat_otherwise() {
    let mut board = Board::from_fen("4k3/8/8/3q4/4P3/8/8/4K2R w K - 0 1").unwrap();
    let stand_pat = Evaluation::evaluate(&board, Color::White);
    let quiet = kishmat::Search::quiescence_search(&mut board, i32::MIN, i32::MAX, Color::White);
    assert!(quiet > stand_pat + 800);
    assert_eq!(
        kishmat::Search::quiescence_search(&mut board, i32::MIN, stand_pat - 1, Color::White),
        stand_pat - 1
    );
    assert_eq!(
        kishmat::Search::quiescence_within(&mut board, i32::MIN, i32::MAX, Color::White, 0),
        stand_pat
    );
    let mut start = Board::new();
    assert_eq!(
        kishmat::Search::quiescence_search(&mut start, i32::MIN, i32::MAX, Color::White),
        -50
    );
}

#[test]
fn null_move_pruning_and_late_move_reductions_agree_with_the_plain_search_when_shallow() {
    let fen = "4k3/8/8/3q4/4P3/8/8/4K2R w K - 0 1";
    let mut board = Board::from_fen(fen).unwrap();
    let mut table = kishmat::TranspositionTable::new();
    let plain = kishmat::Search::negamax(&mut board, 1, -5000, 5000, Color::White, &mut table).0;
    assert_eq!(
        kishmat::Search::null_move_pruning(&mut board, 1, -5000, 5000, Color::White, &mut table),
        plain
    );
    assert_eq!(
        kishmat::search::lmr::late_move_reductions(
            &mut board,
            1,
            -5000,
            5000,
            Color::White,
            &mut table
        ),
        plain
    );
    // With a window that the position beats even after passing, the upper
    // bound comes back.
    assert_eq!(
        kishmat::Search::null_move_pruning(&mut board, 3, -5000, -4000, Color::White, &mut table),
        -4000
    );
    assert!(board.history.is_empty());
    // With four legal moves no move is late, and nothing is reduced.
    let mut pinned = Board::from_fen("4r1k1/8/8/8/8/8/4N3/4K3 w - - 0 1").unwrap();
    let deep = kishmat::search::lmr::late_move_reductions(
        &mut pinned,
        2,
        i32::MIN,
        i32::MAX,
        Color::White,
        &mut table,
    );
    assert_eq!(
        deep,
        kishmat::Search::negamax(&mut pinned, 2, i32::MIN, i32::MAX, Color::White, &mut table).0
    );
    assert!(pinned.history.is_empty());
}

#[test]
fn typed_squares_and_moves_are_read() {
    assert_eq!(parse_square("a1"), Some(Square::A1));
    assert_eq!(parse_square("h8"), Some(Square::H8));
    assert_eq!(parse_square("e4"), Some(Square::E4));
    assert_eq!(parse_square("E4"), None);
    assert_eq!(parse_square("i1"), None);
    assert_eq!(parse_square("a9"), None);
    assert_eq!(parse_square("a"), None);
    assert_eq!(parse_square("a1 "), None);
    assert_eq!(parse_move("e2e4"), Some((Square::E2, Square::E4)));
    assert_eq!(parse_move("E2-E4"), Some((Square::E2, Square::E4)));
    assert_eq!(parse_move(" g1 f3 "), Some((Square::G1, Square::F3)));
    assert_eq!(parse_move("e2e9"), None);
    assert_eq!(parse_move("e2"), None);
    assert_eq!(parse_move("e2e4e5"), None);
    assert_eq!(parse_move(""), None);
}

#[test]
fn the_player_plays_the_side_asked_for() {
    assert_eq!(player_color("w", false), Color::White);
    assert_eq!(player_color("b", true), Color::Black);
    assert_eq!(player_color("r", true), Color::White);
    assert_eq!(player_color("r", false), Color::Black);
    assert_eq!(player_color("x", false), Color::White);
    assert_eq!(player_color("", false), Color::White);
    assert_eq!(player_color("bb", false), Color::White);
}

#[test]
fn the_turn_of_the_player_applies_legal_moves_only() {
    let mut board = Board::new();
    assert_eq!(player_turn(&mut board, "e2e5", Color::White), PlayerTurn::Illegal);
    assert_eq!(player_turn(&mut board, "e7e5", Color::White), PlayerTurn::Illegal);
    assert_eq!(player_turn(&mut board, "hello", Color::White), PlayerTurn::Unreadable);
    assert!(board.history.is_empty());
    assert_eq!(player_turn(&mut board, "e2e4", Color::White), PlayerTurn::Applied);
    assert_eq!(board.get_piece_at_square(Square::E4), Some((Piece::Pawn, Color::White)));
    assert_eq!(board.side_to_move, Color::Black);
    assert_eq!(board.en_passant, Some(Square::E3));
    assert_eq!(board.apply_move((Square::E4, Square::E5), Color::Black), Err(ChessError::NoPieceAtSquare));
    assert_eq!(board.apply_move((Square::E5, Square::E6), Color::Black), Err(ChessError::NoPieceAtSquare));
    assert_eq!(board.apply_move((Square::E7, Square::E5), Color::Black), Ok(()));
    assert_eq!(board.side_to_move, Color::White);
}

fn book_bytes() -> Vec<u8> {
    let key = Board::new().compute_zobrist_hash(&Zobrist::new());
    let mut bytes = Vec::new();
    // e2e4 with a low weight, then d2d4 with a high one, then a line for
    // another position.
    for (key, book_move, tail) in [
        (key, (12u16 << 6) | 28, *b"\x00\x05KING  "),
        (key, (11u16 << 6) | 27, *b"\x00\x09QUEEN "),
        (key ^ 1, (6u16 << 6) | 21, *b"\x00\x01RETI  "),
    ] {
        bytes.extend_from_slice(&key.to_be_bytes());
        bytes.extend_from_slice(&book_move.to_be_bytes());
        bytes.extend_from_slice(&tail[0..6]);
    }
    bytes
}

#[test]
fn the_book_gives_the_first_line_for_a_position() {
    let key = Board::new().compute_zobrist_hash(&Zobrist::new());
    let book = OpeningBook::from_bytes(&book_bytes()).unwrap();
    assert_eq!(book.lines.len(), 3);
    assert_eq!(book.get_move(key), Some(((12u16 << 6) | 28, "\u{0}\u{5}KING".to_string())));
    assert_eq!(book.get_opening_name(key), Some("\u{0}\u{5}KING".to_string()));
    assert_eq!(book.get_opening_name(key ^ 1), Some("\u{0}\u{1}RETI".to_string()));
    assert_eq!(book.get_move(key ^ 2), None);
    assert_eq!(book.get_opening_name(key ^ 2), None);
    assert!(OpeningBook::empty().get_move(key).is_none());
    let lossy = OpeningBook::from_bytes(&[0, 0, 0, 0, 0, 0, 0, 9, 0, 1, 0xFF, b'a', b'b', b'c', b'd', b'e']).unwrap();
    assert_eq!(lossy.get_opening_name(9), Some("\u{FFFD}abcde".to_string()));
}

#[test]
fn the_records_of_a_book_are_ranked_by_weight() {
    let key = Board::new().compute_zobrist_hash(&Zobrist::new());
    let entries = decode_book(&book_bytes()).unwrap();
    assert_eq!(entries.len(), 3);
    assert_eq!(entries[0].weight, 5);
    assert_eq!(entries[1].weight, 9);
    assert_eq!(entries[1].learn, u32::from_be_bytes(*b"QUEE"));
    let best = find_polyglot_move(&entries, key).unwrap();
    assert_eq!(best.move_, (11u16 << 6) | 27);
    assert_eq!(find_polyglot_move(&entries, key ^ 1).unwrap().weight, 1);
    assert_eq!(find_polyglot_move(&entries, key ^ 2), None);
    assert_eq!(find_polyglot_move(&[], key), None);
}

#[test]
fn a_book_that_ends_inside_a_record_is_refused() {
    let mut bytes = book_bytes();
    bytes.pop();
    assert_eq!(OpeningBook::from_bytes(&bytes).err(), Some(ChessError::BookLoadFailure));
    assert_eq!(decode_book(&bytes).err(), Some(ChessError::BookLoadFailure));
    assert_eq!(decode_book(&[]).unwrap().len(), 0);
    assert_eq!(OpeningBook::from_bytes(&[]).unwrap().lines.len(), 0);
}

#[test]
fn the_engine_answers_from_the_book_in_the_opening_and_searches_after_it() {
    let book = OpeningBook::from_bytes(&book_bytes()).unwrap();
    let mut engine = Arbiter::new();
    let mut board = Board::new();
    assert_eq!(
        engine_turn(&mut engine, &mut board, 1, Color::White, &book, true),
        (Ok((Square::E2, Square::E4)), MoveSource::Book)
    );
    let (answer, source) = engine_turn(&mut engine, &mut board, 1, Color::White, &book, false);
    assert_eq!(source, MoveSource::Search);
    assert!(board.is_legal_move(answer.unwrap(), Color::White));
    let mut ending = Board::from_fen("6k1/5ppp/8/8/8/8/8/R6K w - - 0 1").unwrap();
    assert_eq!(
        engine_turn(&mut engine, &mut ending, 1, Color::White, &book, true),
        (Ok((Square::A1, Square::A8)), MoveSource::Search)
    );
}

#[test]
fn a_board_tells_whether_it_meets_its_invariant() {
    let mut board = Board::new();
    assert!(board.is_valid());
    board.make_move(Square::E2, Square::E4, Piece::Pawn, Color::White);
    assert!(board.is_valid());
    // Occupancy out of step with the pieces.
    board.pieces[0] = 0;
    assert!(!board.is_valid());
    board.update_occupancy();
    assert!(board.is_valid());
    // Two pieces on one square.
    board.pieces[0] = 1;
    board.update_occupancy();
    assert!(!board.is_valid());
    board.pieces[0] = 0;
    // Two kings of one side.
    board.pieces[5] = 0x11;
    board.pieces[3] = 0x80;
    board.update_occupancy();
    assert!(!board.is_valid());
    board.pieces[5] = 0x10;
    board.pieces[3] = 0x81;
    board.update_occupancy();
    assert!(board.is_valid());
    board.castling_rights = 16;
    assert!(!board.is_valid());
    board.castling_rights = 15;
    // A record of the history that does not meet the invariant.
    board.history[0].castling_rights = 99;
    assert!(!board.is_valid());
    assert!(Arbiter::new().is_valid());
    assert!(kishmat::AdaptiveEngine::new().is_valid());
    let mut zobrist = Zobrist::new();
    assert!(zobrist.is_valid());
    zobrist.castling_keys.pop();
    assert!(!zobrist.is_valid());
}

#[test]
fn the_default_board_is_the_starting_position() {
    let board = Board::default();
    assert_eq!(board.pieces, Board::new().pieces);
    assert_eq!(board.side_to_move, Color::White);
    assert_eq!(board.castling_rights, 0b1111);
    assert_eq!(board.fullmove_number, 1);
    assert!(board.is_valid());
}

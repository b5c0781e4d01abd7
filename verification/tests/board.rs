use kishmat::{is_bit_set, Board, Color, Piece, Square};

#[test]
fn test_make_and_unmake_move() {
    let mut board = Board::new();
    let from = Square::E2;
    let to = Square::E4;
    let piece = Piece::Pawn;
    let color = Color::White;

    board.make_move(from, to, piece, color);

    assert_eq!(board.get_piece_at_square(to), Some((piece, color)));
    assert_eq!(board.get_piece_at_square(from), None);

    board.unmake_move(from, to, piece, color);

    assert_eq!(board.get_piece_at_square(from), Some((piece, color)));
    assert_eq!(board.get_piece_at_square(to), None);
}

#[test]
fn test_null_move() {
    let mut board = Board::new();
    let initial_side = board.side_to_move;

    board.do_null_move();
    assert_ne!(board.side_to_move, initial_side);

    board.undo_null_move();
    assert_eq!(board.side_to_move, initial_side);
}

#[test]
fn test_get_piece_at_square() {
    let mut board = Board::new();
    let square = Square::E2;
    let piece = Piece::Pawn;
    let color = Color::White;

    board.make_move(square, Square::E4, piece, color);

    assert_eq!(board.get_piece_at_square(Square::E4), Some((piece, color)));
    assert_eq!(board.get_piece_at_square(Square::E2), None);
}

#[test]
fn test_update_occupancy() {
    let mut board = Board::new();
    let from = Square::E2;
    let to = Square::E4;
    let piece = Piece::Pawn;
    let color = Color::White;

    board.make_move(from, to, piece, color);
    board.update_occupancy();

    assert!(is_bit_set(board.occupancy[0], to.to_index()));
    assert!(!is_bit_set(board.occupancy[0], from.to_index()));
}

#[test]
fn test_generate_legal_moves() {
    let board = Board::new();
    let moves = board.generate_legal_moves(Color::White);

    // Sixteen pawn moves and four knight moves.
    assert_eq!(moves.len(), 20);
}

#[test]
fn test_piece_indexing() {
    let board = Board::new();

    assert_eq!(board.get_piece_index(Piece::Pawn, Color::White), 0);
    assert_eq!(board.get_piece_index(Piece::Pawn, Color::Black), 6);
    assert_eq!(board.get_piece_index(Piece::Queen, Color::White), 4);
    assert_eq!(board.get_piece_index(Piece::King, Color::Black), 11);
}

#[test]
fn test_piece_count_initial_position() {
    let board = Board::new();

    assert_eq!(board.piece_count(Piece::Pawn, Color::White), 8);
    assert_eq!(board.piece_count(Piece::Pawn, Color::Black), 8);

    assert_eq!(board.piece_count(Piece::Rook, Color::White), 2);
    assert_eq!(board.piece_count(Piece::Rook, Color::Black), 2);

    assert_eq!(board.piece_count(Piece::Knight, Color::White), 2);
    assert_eq!(board.piece_count(Piece::Knight, Color::Black), 2);

    assert_eq!(board.piece_count(Piece::Bishop, Color::White), 2);
    assert_eq!(board.piece_count(Piece::Bishop, Color::Black), 2);

    assert_eq!(board.piece_count(Piece::Queen, Color::White), 1);
    assert_eq!(board.piece_count(Piece::Queen, Color::Black), 1);

    assert_eq!(board.piece_count(Piece::King, Color::White), 1);
    assert_eq!(board.piece_count(Piece::King, Color::Black), 1);
}

#[test]
fn test_piece_count_after_moves() {
    let mut board = Board::new();

    // Simulate some moves
    board.make_move(Square::E2, Square::E4, Piece::Pawn, Color::White);
    board.make_move(Square::E7, Square::E5, Piece::Pawn, Color::Black);
    board.make_move(Square::D2, Square::D4, Piece::Pawn, Color::White);

    // A move that takes nothing leaves the counts as they were.
    assert_eq!(board.piece_count(Piece::Pawn, Color::White), 8);
    assert_eq!(board.piece_count(Piece::Pawn, Color::Black), 8);

    // Test after capturing a pawn
    board.make_move(Square::E4, Square::E5, Piece::Pawn, Color::White);

    assert_eq!(board.piece_count(Piece::Pawn, Color::White), 8);
    assert_eq!(board.piece_count(Piece::Pawn, Color::Black), 7);
}

#[test]
fn test_piece_count_empty_board() {
    let mut board = Board::new();

    // Manually clear the board (for testing purposes only)
    for i in 0..12 {
        board.pieces[i] = 0;
    }
    board.update_occupancy();

    for piece in [
        Piece::Pawn,
        Piece::Knight,
        Piece::Bishop,
        Piece::Rook,
        Piece::Queen,
        Piece::King,
    ] {
        assert_eq!(board.piece_count(piece, Color::White), 0);
        assert_eq!(board.piece_count(piece, Color::Black), 0);
    }
}

#[test]
fn test_pawn_shield() {
    let board = Board::new();

    // Test the initial pawn shield in front of the White king
    let king_square = board.king_square(Color::White);
    let shield = board.pawn_shield(Color::White, king_square);
    let expected_shield = (1 << Square::F2.to_index())
        | (1 << Square::E2.to_index())
        | (1 << Square::D2.to_index());
    assert_eq!(shield, expected_shield);

    // Test the initial pawn shield in front of the Black king
    let king_square = board.king_square(Color::Black);
    let shield = board.pawn_shield(Color::Black, king_square);
    let expected_shield = (1 << Square::F7.to_index())
        | (1 << Square::E7.to_index())
        | (1 << Square::D7.to_index());
    assert_eq!(shield, expected_shield);

    // Move the White king to G1 and a pawn to G2, then check the shield
    let mut board = Board::new();
    board.make_move(Square::E1, Square::G1, Piece::King, Color::White);
    board.make_move(Square::H2, Square::G2, Piece::Pawn, Color::White);
    let shield = board.pawn_shield(Color::White, Square::G1);
    let expected_shield = (1 << Square::G2.to_index()) | (1 << Square::F2.to_index());
    assert_eq!(shield, expected_shield);
}

#[test]
fn test_king_square() {
    let board = Board::new();

    assert_eq!(board.king_square(Color::White), Square::E1);
    assert_eq!(board.king_square(Color::Black), Square::E8);

    // Move the white king to D2
    let mut board = Board::new();
    board.make_move(Square::E1, Square::D2, Piece::King, Color::White);
    assert_eq!(board.king_square(Color::White), Square::D2);
}

#[test]
fn test_pawns_initial_position() {
    let board = Board::new();

    // White pawns in the initial position (row 2)
    let expected_white_pawns = 0x0000_0000_0000_FF00;
    assert_eq!(board.pawns(Color::White), expected_white_pawns);

    // Black pawns in the initial position (row 7)
    let expected_black_pawns = 0x00FF_0000_0000_0000;
    assert_eq!(board.pawns(Color::Black), expected_black_pawns);
}

#[test]
fn test_pawns_after_move() {
    let mut board = Board::new();

    // Move white pawn from E2 to E4: bit 12 goes, bit 28 comes
    board.make_move(Square::E2, Square::E4, Piece::Pawn, Color::White);
    let expected_white_pawns = 0x0000_0000_0000_EF00 | 0x0000_0000_1000_0000;
    assert_eq!(board.pawns(Color::White), expected_white_pawns);

    // Move black pawn from E7 to E5: bit 52 goes, bit 36 comes
    board.make_move(Square::E7, Square::E5, Piece::Pawn, Color::Black);
    let expected_black_pawns = 0x00EF_0000_0000_0000 | 0x0000_0010_0000_0000;
    assert_eq!(board.pawns(Color::Black), expected_black_pawns);
}

#[test]
fn test_pawns_empty_board() {
    let mut board = Board::new();

    // Manually clear all pawns from the board
    board.pieces[board.get_piece_index(Piece::Pawn, Color::White)] = 0;
    board.pieces[board.get_piece_index(Piece::Pawn, Color::Black)] = 0;

    assert_eq!(board.pawns(Color::White), 0);
    assert_eq!(board.pawns(Color::Black), 0);
}

#[test]
fn test_piece_squares_initial_position() {
    let board = Board::new();

    // White rooks in the initial position (A1, H1)
    let white_rooks = board.piece_squares(Piece::Rook, Color::White);
    let expected_white_rooks = vec![Square::A1, Square::H1];
    assert_eq!(white_rooks, expected_white_rooks);

    // Black knights in the initial position (B8, G8)
    let black_knights = board.piece_squares(Piece::Knight, Color::Black);
    let expected_black_knights = vec![Square::B8, Square::G8];
    assert_eq!(black_knights, expected_black_knights);
}

#[test]
fn test_piece_squares_after_moves() {
    let mut board = Board::new();

    // Move white rook from A1 to A4
    board.make_move(Square::A1, Square::A4, Piece::Rook, Color::White);
    let white_rooks = board.piece_squares(Piece::Rook, Color::White);
    let expected_white_rooks = vec![Square::A4, Square::H1];
    assert_eq!(white_rooks, expected_white_rooks);

    // Move black knight from B8 to C6
    board.make_move(Square::B8, Square::C6, Piece::Knight, Color::Black);
    let black_knights = board.piece_squares(Piece::Knight, Color::Black);
    let expected_black_knights = vec![Square::C6, Square::G8];
    assert_eq!(black_knights, expected_black_knights);
}

#[test]
fn test_piece_squares_empty_board() {
    let mut board = Board::new();

    // Manually clear all pieces from the board
    for i in 0..12 {
        board.pieces[i] = 0;
    }
    board.update_occupancy();

    let white_pawns = board.piece_squares(Piece::Pawn, Color::White);
    let black_pawns = board.piece_squares(Piece::Pawn, Color::Black);

    assert!(white_pawns.is_empty());
    assert!(black_pawns.is_empty());
}

#[test]
fn test_generate_pawn_moves() {
    let board = Board::new();

    // Test white pawns from initial position
    let moves = board.generate_piece_moves(Piece::Pawn, Square::E2, Color::White);
    let expected_moves = vec![Square::E3, Square::E4];
    assert_eq!(moves, expected_moves);

    // Test black pawns from initial position
    let moves = board.generate_piece_moves(Piece::Pawn, Square::E7, Color::Black);
    let expected_moves = vec![Square::E6, Square::E5];
    assert_eq!(moves, expected_moves);
}

#[test]
fn test_generate_knight_moves() {
    let board = Board::new();

    // Test white knight from initial position
    let moves = board.generate_piece_moves(Piece::Knight, Square::G1, Color::White);
    let expected_moves = vec![Square::F3, Square::H3];
    assert_eq!(moves, expected_moves);

    // Test knight in the center of the board: D2 and F2 hold White's own
    // pawns and are no targets
    let moves = board.generate_piece_moves(Piece::Knight, Square::E4, Color::White);
    let expected_moves = vec![
        Square::D6,
        Square::F6,
        Square::C5,
        Square::G5,
        Square::C3,
        Square::G3,
    ];
    assert_eq!(moves, expected_moves);
}

#[test]
fn test_generate_bishop_moves() {
    let board = Board::new();
    // A bishop on D4 of the starting position: the diagonals up to and
    // including Black's pawns, and down to White's own.
    let moves = board.generate_piece_moves(Piece::Bishop, Square::D4, Color::White);
    let expected_moves = vec![
        Square::C3,
        Square::E3,
        Square::C5,
        Square::E5,
        Square::B6,
        Square::F6,
        Square::A7,
        Square::G7,
    ];
    assert_eq!(moves, expected_moves);
}

#[test]
fn test_generate_rook_moves() {
    let board = Board::new();
    // The rook on A1 is shut in by its own pieces.
    let moves = board.generate_piece_moves(Piece::Rook, Square::A1, Color::White);
    let expected_moves = vec![];
    assert_eq!(moves, expected_moves);
}

#[test]
fn test_generate_queen_moves() {
    let board = Board::new();
    // The queen on D1 is shut in by its own pieces.
    let moves = board.generate_piece_moves(Piece::Queen, Square::D1, Color::White);
    let expected_moves = vec![];
    assert_eq!(moves, expected_moves);
}

#[test]
fn test_generate_king_moves() {
    let board = Board::new();

    // Test king in the center of the board
    let moves = board.generate_piece_moves(Piece::King, Square::E4, Color::White);
    let expected_moves = vec![
        Square::E5,
        Square::D5,
        Square::D4,
        Square::D3,
        Square::E3,
        Square::F3,
        Square::F4,
        Square::F5,
    ];
    assert_eq!(moves, expected_moves);
}

use chess_engine::board::OFF_BOARD;
use chess_engine::error::ChessError;
use chess_engine::game_logic::classify;
use chess_engine::game_logic::is_move_legal;
use chess_engine::game_logic::PieceType;

/// A board with every piece off the board.
fn empty_board() -> [u8; 32] {
    [OFF_BOARD; 32]
}

#[test]
fn rook_clear_rank_is_legal() {
    let mut board = empty_board();
    board[0] = 0; // white rook on a1
    assert_eq!(is_move_legal(0, 0, 7, &board), Ok(true));
}

#[test]
fn rook_blocked_rank_is_illegal() {
    let mut board = empty_board();
    board[0] = 0; // white rook on a1
    board[16] = 3; // enemy piece on d1, strictly between
    assert_eq!(is_move_legal(0, 0, 7, &board), Ok(false));
}

#[test]
fn rook_captures_enemy_on_destination() {
    let mut board = empty_board();
    board[0] = 0; // white rook on a1
    board[16] = 3; // enemy piece on d1, the destination
    assert_eq!(is_move_legal(0, 0, 3, &board), Ok(true));
}

#[test]
fn rook_cannot_land_on_friend() {
    let mut board = empty_board();
    board[0] = 0; // white rook on a1
    board[8] = 3; // friendly pawn on d1, the destination
    assert_eq!(is_move_legal(0, 0, 3, &board), Ok(false));
}

#[test]
fn pawn_double_step_needs_both_squares_empty() {
    let mut board = empty_board();
    board[8] = 8; // white pawn on a2
    assert_eq!(is_move_legal(8, 8, 24, &board), Ok(true));

    board[20] = 16; // any piece on a3, the square in between
    assert_eq!(is_move_legal(8, 8, 24, &board), Ok(false));

    board[20] = 24; // any piece on the destination itself instead
    assert_eq!(is_move_legal(8, 8, 24, &board), Ok(false));
}

#[test]
fn pawn_diagonal_only_as_capture() {
    let mut board = empty_board();
    board[8] = 8; // white pawn on a2
    assert_eq!(is_move_legal(8, 8, 17, &board), Ok(false)); // b3 empty

    board[16] = 17; // enemy piece on b3
    assert_eq!(is_move_legal(8, 8, 17, &board), Ok(true)); // now a capture
}

#[test]
fn knight_jumps_over_pieces() {
    let mut board = empty_board();
    board[1] = 1; // white knight on b1
    board[9] = 8; // friendly pieces on the squares a knight would
    board[10] = 9; // "pass over" — they must not matter
    assert_eq!(is_move_legal(1, 1, 16, &board), Ok(true));

    board[2] = 16; // friendly piece on the destination a3
    assert_eq!(is_move_legal(1, 1, 16, &board), Ok(false));
}

#[test]
fn same_square_is_no_movement() {
    let mut board = empty_board();
    board[4] = 12;
    assert_eq!(is_move_legal(12, 4, 12, &board), Err(ChessError::NoMovement));
}

#[test]
fn unknown_identity_is_invalid_piece() {
    let board = empty_board();
    assert_eq!(is_move_legal(0, 32, 1, &board), Err(ChessError::InvalidPiece));
    assert_eq!(is_move_legal(0, 100, 1, &board), Err(ChessError::InvalidPiece));
    assert_eq!(is_move_legal(0, 255, 1, &board), Err(ChessError::InvalidPiece));
    // Invalid identity is reported even when the move is also a null move
    assert_eq!(is_move_legal(5, 40, 5, &board), Err(ChessError::InvalidPiece));
}

#[test]
fn classify_matches_the_rule_table() {
    for i in [0u8, 7, 24, 31] {
        assert_eq!(classify(i), Ok(PieceType::Rook));
    }
    for i in [1u8, 6, 25, 30] {
        assert_eq!(classify(i), Ok(PieceType::Knight));
    }
    for i in [2u8, 5, 26, 29] {
        assert_eq!(classify(i), Ok(PieceType::Bishop));
    }
    for i in [3u8, 27] {
        assert_eq!(classify(i), Ok(PieceType::Queen));
    }
    for i in [4u8, 28] {
        assert_eq!(classify(i), Ok(PieceType::King));
    }
    for i in 8u8..=23 {
        assert_eq!(classify(i), Ok(PieceType::Pawn));
    }
}

#[test]
fn classify_rejects_identities_out_of_range() {
    for i in 32u8..=255 {
        assert_eq!(classify(i), Err(ChessError::InvalidPiece));
    }
}

#[test]
fn classification_partitions_the_identity_space() {
    // Every identity in [0, 32) classifies, and lands in exactly one
    // type's indices list.
    let types = [
        PieceType::Rook,
        PieceType::Knight,
        PieceType::Bishop,
        PieceType::Queen,
        PieceType::King,
        PieceType::Pawn,
    ];
    for i in 0u8..32 {
        let t = classify(i).unwrap();
        let mut hits = 0;
        for ty in types {
            if ty.indices().contains(&i) {
                hits += 1;
                assert_eq!(t, ty);
            }
        }
        assert_eq!(hits, 1);
    }
}

#[test]
fn dispatch_reaches_every_piece_type() {
    let mut board = empty_board();
    board[0] = 0; // white rook on a1
    board[1] = 1; // white knight on b1
    board[2] = 2; // white bishop on c1
    board[3] = 3; // white queen on d1
    board[4] = 4; // white king on e1
    board[8] = 17; // white pawn on b3
    board[16] = 48; // black pawn on a7

    assert_eq!(is_move_legal(0, 0, 32, &board), Ok(true)); // rook a1 -> a5
    assert_eq!(is_move_legal(1, 1, 18, &board), Ok(true)); // knight b1 -> c3
    assert_eq!(is_move_legal(2, 2, 20, &board), Ok(true)); // bishop c1 -> e3
    assert_eq!(is_move_legal(3, 3, 27, &board), Ok(true)); // queen d1 -> d4
    assert_eq!(is_move_legal(4, 4, 12, &board), Ok(true)); // king e1 -> e2
    assert_eq!(is_move_legal(17, 8, 25, &board), Ok(true)); // pawn b3 -> b4
    // The second side's pawns move down the board
    assert_eq!(is_move_legal(48, 16, 40, &board), Ok(true)); // pawn a7 -> a6
    assert_eq!(is_move_legal(48, 16, 56, &board), Ok(false)); // pawn a7 -> a8

    // And the wrong shape fails for each type
    assert_eq!(is_move_legal(0, 0, 9, &board), Ok(false)); // rook diagonally
    assert_eq!(is_move_legal(1, 1, 3, &board), Ok(false)); // knight two right
    assert_eq!(is_move_legal(2, 2, 5, &board), Ok(false)); // bishop along the rank
    assert_eq!(is_move_legal(3, 3, 13, &board), Ok(false)); // queen like a knight
    assert_eq!(is_move_legal(4, 4, 20, &board), Ok(false)); // king two forward
}

#[test]
fn indices_lists_each_range() {
    assert_eq!(PieceType::Rook.indices(), vec![0, 7, 24, 31]);
    assert_eq!(PieceType::Knight.indices(), vec![1, 6, 25, 30]);
    assert_eq!(PieceType::Bishop.indices(), vec![2, 5, 26, 29]);
    assert_eq!(PieceType::Queen.indices(), vec![3, 27]);
    assert_eq!(PieceType::King.indices(), vec![4, 28]);
    let pawns: Vec<u8> = (8..=23).collect();
    assert_eq!(PieceType::Pawn.indices(), pawns);
}

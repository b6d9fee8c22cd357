use chess_core::Piece;
use chess_core::PieceType;
use chess_core::Player;
use chess_core::Position;
use chess_core::is_move_valid;

fn board_with(kind: PieceType, position: Position) -> Vec<Piece> {
    vec![Piece {
        piece_type: kind,
        position,
        side: Player::White,
    }]
}

#[test]
fn king_moves_one_square_any_direction() {
    let from = Position { x: 4, y: 4 };
    let board = board_with(PieceType::King, from);
    assert!(is_move_valid(board.clone(), from, Position { x: 5, y: 5 }));
    assert!(is_move_valid(board.clone(), from, Position { x: 3, y: 4 }));
    assert!(is_move_valid(board.clone(), from, Position { x: 4, y: 3 }));
    assert!(!is_move_valid(board.clone(), from, Position { x: 6, y: 4 }));
    assert!(!is_move_valid(board, from, Position { x: 4, y: 4 }));
}

#[test]
fn queen_never_moves() {
    let from = Position { x: 4, y: 4 };
    let board = board_with(PieceType::Queen, from);
    assert!(!is_move_valid(board.clone(), from, Position { x: 4, y: 5 }));
    assert!(!is_move_valid(board, from, Position { x: 7, y: 7 }));
}

#[test]
fn rook_never_moves() {
    let from = Position { x: 4, y: 4 };
    let board = board_with(PieceType::Rook, from);
    assert!(!is_move_valid(board.clone(), from, Position { x: 4, y: 8 }));
    assert!(!is_move_valid(board, from, Position { x: 1, y: 4 }));
}

#[test]
fn bishop_takes_only_the_positive_diagonal() {
    let from = Position { x: 4, y: 4 };
    let board = board_with(PieceType::Bishop, from);
    assert!(is_move_valid(board.clone(), from, Position { x: 6, y: 6 }));
    assert!(is_move_valid(board.clone(), from, Position { x: 2, y: 2 }));
    // The anti-diagonal (dx == -dy) is not recognized.
    assert!(!is_move_valid(board.clone(), from, Position { x: 6, y: 2 }));
    assert!(!is_move_valid(board, from, Position { x: 2, y: 6 }));
}

#[test]
fn knight_moves_the_eight_offsets() {
    let from = Position { x: 4, y: 4 };
    let board = board_with(PieceType::Knight, from);
    assert!(is_move_valid(board.clone(), from, Position { x: 5, y: 6 }));
    assert!(is_move_valid(board.clone(), from, Position { x: 6, y: 3 }));
    assert!(is_move_valid(board.clone(), from, Position { x: 2, y: 5 }));
    assert!(is_move_valid(board.clone(), from, Position { x: 3, y: 2 }));
    assert!(!is_move_valid(board.clone(), from, Position { x: 5, y: 5 }));
    assert!(!is_move_valid(board, from, Position { x: 6, y: 6 }));
}

#[test]
fn pon_single_step_goes_up_one_rank() {
    let from = Position { x: 4, y: 4 };
    let board = board_with(PieceType::Pon, from);
    assert!(is_move_valid(board.clone(), from, Position { x: 4, y: 5 }));
    assert!(!is_move_valid(board.clone(), from, Position { x: 4, y: 3 }));
    assert!(!is_move_valid(board, from, Position { x: 5, y: 5 }));
}

#[test]
fn pon_double_step_is_gated_on_file_two() {
    let on_file_two = Position { x: 2, y: 5 };
    let board = board_with(PieceType::Pon, on_file_two);
    assert!(is_move_valid(
        board,
        on_file_two,
        Position { x: 2, y: 7 }
    ));
    // A double step from any other file is rejected, even from rank 2.
    let off_file_two = Position { x: 4, y: 2 };
    let board = board_with(PieceType::Pon, off_file_two);
    assert!(!is_move_valid(
        board,
        off_file_two,
        Position { x: 4, y: 4 }
    ));
}

#[test]
fn empty_origin_is_never_legal() {
    let board = board_with(PieceType::King, Position { x: 1, y: 1 });
    assert!(!is_move_valid(
        board,
        Position { x: 4, y: 4 },
        Position { x: 4, y: 5 }
    ));
}

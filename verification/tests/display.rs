use chess_core::Game;
use chess_core::Piece;
use chess_core::PieceType;
use chess_core::Player;
use chess_core::Position;

#[test]
fn position_display_prints_rank_one_below_its_value() {
    assert_eq!(Position { x: 2, y: 2 }.to_display_string(), "b 1");
    assert_eq!(Position { x: 1, y: 1 }.to_display_string(), "a 0");
    assert_eq!(Position { x: 8, y: 8 }.to_display_string(), "h 7");
}

#[test]
fn piece_type_symbols() {
    assert_eq!(PieceType::King.symbol(), "K");
    assert_eq!(PieceType::Queen.symbol(), "Q");
    assert_eq!(PieceType::Rook.symbol(), "R");
    assert_eq!(PieceType::Bishop.symbol(), "B");
    assert_eq!(PieceType::Knight.symbol(), "N");
    assert_eq!(PieceType::Pon.symbol(), "P");
}

#[test]
fn game_displays_its_first_move() {
    let mut game = Game {
        player: Player::White,
        moves: vec![],
        board: vec![Piece {
            side: Player::White,
            position: Position { x: 3, y: 2 },
            piece_type: PieceType::Pon,
        }],
    };

    game.apply_move(Position { x: 3, y: 2 }, Position { x: 3, y: 3 })
        .unwrap();

    assert_eq!(game.to_display_string(), "Pc 1 c 2");
}

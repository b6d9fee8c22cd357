//! A small two-player chess-like game core: a board of pieces, a
//! move-execution engine with capture and a castling-style compound move,
//! and a per-piece-kind legality predicate.

pub mod board;
pub mod coord;
pub mod game;
pub mod piece;
pub mod rules;

pub use piece::Piece;
pub use piece::PieceType;
pub use piece::Player;
pub use coord::ParseError;
pub use coord::Position;
pub use coord::string_to_position;
pub use rules::is_move_valid;
pub use game::Game;
pub use game::Move;
pub use game::MoveError;

//! The two players, the six piece kinds with their one-letter symbols, and a
//! piece: a (kind, position, side) value owned by the board.

use vstd::prelude::*;
use crate::coord::Position;

verus! {

/// One of the two players.
#[derive(Debug, Copy, Clone, PartialEq, Eq, Structural)]
pub enum Player {
    White,
    Black,
}

/// The kind of a piece. "Pon" is this game's spelling of the pawn.
#[derive(Debug, Copy, Clone, PartialEq, Eq, Structural)]
pub enum PieceType {
    King,
    Queen,
    Rook,
    Bishop,
    Knight,
    Pon,
}

/// The canonical one-letter symbol of a piece kind.
pub open spec fn symbol_text(kind: PieceType) -> Seq<char> {
    match kind {
        PieceType::King => "K"@,
        PieceType::Queen => "Q"@,
        PieceType::Rook => "R"@,
        PieceType::Bishop => "B"@,
        PieceType::Knight => "N"@,
        PieceType::Pon => "P"@,
    }
}

impl PieceType {
    /// The one-letter symbol this kind is displayed as.
    pub fn symbol(&self) -> (r: &'static str)
        ensures
            r@ == symbol_text(*self),
    {
        match self {
            PieceType::King => "K",
            PieceType::Queen => "Q",
            PieceType::Rook => "R",
            PieceType::Bishop => "B",
            PieceType::Knight => "N",
            PieceType::Pon => "P",
        }
    }
}

/// A live piece: identified only by the square it currently occupies.
#[derive(Debug, Copy, Clone, PartialEq, Eq, Structural)]
pub struct Piece {
    pub piece_type: PieceType,
    pub position: Position,
    pub side: Player,
}

} // verus!

//! The per-piece-kind legality predicate: a pure movement-shape check over
//! signed coordinate deltas. It knows nothing of obstructions, check safety
//! or turn order, and `apply_move` never consults it on its own.

use vstd::prelude::*;
use vstd::math::abs;
use vstd::math::max;
use crate::coord::Position;
use crate::piece::Piece;
use crate::piece::PieceType;
use crate::board::find_piece_at;

verus! {

/// Whether a piece of `kind` may move from `from` to `to`, judged on the
/// signed deltas dx = to.x - from.x and dy = to.y - from.y alone:
/// - King: any of the eight adjacent squares, max(|dx|, |dy|) == 1.
/// - Queen, Rook: never (left unimplemented by design).
/// - Bishop: dx == dy only; the anti-diagonal dx == -dy is not recognized.
/// - Knight: the eight standard offsets, (|dx|, |dy|) in {(1,2), (2,1)}.
/// - Pon: one step up the ranks regardless of side (dx == 0 and dy == 1), or
///   a double step gated on the piece standing on file 2 (from.x == 2 and
///   dy == 2, with dx unconstrained).
pub open spec fn legal_shape(kind: PieceType, from: Position, to: Position) -> bool {
    let dx = to.x - from.x;
    let dy = to.y - from.y;
    match kind {
        PieceType::King => max(abs(dx) as int, abs(dy) as int) == 1,
        PieceType::Queen => false,
        PieceType::Rook => false,
        PieceType::Bishop => dx == dy,
        PieceType::Knight => (abs(dx) == 1 && abs(dy) == 2) || (abs(dx) == 2 && abs(dy) == 1),
        PieceType::Pon => (dx == 0 && dy == 1) || (from.x == 2 && dy == 2),
    }
}

/// Whether the move is legal on this board: the first piece at `from` (the
/// only one, under the board invariant) must exist and move in a shape its
/// kind allows; an empty origin is simply illegal, never an error.
pub open spec fn move_valid(board: Seq<Piece>, from: Position, to: Position) -> bool {
    match find_piece_at(board, from) {
        Some(i) => legal_shape(board[i].piece_type, from, to),
        None => false,
    }
}

/// `move_valid`, executable on a borrowed board.
pub(crate) fn is_move_valid_on(board: &Vec<Piece>, from: Position, to: Position) -> (r: bool)
    ensures
        r == move_valid(board@, from, to),
{
    let idx = match crate::board::find_piece_index(board, from) {
        Some(i) => i,
        None => {
            return false;
        },
    };
    proof {
        crate::board::lemma_find_piece_at(board@, from);
    }
    let dx: i16 = to.x as i16 - from.x as i16;
    let dy: i16 = to.y as i16 - from.y as i16;
    let adx: i16 = if dx < 0 {
        -dx
    } else {
        dx
    };
    let ady: i16 = if dy < 0 {
        -dy
    } else {
        dy
    };
    match board[idx].piece_type {
        PieceType::King => (if adx > ady {
            adx
        } else {
            ady
        }) == 1,
        PieceType::Queen => false,
        PieceType::Rook => false,
        PieceType::Bishop => dx == dy,
        PieceType::Knight => (adx == 1 && ady == 2) || (adx == 2 && ady == 1),
        PieceType::Pon => (dx == 0 && dy == 1) || (from.x == 2 && dy == 2),
    }
}

/// Whether the move is legal on this board, as the per-kind rules say.
pub fn is_move_valid(board: Vec<Piece>, from: Position, to: Position) -> (r: bool)
    ensures
        r == move_valid(board@, from, to),
{
    is_move_valid_on(&board, from, to)
}

} // verus!

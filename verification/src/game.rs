//! The game: a board of pieces, the side to move (tracked, never enforced),
//! and an append-only move log. `apply_move` is the single mutating
//! operation; every failure is a recoverable error, never a panic.

use vstd::prelude::*;
use crate::coord::Position;
use crate::piece::Piece;
use crate::piece::PieceType;
use crate::piece::Player;
use crate::board::find_piece_at;
use crate::board::distinct_positions;
use crate::board::find_castle_rook;
use crate::board::find_piece_index;
use crate::board::find_castle_rook_index;
use crate::board::remove_piece_at;
use crate::board::relocate;
use crate::board::lemma_find_piece_at;
use crate::board::lemma_find_castle_rook;
use crate::rules::move_valid;
use crate::piece::symbol_text;
use crate::coord::position_display;
use crate::rules::is_move_valid_on;

verus! {

/// An immutable log entry describing one applied move.
#[derive(Debug, Copy, Clone, PartialEq, Eq, Structural)]
pub struct Move {
    pub from: Position,
    pub to: Position,
    pub piece_type: PieceType,
    pub capture: bool,
    /// Whether this entry records the castling-style compound move.
    pub rock: bool,
}

/// Failure of `apply_move` or `try_move`.
#[derive(Debug, Copy, Clone, PartialEq, Eq, Structural)]
pub enum MoveError {
    /// No piece stands on the origin square.
    NoPieceAtOrigin,
    /// The destination holds a piece of the mover's own side.
    FriendlyCapture,
    /// The move has the castle shape, but no same-side rook stands on the
    /// required square.
    CastleRookMissing,
    /// `try_move` only: the legality predicate rejected the move.
    IllegalMove,
}

/// A game: the side to move, the move log, and the board.
pub struct Game {
    pub player: Player,
    pub moves: Vec<Move>,
    pub board: Vec<Piece>,
}

/// The castle shape: a king moving exactly two ranks along its own file.
pub open spec fn is_castle_shape(kind: PieceType, from: Position, to: Position) -> bool {
    &&& kind == PieceType::King
    &&& from.x == to.x
    &&& (to.y == from.y + 2 || to.y + 2 == from.y)
}

/// The rank the castle's rook must start from: 1 when the king lands on
/// rank 2, else 8.
pub open spec fn castle_rook_from_rank(to: Position) -> u8 {
    if to.y == 2 {
        1
    } else {
        8
    }
}

/// The rank the castle's rook is relocated to: 3 when the king lands on
/// rank 2, else 5.
pub open spec fn castle_rook_to_rank(to: Position) -> u8 {
    if to.y == 2 {
        3
    } else {
        5
    }
}

/// The piece, standing on `to`.
pub open spec fn moved_to(p: Piece, to: Position) -> Piece {
    Piece { position: to, ..p }
}

/// What one `apply_move` call owes: either the error, or the new board
/// together with the record(s) the call appends to the log.
///
/// The mover is the first piece at `from`. A castle-shaped move relocates
/// the king and the same-side rook found on the king's file at
/// `castle_rook_from_rank(to)`, and logs a castle record; capture detection
/// then still runs on the same call (the branches are deliberately not
/// exclusive), so a castle also logs a second, plain or capture, record.
/// A friendly piece on `to` fails the whole call; an opposing piece on `to`
/// is removed and the move logged as a capture.
pub open spec fn move_outcome(board: Seq<Piece>, from: Position, to: Position) -> Result<
    (Seq<Piece>, Seq<Move>),
    MoveError,
> {
    match find_piece_at(board, from) {
        None => Err(MoveError::NoPieceAtOrigin),
        Some(i) => {
            let mover = board[i];
            let castle = is_castle_shape(mover.piece_type, from, to);
            let rook = find_castle_rook(board, mover.side, to.x, castle_rook_from_rank(to));
            let cap = find_piece_at(board, to);
            if castle && rook is None {
                Err(MoveError::CastleRookMissing)
            } else if cap is Some && board[cap->Some_0].side == mover.side {
                Err(MoveError::FriendlyCapture)
            } else {
                let with_king = board.update(i, moved_to(mover, to));
                let with_rook = if castle {
                    let r = board[rook->Some_0];
                    with_king.update(
                        rook->Some_0,
                        (Piece {
                            position: Position { x: r.position.x, y: castle_rook_to_rank(to) },
                            ..r
                        }),
                    )
                } else {
                    with_king
                };
                let second = (Move {
                    from,
                    to,
                    piece_type: mover.piece_type,
                    capture: cap is Some,
                    rock: false,
                });
                let records = if castle {
                    seq![
                        (Move { from, to, piece_type: mover.piece_type, capture: false, rock: true }),
                        second,
                    ]
                } else {
                    seq![second]
                };
                match cap {
                    Some(j) => Ok((with_rook.remove(j), records)),
                    None => Ok((with_rook, records)),
                }
            }
        },
    }
}

/// The move the first piece at `from` would make has the castle shape.
pub open spec fn is_castle_move(board: Seq<Piece>, from: Position, to: Position) -> bool {
    match find_piece_at(board, from) {
        Some(i) => is_castle_shape(board[i].piece_type, from, to),
        None => false,
    }
}

/// The square the castle's rook lands on.
pub open spec fn castle_rook_dest(to: Position) -> Position {
    Position { x: to.x, y: castle_rook_to_rank(to) }
}

/// The proviso under which a castle keeps squares distinct: the rook must
/// not land on the king's destination square, and its landing square must
/// be empty beforehand unless it is the king's own origin.
pub open spec fn castle_keeps_distinct(board: Seq<Piece>, from: Position, to: Position) -> bool {
    &&& to.y != castle_rook_to_rank(to)
    &&& (castle_rook_dest(to) == from || find_piece_at(board, castle_rook_dest(to)) is None)
}

/// Law (at-most-one-occupant): on a board where no two pieces share a
/// square, every successful move — and so any sequence of them — leaves no
/// two pieces on one square, provided each castle satisfies
/// `castle_keeps_distinct`. The proviso cannot be dropped: a king on rank 7
/// castling down to rank 5 lands exactly where its rook is relocated to.
pub proof fn lemma_move_keeps_distinct(
    board: Seq<Piece>,
    from: Position,
    to: Position,
    next: Seq<Piece>,
    records: Seq<Move>,
)
    requires
        distinct_positions(board),
        move_outcome(board, from, to) == Ok::<(Seq<Piece>, Seq<Move>), MoveError>(
            (next, records),
        ),
        is_castle_move(board, from, to) ==> castle_keeps_distinct(board, from, to),
    ensures
        distinct_positions(next),
{
    lemma_find_piece_at(board, from);
    lemma_find_piece_at(board, to);
    let i = find_piece_at(board, from)->Some_0;
    let mover = board[i];
    let castle = is_castle_shape(mover.piece_type, from, to);
    let cap = find_piece_at(board, to);
    let rook = find_castle_rook(board, mover.side, to.x, castle_rook_from_rank(to));
    lemma_find_castle_rook(board, mover.side, to.x, castle_rook_from_rank(to));
    let k = rook->Some_0;
    let with_king = board.update(i, moved_to(mover, to));
    let with_rook = if castle {
        let r = board[rook->Some_0];
        with_king.update(
            rook->Some_0,
            (Piece { position: Position { x: r.position.x, y: castle_rook_to_rank(to) }, ..r }),
        )
    } else {
        with_king
    };
    // The mover is the only piece on its origin square.
    assert forall|m: int| 0 <= m < board.len() && m != i implies board[m].position != from by {
        if m > i {
            assert(board[i].position != board[m].position);
        }
    }
    if castle {
        assert(i != k);
        assert(with_rook[k].position == castle_rook_dest(to));
        // Nothing but the mover can stand on the rook's landing square.
        assert forall|m: int|
            0 <= m < board.len() && m != i implies board[m].position != castle_rook_dest(to) by {
            if castle_rook_dest(to) == from {
                assert(board[m].position != from);
            } else {
                lemma_find_piece_at(board, castle_rook_dest(to));
            }
        }
    }
    match cap {
        None => {
            assert(next == with_rook);
            assert forall|m: int, n: int|
                0 <= m < n < next.len() implies next[m].position != next[n].position by {
                if m == i || n == i {
                    let other = if m == i {
                        n
                    } else {
                        m
                    };
                    if castle && other == k {
                        assert(next[other].position == castle_rook_dest(to));
                    } else {
                        assert(next[other] == board[other]);
                        assert(board[other].position != to);
                    }
                } else if castle && (m == k || n == k) {
                    let other = if m == k {
                        n
                    } else {
                        m
                    };
                    assert(next[other] == board[other]);
                    assert(board[other].position != castle_rook_dest(to));
                } else {
                    assert(next[m] == board[m]);
                    assert(next[n] == board[n]);
                }
            }
        },
        Some(j) => {
            assert(next == with_rook.remove(j));
            with_rook.remove_ensures(j);
            assert(j != i);
            if castle {
                assert(j != k);
            }
            // Only the captured piece stood on the destination square.
            assert forall|m: int| 0 <= m < board.len() && m != j implies board[m].position != to by {
                if m < j {
                    assert(board[m].position != board[j].position);
                } else if m > j {
                    assert(board[j].position != board[m].position);
                }
            }
            assert forall|m: int, n: int|
                0 <= m < n < next.len() implies next[m].position != next[n].position by {
                let m2 = if m < j {
                    m
                } else {
                    m + 1
                };
                let n2 = if n < j {
                    n
                } else {
                    n + 1
                };
                assert(next[m] == with_rook[m2]);
                assert(next[n] == with_rook[n2]);
                if m2 == i || n2 == i {
                    let other = if m2 == i {
                        n2
                    } else {
                        m2
                    };
                    if castle && other == k {
                        assert(with_rook[other].position == castle_rook_dest(to));
                    } else {
                        assert(with_rook[other] == board[other]);
                        assert(board[other].position != to);
                    }
                } else if castle && (m2 == k || n2 == k) {
                    let other = if m2 == k {
                        n2
                    } else {
                        m2
                    };
                    assert(with_rook[other] == board[other]);
                    assert(board[other].position != castle_rook_dest(to));
                } else {
                    assert(with_rook[m2] == board[m2]);
                    assert(with_rook[n2] == board[n2]);
                }
            }
        },
    }
}

/// The display text of a move record: the piece's symbol, then the origin
/// and destination squares in their display form.
pub open spec fn move_display(m: Move) -> Seq<char> {
    symbol_text(m.piece_type) + position_display(m.from) + " "@ + position_display(m.to)
}

impl Move {
    /// Renders the record, e.g. "Pc 1 c 2" for a pon moved from c2 to c3
    /// (square display prints the rank one below its value).
    pub fn to_display_string(&self) -> (r: String)
        requires
            self.from.valid(),
            self.to.valid(),
        ensures
            r@ == move_display(*self),
    {
        let mut s = String::from_str(self.piece_type.symbol());
        let from_text = self.from.to_display_string();
        let to_text = self.to.to_display_string();
        s.append(from_text.as_str());
        s.append(" ");
        s.append(to_text.as_str());
        proof {
            assert(s@ =~= move_display(*self));
        }
        s
    }
}

/// The two pieces `build_board` adds: a white pon on c2 and a white knight
/// on b1.
pub open spec fn starting_pieces() -> Seq<Piece> {
    seq![
        (Piece {
            piece_type: PieceType::Pon,
            position: Position { x: 3, y: 2 },
            side: Player::White,
        }),
        (Piece {
            piece_type: PieceType::Knight,
            position: Position { x: 2, y: 1 },
            side: Player::White,
        }),
    ]
}

impl Game {
    /// Pushes the fixed starting pieces onto the board, in order: a white
    /// pon on c2, then a white knight on b1.
    pub fn build_board(&mut self)
        ensures
            final(self).board@ == old(self).board@ + starting_pieces(),
            final(self).moves@ == old(self).moves@,
            final(self).player == old(self).player,
    {
        let white_pon = Piece {
            piece_type: PieceType::Pon,
            position: Position { x: 3, y: 2 },
            side: Player::White,
        };
        let white_knight = Piece {
            piece_type: PieceType::Knight,
            position: Position { x: 2, y: 1 },
            side: Player::White,
        };
        self.board.push(white_pon);
        self.board.push(white_knight);
        proof {
            assert(self.board@ =~= old(self).board@ + starting_pieces());
        }
    }

    /// Renders the first logged move, the game's display form.
    pub fn to_display_string(&self) -> (r: String)
        requires
            self.moves@.len() > 0,
            self.moves@[0].from.valid(),
            self.moves@[0].to.valid(),
        ensures
            r@ == move_display(self.moves@[0]),
    {
        let first = self.moves[0];
        first.to_display_string()
    }

    /// Consults the legality predicate first: an illegal move is rejected
    /// with `IllegalMove` and the game left as it was; a legal one is then
    /// applied exactly as `apply_move` applies it.
    pub fn try_move(&mut self, from: Position, to: Position) -> (r: Result<(), MoveError>)
        ensures
            move_valid(old(self).board@, from, to) ==> match move_outcome(
                old(self).board@,
                from,
                to,
            ) {
                Ok(outcome) => {
                    &&& r == Ok::<(), MoveError>(())
                    &&& final(self).board@ == outcome.0
                    &&& final(self).moves@ == old(self).moves@ + outcome.1
                    &&& final(self).player == old(self).player
                },
                Err(e) => {
                    &&& r == Err::<(), MoveError>(e)
                    &&& final(self).board@ == old(self).board@
                    &&& final(self).moves@ == old(self).moves@
                    &&& final(self).player == old(self).player
                },
            },
            !move_valid(old(self).board@, from, to) ==> {
                &&& r == Err::<(), MoveError>(MoveError::IllegalMove)
                &&& final(self).board@ == old(self).board@
                &&& final(self).moves@ == old(self).moves@
                &&& final(self).player == old(self).player
            },
    {
        if !is_move_valid_on(&self.board, from, to) {
            return Err(MoveError::IllegalMove);
        }
        self.apply_move(from, to)
    }

    /// Applies the move from `from` to `to`: relocates the mover (and, for a
    /// castle, the rook), removes a captured opposing piece, and appends the
    /// record(s); on any failure the game is left exactly as it was.
    ///
    /// The last clause is the at-most-one-occupant invariant: a successful
    /// move keeps it, under the castle proviso of `castle_keeps_distinct`.
    pub fn apply_move(&mut self, from: Position, to: Position) -> (r: Result<(), MoveError>)
        ensures
            match move_outcome(old(self).board@, from, to) {
                Ok(outcome) => {
                    &&& r == Ok::<(), MoveError>(())
                    &&& final(self).board@ == outcome.0
                    &&& final(self).moves@ == old(self).moves@ + outcome.1
                    &&& final(self).player == old(self).player
                },
                Err(e) => {
                    &&& r == Err::<(), MoveError>(e)
                    &&& final(self).board@ == old(self).board@
                    &&& final(self).moves@ == old(self).moves@
                    &&& final(self).player == old(self).player
                },
            },
            ({
                &&& distinct_positions(old(self).board@)
                &&& is_castle_move(old(self).board@, from, to) ==> castle_keeps_distinct(
                    old(self).board@,
                    from,
                    to,
                )
                &&& r is Ok
            }) ==> distinct_positions(final(self).board@),
    {
        let idx = match find_piece_index(&self.board, from) {
            Some(i) => i,
            None => {
                return Err(MoveError::NoPieceAtOrigin);
            },
        };
        proof {
            lemma_find_piece_at(self.board@, from);
        }
        let mover = self.board[idx];
        let cap_idx = find_piece_index(&self.board, to);
        let castle = mover.piece_type == PieceType::King && from.x == to.x && ((to.y as u16 == from.y
            as u16 + 2) || (from.y as u16 == to.y as u16 + 2));
        let mut rook_idx: usize = 0;
        if castle {
            let from_rank: u8 = if to.y == 2 {
                1
            } else {
                8
            };
            rook_idx = match find_castle_rook_index(&self.board, mover.side, to.x, from_rank) {
                Some(k) => k,
                None => {
                    return Err(MoveError::CastleRookMissing);
                },
            };
            proof {
                lemma_find_castle_rook(self.board@, mover.side, to.x, castle_rook_from_rank(to));
            }
        }
        if let Some(j) = cap_idx {
            proof {
                lemma_find_piece_at(self.board@, to);
            }
            if self.board[j].side == mover.side {
                return Err(MoveError::FriendlyCapture);
            }
        }
        relocate(&mut self.board, idx, to);
        if castle {
            let to_rank: u8 = if to.y == 2 {
                3
            } else {
                5
            };
            let rook_file = self.board[rook_idx].position.x;
            relocate(&mut self.board, rook_idx, Position { x: rook_file, y: to_rank });
            self.moves.push(
                Move { from, to, piece_type: mover.piece_type, capture: false, rock: true },
            );
        }
        match cap_idx {
            Some(j) => {
                remove_piece_at(&mut self.board, j);
                self.moves.push(
                    Move { from, to, piece_type: mover.piece_type, capture: true, rock: false },
                );
            },
            None => {
                self.moves.push(
                    Move { from, to, piece_type: mover.piece_type, capture: false, rock: false },
                );
            },
        }
        proof {
            let out = move_outcome(old(self).board@, from, to);
            if distinct_positions(old(self).board@) && (is_castle_move(old(self).board@, from, to)
                ==> castle_keeps_distinct(old(self).board@, from, to)) {
                lemma_move_keeps_distinct(
                    old(self).board@,
                    from,
                    to,
                    out->Ok_0.0,
                    out->Ok_0.1,
                );
            }
        }
        Ok(())
    }
}

} // verus!

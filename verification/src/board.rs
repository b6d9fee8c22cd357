//! The board is an ordered collection of pieces (a `Vec<Piece>` inside
//! `Game`). Lookups take the first piece that matches; under the board's
//! at-most-one-occupant invariant the first match is the only one.

use vstd::prelude::*;
use crate::coord::Position;
use crate::piece::Piece;
use crate::piece::PieceType;
use crate::piece::Player;

verus! {

/// At most one piece occupies any given square.
pub open spec fn distinct_positions(s: Seq<Piece>) -> bool {
    forall|i: int, j: int| 0 <= i < j < s.len() ==> s[i].position != s[j].position
}

/// The index of the first piece occupying `pos`, if any.
pub open spec fn find_piece_at(s: Seq<Piece>, pos: Position) -> Option<int>
    decreases s.len(),
{
    if s.len() == 0 {
        None
    } else if s[0].position == pos {
        Some(0int)
    } else {
        match find_piece_at(s.drop_first(), pos) {
            Some(i) => Some(i + 1),
            None => None,
        }
    }
}

/// A rook of `side` standing at (`file`, `rank`): the piece a castle move
/// relocates alongside the king.
pub open spec fn is_castle_rook(p: Piece, side: Player, file: u8, rank: u8) -> bool {
    &&& p.piece_type == PieceType::Rook
    &&& p.side == side
    &&& p.position.x == file
    &&& p.position.y == rank
}

/// The index of the first rook of `side` standing at (`file`, `rank`), if any.
pub open spec fn find_castle_rook(s: Seq<Piece>, side: Player, file: u8, rank: u8) -> Option<int>
    decreases s.len(),
{
    if s.len() == 0 {
        None
    } else if is_castle_rook(s[0], side, file, rank) {
        Some(0int)
    } else {
        match find_castle_rook(s.drop_first(), side, file, rank) {
            Some(i) => Some(i + 1),
            None => None,
        }
    }
}

/// What `find_piece_at` returns: the first index whose piece occupies `pos`,
/// or nothing when no piece does.
pub proof fn lemma_find_piece_at(s: Seq<Piece>, pos: Position)
    ensures
        match find_piece_at(s, pos) {
            Some(i) => 0 <= i < s.len() && s[i].position == pos && (forall|k: int|
                0 <= k < i ==> s[k].position != pos),
            None => forall|k: int| 0 <= k < s.len() ==> s[k].position != pos,
        },
    decreases s.len(),
{
    if s.len() > 0 && s[0].position != pos {
        let rest = s.drop_first();
        lemma_find_piece_at(rest, pos);
        match find_piece_at(rest, pos) {
            Some(i) => {
                assert(find_piece_at(s, pos) == Some(i + 1));
                assert(s[i + 1] == rest[i]);
                assert forall|k: int| 0 <= k < i + 1 implies s[k].position != pos by {
                    if k > 0 {
                        assert(s[k] == rest[k - 1]);
                    }
                }
            },
            None => {
                assert forall|k: int| 0 <= k < s.len() implies s[k].position != pos by {
                    if k > 0 {
                        assert(s[k] == rest[k - 1]);
                    }
                }
            },
        }
    }
}

/// The converse: an index with no earlier match is the one found.
pub proof fn lemma_find_piece_at_is(s: Seq<Piece>, pos: Position, i: int)
    requires
        0 <= i < s.len(),
        s[i].position == pos,
        forall|k: int| 0 <= k < i ==> s[k].position != pos,
    ensures
        find_piece_at(s, pos) == Some(i),
{
    lemma_find_piece_at(s, pos);
    match find_piece_at(s, pos) {
        Some(j) => {
            if j < i {
                assert(s[j].position != pos);
            } else if i < j {
                assert(s[i].position != pos);
            }
        },
        None => {
            assert(s[i].position != pos);
        },
    }
}

/// What `find_castle_rook` returns: the first qualifying rook's index, or
/// nothing when no piece qualifies.
pub proof fn lemma_find_castle_rook(s: Seq<Piece>, side: Player, file: u8, rank: u8)
    ensures
        match find_castle_rook(s, side, file, rank) {
            Some(i) => 0 <= i < s.len() && is_castle_rook(s[i], side, file, rank) && (forall|
                k: int,
            | 0 <= k < i ==> !is_castle_rook(s[k], side, file, rank)),
            None => forall|k: int| 0 <= k < s.len() ==> !is_castle_rook(s[k], side, file, rank),
        },
    decreases s.len(),
{
    if s.len() > 0 && !is_castle_rook(s[0], side, file, rank) {
        let rest = s.drop_first();
        lemma_find_castle_rook(rest, side, file, rank);
        match find_castle_rook(rest, side, file, rank) {
            Some(i) => {
                assert(find_castle_rook(s, side, file, rank) == Some(i + 1));
                assert(s[i + 1] == rest[i]);
                assert forall|k: int| 0 <= k < i + 1 implies !is_castle_rook(
                    s[k],
                    side,
                    file,
                    rank,
                ) by {
                    if k > 0 {
                        assert(s[k] == rest[k - 1]);
                    }
                }
            },
            None => {
                assert forall|k: int| 0 <= k < s.len() implies !is_castle_rook(
                    s[k],
                    side,
                    file,
                    rank,
                ) by {
                    if k > 0 {
                        assert(s[k] == rest[k - 1]);
                    }
                }
            },
        }
    }
}

/// Deletes the piece at `index`, shifting later entries down, and returns
/// it; used for captures.
pub fn remove_piece_at(board: &mut Vec<Piece>, index: usize) -> (removed: Piece)
    requires
        index < old(board)@.len(),
    ensures
        final(board)@ == old(board)@.remove(index as int),
        removed == old(board)@[index as int],
{
    board.remove(index)
}

/// Moves the piece at `index` to `new_coordinate`, in place.
pub fn relocate(board: &mut Vec<Piece>, index: usize, new_coordinate: Position)
    requires
        index < old(board)@.len(),
    ensures
        final(board)@ == old(board)@.update(
            index as int,
            (Piece { position: new_coordinate, ..old(board)@[index as int] }),
        ),
{
    board[index].position = new_coordinate;
}

/// The index of the first piece occupying `pos`, executable form.
pub fn find_piece_index(board: &Vec<Piece>, pos: Position) -> (r: Option<usize>)
    ensures
        match r {
            Some(u) => find_piece_at(board@, pos) == Some(u as int),
            None => find_piece_at(board@, pos) is None,
        },
{
    let mut i: usize = 0;
    while i < board.len()
        invariant
            0 <= i <= board@.len(),
            forall|k: int| 0 <= k < i ==> board@[k].position != pos,
        decreases board@.len() - i,
    {
        if board[i].position == pos {
            proof {
                lemma_find_piece_at_is(board@, pos, i as int);
            }
            return Some(i);
        }
        i += 1;
    }
    proof {
        lemma_find_piece_at(board@, pos);
        if find_piece_at(board@, pos) is Some {
            let j = find_piece_at(board@, pos)->Some_0;
            assert(board@[j].position != pos);
        }
    }
    None
}

/// The index of the first rook of `side` at (`file`, `rank`), executable form.
pub fn find_castle_rook_index(board: &Vec<Piece>, side: Player, file: u8, rank: u8) -> (r: Option<
    usize,
>)
    ensures
        match r {
            Some(u) => find_castle_rook(board@, side, file, rank) == Some(u as int),
            None => find_castle_rook(board@, side, file, rank) is None,
        },
{
    let mut i: usize = 0;
    while i < board.len()
        invariant
            0 <= i <= board@.len(),
            forall|k: int| 0 <= k < i ==> !is_castle_rook(board@[k], side, file, rank),
        decreases board@.len() - i,
    {
        let p = board[i];
        if p.piece_type == PieceType::Rook && p.side == side && p.position.x == file && p.position.y
            == rank {
            proof {
                lemma_find_castle_rook(board@, side, file, rank);
                match find_castle_rook(board@, side, file, rank) {
                    Some(j) => {
                        if j < i {
                            assert(!is_castle_rook(board@[j], side, file, rank));
                        } else if i < j {
                            assert(!is_castle_rook(board@[i as int], side, file, rank));
                        }
                    },
                    None => {
                        assert(!is_castle_rook(board@[i as int], side, file, rank));
                    },
                }
            }
            return Some(i);
        }
        i += 1;
    }
    proof {
        lemma_find_castle_rook(board@, side, file, rank);
        if find_castle_rook(board@, side, file, rank) is Some {
            let j = find_castle_rook(board@, side, file, rank)->Some_0;
            assert(!is_castle_rook(board@[j], side, file, rank));
        }
    }
    None
}

} // verus!

//! Which squares a player sees.

use vstd::prelude::*;
use crate::{bitboard, geometry, squares};
use crate::bitboard::has_square;
use crate::engine::{
    get_bishop_moves, get_king_moves, get_knight_moves, get_pawn_attacks, get_rook_moves,
};
use crate::pieces::{Color, Piece};
use crate::position::Position;
use crate::squares::BOARD_SQUARES;
use std::collections::HashSet;

verus! {

/// The rank on which a player's pawns start.
pub open spec fn pawn_start(player: Color) -> int {
    match player {
        Color::White => 1,
        Color::Black => 6,
    }
}

/// A pawn on `from` looks at `to` straight ahead: the next square whatever stands there, and from
/// its starting rank the one after that if the next one is empty.
pub open spec fn pawn_looks_ahead(position: Position, player: Color, from: int, to: int) -> bool {
    let next = from + 8 * geometry::forward(player);
    let after = from + 16 * geometry::forward(player);
    &&& squares::on_board(next)
    &&& {
        ||| to == next
        ||| {
            &&& squares::rank_of(from) == pawn_start(player)
            &&& position.piece_at(next) is None
            &&& squares::on_board(after)
            &&& to == after
        }
    }
}

/// A piece of the player's on `from` shows `to`: its own square, what it attacks, and what a pawn
/// looks at ahead.
pub open spec fn shows(position: Position, player: Color, from: int, to: int) -> bool {
    &&& position.color_at(from) == Some(player)
    &&& match position.piece_at(from) {
        Some(piece) => {
            ||| to == from
            ||| geometry::attacks(piece, player, position.occupied, from, to)
            ||| piece == Piece::Pawn && pawn_looks_ahead(position, player, from, to)
        },
        None => false,
    }
}

/// The player sees the square.
pub open spec fn visible(position: Position, player: Color, square: int) -> bool {
    exists|from: int| squares::on_board(from) && #[trigger] shows(position, player, from, square)
}

/// The squares that a piece attacks, whatever stands there.
pub fn piece_attacks(position: &Position, square: usize, piece: Piece, color: Color) -> (mask: u64)
    requires
        square < BOARD_SQUARES,
    ensures
        forall|to: int| #![trigger bitboard::holds(mask, to)]
            0 <= to < 64 ==> bitboard::holds(mask, to) == geometry::attacks(
                piece,
                color,
                position.occupied,
                square as int,
                to,
            ),
{
    let blockers: u64 = position.occupied;
    match piece {
        Piece::Pawn => {
            proof {
                assert forall|to: int| 0 <= to < 64 implies bitboard::holds(!0u64, to) by {
                    bitboard::lemma_full(to);
                }
            }
            get_pawn_attacks(square, color, !0u64)
        },
        Piece::Knight => get_knight_moves(square),
        Piece::Bishop => get_bishop_moves(square, blockers),
        Piece::Rook => get_rook_moves(square, blockers),
        Piece::Queen => {
            let diagonals: u64 = get_bishop_moves(square, blockers);
            let lines: u64 = get_rook_moves(square, blockers);
            proof {
                assert forall|to: int| 0 <= to < 64 implies #[trigger] bitboard::holds(
                    diagonals | lines,
                    to,
                ) == (bitboard::holds(diagonals, to) || bitboard::holds(lines, to)) by {
                    bitboard::lemma_or(diagonals, lines, to);
                }
            }
            diagonals | lines
        },
        Piece::King => get_king_moves(square),
    }
}

/// The squares that a player sees.
pub fn compute_visibility(position: &Position, player: Color) -> (seen: HashSet<usize>)
    ensures
        forall|square: usize| #![trigger seen@.contains(square)]
            seen@.contains(square) <==> square < BOARD_SQUARES && visible(
                *position,
                player,
                square as int,
            ),
{
    broadcast use vstd::std_specs::hash::group_hash_axioms;

    let mut seen: HashSet<usize> = HashSet::new();
    let mut index: usize = 0;
    while index < BOARD_SQUARES
        invariant
            index <= 64,
            forall|square: usize| #![trigger seen@.contains(square)]
                seen@.contains(square) <==> square < 64 && exists|from: int|
                    0 <= from < index && #[trigger] shows(*position, player, from, square as int),
        decreases BOARD_SQUARES - index,
    {
        let ghost before = seen@;
        show_from(position, player, index, &mut seen);
        proof {
            assert forall|square: usize| seen@.contains(square) <==> square < 64 && exists|
                from: int,
            |
                0 <= from < index + 1 && #[trigger] shows(
                    *position,
                    player,
                    from,
                    square as int,
                ) by {
                if before.contains(square) {
                    let from = choose|from: int|
                        0 <= from < index && #[trigger] shows(
                            *position,
                            player,
                            from,
                            square as int,
                        );
                    assert(shows(*position, player, from, square as int));
                }
            }
        }
        index = index + 1;
    }
    seen
}

/// Adds the squares that the piece on one square shows the player.
fn show_from(position: &Position, player: Color, index: usize, seen: &mut HashSet<usize>)
    requires
        index < BOARD_SQUARES,
    ensures
        forall|square: usize| #![trigger final(seen)@.contains(square)]
            final(seen)@.contains(square) <==> old(seen)@.contains(square) || square < 64 && shows(
                *position,
                player,
                index as int,
                square as int,
            ),
{
    broadcast use vstd::std_specs::hash::group_hash_axioms;

    if position.color_on(index) != Some(player) {
        return;
    }
    if let Some(piece) = position.piece_on(index) {
        seen.insert(index);
        let attacks: u64 = piece_attacks(position, index, piece, player);
        let mut target: usize = 0;
        while target < BOARD_SQUARES
            invariant
                target <= 64,
                index < 64,
                forall|to: int| #![trigger bitboard::holds(attacks, to)]
                    0 <= to < 64 ==> bitboard::holds(attacks, to) == geometry::attacks(
                        piece,
                        player,
                        position.occupied,
                        index as int,
                        to,
                    ),
                forall|square: usize| #![trigger seen@.contains(square)]
                    seen@.contains(square) <==> old(seen)@.contains(square) || square == index || (
                    square < target && geometry::attacks(
                        piece,
                        player,
                        position.occupied,
                        index as int,
                        square as int,
                    )),
            decreases BOARD_SQUARES - target,
        {
            if has_square(attacks, target) {
                seen.insert(target);
            }
            target = target + 1;
        }
        if piece == Piece::Pawn {
            let forward_offset: i32 = if player == Color::White {
                8
            } else {
                -8
            };
            let next: i32 = index as i32 + forward_offset;
            if 0 <= next && next < 64 {
                seen.insert(next as usize);
                let rank: usize = index / 8;
                let start_rank: usize = if player == Color::White {
                    1
                } else {
                    6
                };
                if rank == start_rank && position.piece_on(next as usize).is_none() {
                    let after: i32 = index as i32 + 2 * forward_offset;
                    if 0 <= after && after < 64 {
                        seen.insert(after as usize);
                    }
                }
            }
        }
    }
}

} // verus!

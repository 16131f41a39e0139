//! The features of a position for the player to move: 64 rows of 35 channels.
//!
//! | channels | contents                                                        |
//! |----------|-----------------------------------------------------------------|
//! | 0 - 11   | the piece seen on the square, own pieces first                  |
//! | 12       | the square is seen to be empty                                  |
//! | 13       | the square is hidden                                            |
//! | 14 - 25  | the piece remembered on the square, own pieces first            |
//! | 26       | no piece is remembered on the square                            |
//! | 27       | how recently the square was seen                                |
//! | 28, 29   | castling rights, kingside in row 0 and queenside in row 1       |
//! | 30 - 34  | the share of the opponent's pawns, knights, ... that is gone    |
//!
//! Every feature is a quotient of two whole numbers that single precision holds exactly.

use vstd::prelude::*;
use crate::{actions, memory, pieces, squares, visibility};
use crate::memory::{MentalBoard, Recollection, age};
use crate::pieces::{Color, Piece, opposite_color, piece_base_index};
use crate::position::{CastleSides, Position};
use crate::squares::{BOARD_SQUARES, mirror_index};
use crate::visibility::compute_visibility;
use std::collections::HashSet;

verus! {

/// How many channels a row has.
pub const ENCODE_CHANNELS: usize = 35;

/// The channel of a square that is seen to be empty.
pub const OBS_EMPTY_CHANNEL: usize = 12;

/// The channel of a square that is hidden.
pub const OBS_FOG_CHANNEL: usize = 13;

/// The first channel of what is remembered.
pub const MEMORY_OFFSET: usize = 14;

/// The channel, counted from the first one of what is remembered, of a square without a piece.
pub const MEMORY_EMPTY_CHANNEL: usize = 12;

/// The channel that tells how recently the square was seen.
pub const RECENCY_CHANNEL: usize = 27;

/// The channel of the right to castle on the king's side.
pub const CASTLING_KS_CHANNEL: usize = 28;

/// The channel of the right to castle on the queen's side.
pub const CASTLING_QS_CHANNEL: usize = 29;

/// The first channel of the shares of captured pieces.
pub const CPV_OFFSET: usize = 30;

/// How many kinds of pieces are counted among the captured ones.
pub const CPV_LEN: usize = 5;

/// How many features an encoding has.
pub const ENCODE_LEN: usize = 2240;

/// A quotient.
#[derive(Clone, Copy, PartialEq, Eq, Structural, Debug)]
pub struct Ratio {
    pub num: i32,
    pub den: u32,
}

/// The feature is set.
pub open spec fn one() -> Ratio {
    Ratio { num: 1, den: 1 }
}

/// The feature is not set.
pub open spec fn zero() -> Ratio {
    Ratio { num: 0, den: 1 }
}

/// One or zero.
pub open spec fn indicator(set: bool) -> Ratio {
    if set {
        one()
    } else {
        zero()
    }
}

/// The plane of a piece among twelve: the player's own pieces first.
pub open spec fn sided_plane(piece: Piece, own: bool) -> int {
    if own {
        pieces::piece_plane(piece)
    } else {
        pieces::piece_plane(piece) + 6
    }
}

/// The one channel of 0 to 13 that is set for a square.
pub open spec fn observed_channel(
    position: Position,
    player: Color,
    seen: bool,
    square: int,
) -> int {
    if !seen {
        13
    } else {
        match position.piece_at(square) {
            Some(piece) => sided_plane(piece, position.color_at(square) == Some(player)),
            None => 12,
        }
    }
}

/// The one channel of 14 to 26 that is set for a square.
pub open spec fn remembered_channel(memory: Recollection, player: Color, square: int) -> int {
    match memory.pieces[square] {
        Some(seen) => 14 + sided_plane(seen.piece, seen.color == player),
        None => 26,
    }
}

/// The piece that the given place in the list of captures stands for.
pub open spec fn counted_piece(place: int) -> Piece {
    if place == 0 {
        Piece::Pawn
    } else if place == 1 {
        Piece::Knight
    } else if place == 2 {
        Piece::Bishop
    } else if place == 3 {
        Piece::Rook
    } else {
        Piece::Queen
    }
}

/// How many pieces of that kind a player starts with.
pub open spec fn full_count(place: int) -> int {
    if place == 0 {
        8
    } else if place == 4 {
        1
    } else {
        2
    }
}

/// The share of the opponent's pieces of a kind that is gone. It is below zero where pawns have
/// become more of them than there were.
pub open spec fn captured_share(position: Position, player: Color, place: int) -> Ratio {
    Ratio {
        num: (full_count(place) - position.count(counted_piece(place), pieces::other(player)))
            as i32,
        den: full_count(place) as u32,
    }
}

/// The feature of a channel in a row. Rows are squares as the player to move counts them.
/// With `oracle` nothing is hidden.
pub open spec fn feature(
    position: Position,
    memory: Recollection,
    oracle: bool,
    row: int,
    channel: int,
) -> Ratio {
    let player = position.side_to_move;
    let square = actions::own_view(player, row);
    if channel < 27 {
        let seen = oracle || visibility::visible(position, player, square);
        indicator(
            channel == observed_channel(position, player, seen, square) || channel
                == remembered_channel(memory, player, square),
        )
    } else if channel == 27 {
        Ratio { num: 1, den: memory::aged(memory.delta_t[square]) }
    } else if channel == 28 {
        indicator(row == 0 && position.castling(player).kingside)
    } else if channel == 29 {
        indicator(row == 1 && position.castling(player).queenside)
    } else {
        captured_share(position, player, channel - 30)
    }
}

/// All features, row by row.
pub open spec fn features(position: Position, memory: Recollection, oracle: bool) -> Seq<Ratio> {
    Seq::new(2240, |i: int| feature(position, memory, oracle, i / 35, i % 35))
}

/// The plane of a piece among twelve: the player's own pieces first.
fn sided_index(piece: Piece, own: bool) -> (index: usize)
    ensures
        index == sided_plane(piece, own),
        index < 12,
{
    if own {
        piece_base_index(piece)
    } else {
        piece_base_index(piece) + 6
    }
}

/// The shares of the opponent's pawns, knights, bishops, rooks and queens that are gone.
pub fn captured_piece_vector(position: &Position, current_player: Color) -> (shares: [Ratio; CPV_LEN])
    ensures
        forall|place: int| #![trigger shares@[place]]
            0 <= place < 5 ==> shares@[place] == captured_share(*position, current_player, place),
{
    let enemy: Color = opposite_color(current_player);
    [
        captured(8, position.count_pieces(Piece::Pawn, enemy)),
        captured(2, position.count_pieces(Piece::Knight, enemy)),
        captured(2, position.count_pieces(Piece::Bishop, enemy)),
        captured(2, position.count_pieces(Piece::Rook, enemy)),
        captured(1, position.count_pieces(Piece::Queen, enemy)),
    ]
}

/// The share that is gone of so many pieces.
fn captured(full: u32, left: u32) -> (share: Ratio)
    requires
        full <= 8,
        left <= 64,
    ensures
        share == (Ratio { num: (full - left) as i32, den: full }),
{
    Ratio { num: full as i32 - left as i32, den: full }
}

/// What is to be encoded before the castling rights: the features of the squares below `done`, and
/// the shares of captured pieces in every row.
spec fn partial(
    position: Position,
    memory: Recollection,
    oracle: bool,
    done: int,
    i: int,
) -> Ratio {
    let row = i / 35;
    let channel = i % 35;
    if channel >= 30 {
        feature(position, memory, oracle, row, channel)
    } else if channel < 28 && actions::own_view(position.side_to_move, row) < done {
        feature(position, memory, oracle, row, channel)
    } else {
        zero()
    }
}

/// Encodes a position for the player to move, who has the given memory. With `oracle` nothing is
/// hidden.
pub fn encode_with_oracle(position: &Position, memory: &MentalBoard, oracle: bool) -> (encoded: Vec<
    Ratio,
>)
    ensures
        encoded@ == features(*position, memory@, oracle),
{
    broadcast use vstd::std_specs::hash::group_hash_axioms;

    let player: Color = position.side_to_move;
    let hidden: Option<HashSet<usize>> = if oracle {
        None
    } else {
        Some(compute_visibility(position, player))
    };
    let mut encoded: Vec<Ratio> = blank_encoding(position, player);
    let mut index: usize = 0;
    assert forall|i: int| 0 <= i < 2240 implies encoded@[i] == partial(
        *position,
        memory@,
        oracle,
        0,
        i,
    ) by {
        squares::mirror_is_an_involution(i / 35);
    }
    while index < BOARD_SQUARES
        invariant
            index <= 64,
            player == position.side_to_move,
            encoded@.len() == 2240,
            oracle == (hidden is None),
            hidden matches Some(seen) ==> forall|square: usize| #![trigger seen@.contains(square)]
                seen@.contains(square) <==> square < 64 && visibility::visible(
                    *position,
                    player,
                    square as int,
                ),
            forall|i: int| #![trigger encoded@[i]]
                0 <= i < 2240 ==> encoded@[i] == partial(
                    *position,
                    memory@,
                    oracle,
                    index as int,
                    i,
                ),
        decreases BOARD_SQUARES - index,
    {
        let row: usize = if player == Color::White {
            index
        } else {
            mirror_index(index)
        };
        let seen: bool = match &hidden {
            Some(set) => set.contains(&index),
            None => true,
        };
        let ghost before = encoded@;
        encode_square(position, memory, player, seen, index, row, &mut encoded);
        proof {
            squares::mirror_is_an_involution(index as int);
            assert forall|i: int| 0 <= i < 2240 implies encoded@[i] == partial(
                *position,
                memory@,
                oracle,
                index + 1,
                i,
            ) by {
                squares::mirror_is_an_involution(i / 35);
                assert(before[i] == partial(*position, memory@, oracle, index as int, i));
            }
        }
        index = index + 1;
    }
    let sides: CastleSides = match player {
        Color::White => position.white_castling,
        Color::Black => position.black_castling,
    };
    if sides.kingside {
        encoded[CASTLING_KS_CHANNEL] = Ratio { num: 1, den: 1 };
    }
    if sides.queenside {
        encoded[ENCODE_CHANNELS + CASTLING_QS_CHANNEL] = Ratio { num: 1, den: 1 };
    }
    assert forall|i: int| 0 <= i < 2240 implies encoded@[i] == features(
        *position,
        memory@,
        oracle,
    )[i] by {
        squares::mirror_is_an_involution(i / 35);
    }
    encoded
}

/// An encoding with the shares of captured pieces in every row, and nothing else.
fn blank_encoding(position: &Position, player: Color) -> (encoded: Vec<Ratio>)
    requires
        player == position.side_to_move,
    ensures
        encoded@.len() == 2240,
        forall|i: int| #![trigger encoded@[i]]
            0 <= i < 2240 ==> encoded@[i] == if i % 35 >= 30 {
                captured_share(*position, player, i % 35 - 30)
            } else {
                zero()
            },
{
    let shares: [Ratio; CPV_LEN] = captured_piece_vector(position, player);
    let mut encoded: Vec<Ratio> = Vec::with_capacity(ENCODE_LEN);
    let mut i: usize = 0;
    while i < ENCODE_LEN
        invariant
            i <= 2240,
            encoded@.len() == i,
            forall|place: int| #![trigger shares@[place]]
                0 <= place < 5 ==> shares@[place] == captured_share(*position, player, place),
            forall|j: int| #![trigger encoded@[j]]
                0 <= j < i ==> encoded@[j] == if j % 35 >= 30 {
                    captured_share(*position, player, j % 35 - 30)
                } else {
                    zero()
                },
        decreases ENCODE_LEN - i,
    {
        let channel: usize = i % ENCODE_CHANNELS;
        if channel >= CPV_OFFSET {
            encoded.push(shares[channel - CPV_OFFSET]);
        } else {
            encoded.push(Ratio { num: 0, den: 1 });
        }
        i = i + 1;
    }
    encoded
}

/// Sets the features of one square in its row: what is seen there, what is remembered and how
/// recently the square was seen.
fn encode_square(
    position: &Position,
    memory: &MentalBoard,
    player: Color,
    seen: bool,
    index: usize,
    row: usize,
    encoded: &mut Vec<Ratio>,
)
    requires
        index < BOARD_SQUARES,
        row < BOARD_SQUARES,
        old(encoded)@.len() == 2240,
    ensures
        final(encoded)@.len() == 2240,
        forall|i: int| #![trigger final(encoded)@[i]]
            0 <= i < 2240 ==> final(encoded)@[i] == if i == row * 35 + 27 {
                Ratio { num: 1, den: memory::aged(memory@.delta_t[index as int]) }
            } else if i == row * 35 + observed_channel(*position, player, seen, index as int) || i
                == row * 35 + remembered_channel(memory@, player, index as int) {
                one()
            } else {
                old(encoded)@[i]
            },
{
    let base: usize = row * ENCODE_CHANNELS;
    let set: Ratio = Ratio { num: 1, den: 1 };
    if !seen {
        encoded[base + OBS_FOG_CHANNEL] = set;
    } else if let Some(piece) = position.piece_on(index) {
        let own: bool = position.color_on(index) == Some(player);
        encoded[base + sided_index(piece, own)] = set;
    } else {
        encoded[base + OBS_EMPTY_CHANNEL] = set;
    }
    match memory.pieces[index] {
        Some(remembered) => {
            let own: bool = remembered.color == player;
            encoded[base + MEMORY_OFFSET + sided_index(remembered.piece, own)] = set;
        },
        None => {
            encoded[base + MEMORY_OFFSET + MEMORY_EMPTY_CHANNEL] = set;
        },
    }
    encoded[base + RECENCY_CHANNEL] = Ratio { num: 1, den: age(memory.delta_t[index]) };
}

} // verus!

//! Pieces and colours.

use vstd::prelude::*;

verus! {

/// A kind of chess piece.
#[derive(Clone, Copy, PartialEq, Eq, Structural, Debug, Hash)]
pub enum Piece {
    Pawn,
    Knight,
    Bishop,
    Rook,
    Queen,
    King,
}

/// One of the two players.
#[derive(Clone, Copy, PartialEq, Eq, Structural, Debug, Hash)]
pub enum Color {
    White,
    Black,
}

/// A piece as a player saw it on a square.
#[derive(Clone, Copy, PartialEq, Eq, Structural, Debug, Hash)]
pub struct SeenPiece {
    pub piece: Piece,
    pub color: Color,
}

/// The plane of a kind of piece among the six planes of one colour.
pub open spec fn piece_plane(piece: Piece) -> int {
    match piece {
        Piece::Pawn => 0,
        Piece::Knight => 1,
        Piece::Bishop => 2,
        Piece::Rook => 3,
        Piece::Queen => 4,
        Piece::King => 5,
    }
}

/// The place of a piece in the order in which promotions are numbered; a pawn never becomes a
/// pawn or a king.
pub open spec fn promotion_rank(piece: Piece) -> Option<int> {
    match piece {
        Piece::Queen => Some(0),
        Piece::Rook => Some(1),
        Piece::Bishop => Some(2),
        Piece::Knight => Some(3),
        Piece::Pawn => None,
        Piece::King => None,
    }
}

/// The other player.
pub open spec fn other(color: Color) -> Color {
    match color {
        Color::White => Color::Black,
        Color::Black => Color::White,
    }
}

/// The plane of a kind of piece among the six planes of one colour.
pub fn piece_base_index(piece: Piece) -> (index: usize)
    ensures
        index == piece_plane(piece),
        index < 6,
{
    match piece {
        Piece::Pawn => 0,
        Piece::Knight => 1,
        Piece::Bishop => 2,
        Piece::Rook => 3,
        Piece::Queen => 4,
        Piece::King => 5,
    }
}

/// The number of a kind of piece in the board matrix, from 1 for the pawn to 6 for the king.
pub fn piece_value(piece: Piece) -> (value: i8)
    ensures
        value == piece_plane(piece) + 1,
{
    match piece {
        Piece::Pawn => 1,
        Piece::Knight => 2,
        Piece::Bishop => 3,
        Piece::Rook => 4,
        Piece::Queen => 5,
        Piece::King => 6,
    }
}

/// The place of a promotion piece: queen, rook, bishop, knight. `None` for any other piece.
pub fn promotion_index(piece: Piece) -> (index: Option<usize>)
    ensures
        match index {
            Some(i) => promotion_rank(piece) == Some(i as int) && i < 4,
            None => promotion_rank(piece) is None,
        },
{
    match piece {
        Piece::Queen => Some(0),
        Piece::Rook => Some(1),
        Piece::Bishop => Some(2),
        Piece::Knight => Some(3),
        _ => None,
    }
}

/// The place of a player in a pair: white first.
pub open spec fn color_place(color: Color) -> int {
    match color {
        Color::White => 0,
        Color::Black => 1,
    }
}

/// The place of a player in a pair: white first.
pub fn color_index(color: Color) -> (index: usize)
    ensures
        index == color_place(color),
        index < 2,
{
    match color {
        Color::White => 0,
        Color::Black => 1,
    }
}

/// The other player.
pub fn opposite_color(color: Color) -> (opposite: Color)
    ensures
        opposite == other(color),
{
    match color {
        Color::White => Color::Black,
        Color::Black => Color::White,
    }
}

} // verus!

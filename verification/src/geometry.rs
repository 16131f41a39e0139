//! How the pieces reach squares.

use vstd::prelude::*;
use crate::{bitboard, squares};
use crate::pieces::{Color, Piece};
use crate::squares::BOARD_SQUARES;

verus! {

/// The absolute value of a number.
pub open spec fn magnitude(x: int) -> int {
    if x < 0 {
        -x
    } else {
        x
    }
}

/// One step in the direction of a number: -1, 0 or 1.
pub open spec fn direction(x: int) -> int {
    if x < 0 {
        -1
    } else if x > 0 {
        1
    } else {
        0
    }
}

/// How many ranks lie between two squares, counted towards the eighth rank.
pub open spec fn ranks_up(from: int, to: int) -> int {
    squares::rank_of(to) - squares::rank_of(from)
}

/// How many files lie between two squares, counted towards the h-file.
pub open spec fn files_right(from: int, to: int) -> int {
    squares::file_of(to) - squares::file_of(from)
}

/// How many steps a king needs from one square to another.
pub open spec fn steps(from: int, to: int) -> int {
    if magnitude(ranks_up(from, to)) > magnitude(files_right(from, to)) {
        magnitude(ranks_up(from, to))
    } else {
        magnitude(files_right(from, to))
    }
}

/// The square that lies `k` steps from `from` in the direction of `to`.
pub open spec fn towards(from: int, to: int, k: int) -> int {
    (squares::rank_of(from) + k * direction(ranks_up(from, to))) * 8 + squares::file_of(from) + k
        * direction(files_right(from, to))
}

/// No square strictly between two squares on one line is blocked.
pub open spec fn path_is_clear(blockers: u64, from: int, to: int) -> bool {
    forall|k: int| 0 < k < steps(from, to) ==> !bitboard::holds(blockers, #[trigger] towards(from, to, k))
}

/// A rook on `from` reaches `to`, the first piece on each line included.
pub open spec fn rook_reaches(blockers: u64, from: int, to: int) -> bool {
    &&& from != to
    &&& ranks_up(from, to) == 0 || files_right(from, to) == 0
    &&& path_is_clear(blockers, from, to)
}

/// A bishop on `from` reaches `to`, the first piece on each diagonal included.
pub open spec fn bishop_reaches(blockers: u64, from: int, to: int) -> bool {
    &&& from != to
    &&& magnitude(ranks_up(from, to)) == magnitude(files_right(from, to))
    &&& path_is_clear(blockers, from, to)
}

/// A knight on `from` reaches `to`.
pub open spec fn knight_reaches(from: int, to: int) -> bool {
    ||| magnitude(ranks_up(from, to)) == 2 && magnitude(files_right(from, to)) == 1
    ||| magnitude(ranks_up(from, to)) == 1 && magnitude(files_right(from, to)) == 2
}

/// A king on `from` reaches `to`.
pub open spec fn king_reaches(from: int, to: int) -> bool {
    steps(from, to) == 1
}

/// The direction in which a player's pawns go.
pub open spec fn forward(color: Color) -> int {
    match color {
        Color::White => 1,
        Color::Black => -1,
    }
}

/// A pawn on `from` may capture on `to`.
pub open spec fn pawn_captures(color: Color, from: int, to: int) -> bool {
    ranks_up(from, to) == forward(color) && magnitude(files_right(from, to)) == 1
}

/// A piece on `from` attacks `to`, whatever stands there.
pub open spec fn attacks(piece: Piece, color: Color, blockers: u64, from: int, to: int) -> bool {
    match piece {
        Piece::Pawn => pawn_captures(color, from, to),
        Piece::Knight => knight_reaches(from, to),
        Piece::Bishop => bishop_reaches(blockers, from, to),
        Piece::Rook => rook_reaches(blockers, from, to),
        Piece::Queen => bishop_reaches(blockers, from, to) || rook_reaches(blockers, from, to),
        Piece::King => king_reaches(from, to),
    }
}

/// Two squares share a rank, a file or a diagonal.
pub open spec fn aligned(a: int, b: int) -> bool {
    &&& a != b
    &&& ranks_up(a, b) == 0 || files_right(a, b) == 0 || diagonal(a, b)
}

/// As many ranks as files lie between two squares.
pub open spec fn diagonal(a: int, b: int) -> bool {
    magnitude(ranks_up(a, b)) == magnitude(files_right(a, b))
}

/// The square lies on the rank, file or diagonal that two others share.
pub open spec fn on_line(a: int, b: int, square: int) -> bool {
    &&& aligned(a, b)
    &&& if diagonal(a, b) {
        diagonal(a, square) && diagonal(b, square)
    } else if ranks_up(a, b) == 0 {
        ranks_up(a, square) == 0
    } else {
        files_right(a, square) == 0
    }
}

/// The square lies strictly between two others on the line that they share.
pub open spec fn between(a: int, b: int, square: int) -> bool {
    &&& on_line(a, b, square)
    &&& square != a
    &&& square != b
    &&& steps(a, square) + steps(square, b) == steps(a, b)
}

/// Counts the ranks between two squares, towards the eighth rank.
pub fn count_ranks_up(from: usize, to: usize) -> (ranks: i32)
    requires
        from < BOARD_SQUARES,
        to < BOARD_SQUARES,
    ensures
        ranks == ranks_up(from as int, to as int),
        -8 < ranks < 8,
{
    (to / 8) as i32 - (from / 8) as i32
}

/// Counts the files between two squares, towards the h-file.
pub fn count_files_right(from: usize, to: usize) -> (files: i32)
    requires
        from < BOARD_SQUARES,
        to < BOARD_SQUARES,
    ensures
        files == files_right(from as int, to as int),
        -8 < files < 8,
{
    (to % 8) as i32 - (from % 8) as i32
}

/// The absolute value of a small number.
fn absolute(x: i32) -> (size: i32)
    requires
        -8 < x < 8,
    ensures
        size == magnitude(x as int),
        0 <= size < 8,
{
    if x < 0 {
        -x
    } else {
        x
    }
}

/// Counts the steps of a king from one square to another.
pub fn count_steps(from: usize, to: usize) -> (count: i32)
    requires
        from < BOARD_SQUARES,
        to < BOARD_SQUARES,
    ensures
        count == steps(from as int, to as int),
        0 <= count < 8,
{
    let ranks: i32 = absolute(count_ranks_up(from, to));
    let files: i32 = absolute(count_files_right(from, to));
    if ranks > files {
        ranks
    } else {
        files
    }
}

/// Tells whether two squares share a diagonal, or are one.
fn on_diagonal(a: usize, b: usize) -> (shared: bool)
    requires
        a < BOARD_SQUARES,
        b < BOARD_SQUARES,
    ensures
        shared == diagonal(a as int, b as int),
{
    absolute(count_ranks_up(a, b)) == absolute(count_files_right(a, b))
}

/// Tells whether a square lies on the line that two others share.
pub fn is_on_line(a: usize, b: usize, square: usize) -> (found: bool)
    requires
        a < BOARD_SQUARES,
        b < BOARD_SQUARES,
        square < BOARD_SQUARES,
    ensures
        found == on_line(a as int, b as int, square as int),
{
    if a == b {
        false
    } else if on_diagonal(a, b) {
        on_diagonal(a, square) && on_diagonal(b, square)
    } else if count_ranks_up(a, b) == 0 {
        count_ranks_up(a, square) == 0
    } else {
        count_files_right(a, b) == 0 && count_files_right(a, square) == 0
    }
}

/// Tells whether a square lies strictly between two others on the line that they share.
pub fn is_between(a: usize, b: usize, square: usize) -> (found: bool)
    requires
        a < BOARD_SQUARES,
        b < BOARD_SQUARES,
        square < BOARD_SQUARES,
    ensures
        found == between(a as int, b as int, square as int),
{
    is_on_line(a, b, square) && square != a && square != b && count_steps(a, square) + count_steps(
        square,
        b,
    ) == count_steps(a, b)
}

} // verus!

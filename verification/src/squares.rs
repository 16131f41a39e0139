//! Squares of the board, numbered rank by rank from a1 (0) to h8 (63).

use vstd::prelude::*;

verus! {

/// How many squares the board has.
pub const BOARD_SQUARES: usize = 64;

/// A square of the board.
#[derive(Clone, Copy, PartialEq, Eq, Structural, Debug, Hash)]
pub struct Square {
    /// The number of the square: eight times its rank plus its file, both counted from zero.
    pub index: u8,
}

impl Square {
    /// The square lies on the board.
    pub open spec fn wf(self) -> bool {
        self.index < 64
    }
}

/// The rank of a square, 0 for the first rank and 7 for the eighth.
pub open spec fn rank_of(square: int) -> int {
    square / 8
}

/// The file of a square, 0 for the a-file and 7 for the h-file.
pub open spec fn file_of(square: int) -> int {
    square % 8
}

/// The number is that of a square.
pub open spec fn on_board(square: int) -> bool {
    0 <= square < 64
}

/// The square on the same file with the ranks counted from the other side.
pub open spec fn mirror(square: int) -> int {
    (7 - rank_of(square)) * 8 + file_of(square)
}

/// The square with the given number.
pub fn square_from_index(index: usize) -> (square: Square)
    requires
        index < BOARD_SQUARES,
    ensures
        square.wf(),
        square.index == index,
{
    Square { index: index as u8 }
}

/// The number of a square.
pub fn square_index(square: Square) -> (index: usize)
    ensures
        index == square.index,
{
    square.index as usize
}

/// Flips the rank of a square number.
pub fn mirror_index(index: usize) -> (mirrored: usize)
    ensures
        mirrored == index ^ 56,
        index < BOARD_SQUARES ==> mirrored == mirror(index as int) && mirrored < BOARD_SQUARES,
{
    proof {
        assert(index < 64 ==> (index ^ 56) == (7 - index / 8) * 8 + index % 8) by (bit_vector);
    }
    index ^ 56
}

/// Flips the rank of a square.
pub fn mirror_square(square: Square) -> (mirrored: Square)
    requires
        square.wf(),
    ensures
        mirrored.wf(),
        mirrored.index == mirror(square.index as int),
{
    square_from_index(mirror_index(square_index(square)))
}

/// Mirroring stays on the board, keeps the file, flips the rank, and undoes itself.
pub proof fn mirror_is_an_involution(square: int)
    requires
        on_board(square),
    ensures
        on_board(mirror(square)),
        mirror(mirror(square)) == square,
        file_of(mirror(square)) == file_of(square),
        rank_of(mirror(square)) == 7 - rank_of(square),
{
}

} // verus!

//! Sets of squares held in the bits of a `u64`, bit `i` standing for square `i`.

use vstd::prelude::*;
use crate::squares::BOARD_SQUARES;

verus! {

/// The square belongs to the set.
pub open spec fn holds(mask: u64, square: int) -> bool {
    mask & (1u64 << square) != 0
}

/// The squares of the set.
pub open spec fn squares_of(mask: u64) -> Set<int> {
    Set::new(|square: int| 0 <= square < 64 && holds(mask, square))
}

/// How many squares the set holds.
pub open spec fn size(mask: u64) -> nat {
    squares_of(mask).len()
}

/// Tells whether the square belongs to the set.
pub fn has_square(mask: u64, square: usize) -> (found: bool)
    requires
        square < BOARD_SQUARES,
    ensures
        found == holds(mask, square as int),
{
    mask & (1u64 << square) != 0
}

/// Counts the squares of the set.
pub fn count_squares(mask: u64) -> (count: u32)
    ensures
        count == size(mask),
        count <= 64,
{
    let mut count: u32 = 0;
    let mut square: usize = 0;
    let ghost mut seen: Set<int> = Set::empty();
    while square < BOARD_SQUARES
        invariant
            square <= 64,
            count <= square,
            count == seen.len(),
            seen.finite(),
            forall|i: int| seen.contains(i) <==> 0 <= i < square && holds(mask, i),
        decreases BOARD_SQUARES - square,
    {
        if has_square(mask, square) {
            count = count + 1;
            proof {
                seen = seen.insert(square as int);
            }
        }
        square = square + 1;
    }
    assert(seen =~= squares_of(mask));
    count
}

/// A set holds no more than the 64 squares of the board.
pub proof fn lemma_size(mask: u64)
    ensures
        squares_of(mask).finite(),
        size(mask) <= 64,
{
    vstd::set_lib::lemma_int_range(0, 64);
    vstd::set_lib::lemma_len_subset(squares_of(mask), vstd::set_lib::set_int_range(0, 64));
}

/// A set with a square is not the empty mask, and the other way round.
pub proof fn lemma_nonempty(mask: u64)
    ensures
        mask != 0 <==> exists|square: int| 0 <= square < 64 && holds(mask, square),
{
    if mask != 0 {
        let last: u64 = vstd::std_specs::bits::u64_trailing_zeros(mask) as u64;
        vstd::std_specs::bits::axiom_u64_trailing_zeros(mask);
        assert(mask & (1u64 << last) != 0) by (bit_vector)
            requires
                (mask >> last) & 1u64 == 1u64,
                last < 64,
        ;
        assert(holds(mask, last as int));
    } else {
        assert forall|square: int| 0 <= square < 64 implies !holds(mask, square) by {
            let s: u64 = square as u64;
            assert(0u64 & (1u64 << s) == 0) by (bit_vector);
        }
    }
}

/// Membership in an intersection.
pub proof fn lemma_and(a: u64, b: u64, square: int)
    requires
        0 <= square < 64,
    ensures
        holds(a & b, square) == (holds(a, square) && holds(b, square)),
{
    let s: u64 = square as u64;
    assert(((a & b) & (1u64 << s) != 0) == ((a & (1u64 << s) != 0) && (b & (1u64 << s) != 0)))
        by (bit_vector)
        requires
            s < 64,
    ;
}

/// Membership in a union.
pub proof fn lemma_or(a: u64, b: u64, square: int)
    requires
        0 <= square < 64,
    ensures
        holds(a | b, square) == (holds(a, square) || holds(b, square)),
{
    let s: u64 = square as u64;
    assert(((a | b) & (1u64 << s) != 0) == ((a & (1u64 << s) != 0) || (b & (1u64 << s) != 0)))
        by (bit_vector);
}

/// Membership in a symmetric difference.
pub proof fn lemma_xor(a: u64, b: u64, square: int)
    requires
        0 <= square < 64,
    ensures
        holds(a ^ b, square) == (holds(a, square) != holds(b, square)),
{
    let s: u64 = square as u64;
    assert(((a ^ b) & (1u64 << s) != 0) == ((a & (1u64 << s) != 0) != (b & (1u64 << s) != 0)))
        by (bit_vector)
        requires
            s < 64,
    ;
}

/// The full mask holds every square.
pub proof fn lemma_full(square: int)
    requires
        0 <= square < 64,
    ensures
        holds(!0u64, square),
{
    let s: u64 = square as u64;
    assert((!0u64) & (1u64 << s) != 0) by (bit_vector)
        requires
            s < 64,
    ;
}

} // verus!

//! What a player remembers of the board: the piece last seen on each square, and how long ago.

use vstd::prelude::*;
use crate::visibility;
use crate::pieces::{Color, SeenPiece};
use crate::position::Position;
use crate::squares::BOARD_SQUARES;
use crate::visibility::compute_visibility;
use std::collections::HashSet;

verus! {

/// How long ago a square counts as seen before the player has looked at it.
pub const INITIAL_DELTA_T: u32 = 100;

/// The longest time that is told apart: times are counted in steps of one in single precision,
/// where this number plus one is this number again.
pub const DELTA_T_LIMIT: u32 = 16_777_216;

/// What a player remembers, as sequences.
#[verifier::ext_equal]
pub struct Recollection {
    pub pieces: Seq<Option<SeenPiece>>,
    pub delta_t: Seq<u32>,
}

/// What a player remembers: for each square the piece last seen there and the number of own turns
/// since the square was last seen.
#[derive(Clone, Copy, Debug)]
pub struct MentalBoard {
    pub pieces: [Option<SeenPiece>; 64],
    pub delta_t: [u32; 64],
}

impl View for MentalBoard {
    type V = Recollection;

    open spec fn view(&self) -> Recollection {
        Recollection { pieces: self.pieces@, delta_t: self.delta_t@ }
    }
}

/// The time after one more turn.
pub open spec fn aged(delta_t: u32) -> u32 {
    if delta_t < DELTA_T_LIMIT {
        (delta_t + 1) as u32
    } else {
        delta_t
    }
}

impl Recollection {
    /// There is an entry for each square, and no time exceeds the limit.
    pub open spec fn wf(self) -> bool {
        &&& self.pieces.len() == 64
        &&& self.delta_t.len() == 64
        &&& forall|square: int| #![trigger self.delta_t[square]]
            0 <= square < 64 ==> self.delta_t[square] <= DELTA_T_LIMIT
    }

    /// The memory of somebody who has not looked yet.
    pub open spec fn blank() -> Recollection {
        Recollection {
            pieces: Seq::new(64, |square: int| None),
            delta_t: Seq::new(64, |square: int| INITIAL_DELTA_T),
        }
    }

    /// The memory after the player has looked at the board: what is seen is remembered as it
    /// stands and as seen just now, all else is as it was and one turn older.
    pub open spec fn after_looking(self, position: Position, player: Color) -> Recollection {
        Recollection {
            pieces: Seq::new(
                64,
                |square: int|
                    if visibility::visible(position, player, square) {
                        position.seen_at(square)
                    } else {
                        self.pieces[square]
                    },
            ),
            delta_t: Seq::new(
                64,
                |square: int|
                    if visibility::visible(position, player, square) {
                        0
                    } else {
                        aged(self.delta_t[square])
                    },
            ),
        }
    }

    /// The memory is that of a player who has just looked at the board: what can be seen is
    /// remembered as it stands, and all else was last seen at least a turn ago.
    pub open spec fn up_to_date(self, position: Position, player: Color) -> bool {
        forall|square: int| #![trigger self.delta_t[square]]
            0 <= square < 64 ==> {
                &&& visibility::visible(position, player, square) <==> self.delta_t[square] == 0
                &&& visibility::visible(position, player, square) ==> self.pieces[square]
                    == position.seen_at(square)
            }
    }
}

/// The time after one more turn.
pub fn age(delta_t: u32) -> (older: u32)
    ensures
        older == aged(delta_t),
{
    if delta_t < DELTA_T_LIMIT {
        delta_t + 1
    } else {
        delta_t
    }
}

impl MentalBoard {
    /// The memory of somebody who has not looked yet.
    pub fn new() -> (memory: MentalBoard)
        ensures
            memory@ == Recollection::blank(),
            memory@.wf(),
    {
        MentalBoard { pieces: [None; 64], delta_t: [INITIAL_DELTA_T; 64] }
    }

    /// Takes in what the player sees on the board.
    pub fn look(&mut self, position: &Position, player: Color)
        ensures
            final(self)@ == old(self)@.after_looking(*position, player),
    {
        broadcast use vstd::std_specs::hash::group_hash_axioms;

        let seen: HashSet<usize> = compute_visibility(position, player);
        let mut index: usize = 0;
        while index < BOARD_SQUARES
            invariant
                index <= 64,
                forall|square: usize| #![trigger seen@.contains(square)]
                    seen@.contains(square) <==> square < 64 && visibility::visible(
                        *position,
                        player,
                        square as int,
                    ),
                forall|square: int| #![trigger self.pieces@[square]]
                    0 <= square < 64 ==> self.pieces@[square] == if square < index {
                        old(self)@.after_looking(*position, player).pieces[square]
                    } else {
                        old(self)@.pieces[square]
                    },
                forall|square: int| #![trigger self.delta_t@[square]]
                    0 <= square < 64 ==> self.delta_t@[square] == if square < index {
                        old(self)@.after_looking(*position, player).delta_t[square]
                    } else {
                        old(self)@.delta_t[square]
                    },
            decreases BOARD_SQUARES - index,
        {
            if seen.contains(&index) {
                self.pieces[index] = position.seen_on(index);
                self.delta_t[index] = 0;
            } else {
                self.delta_t[index] = age(self.delta_t[index]);
            }
            index = index + 1;
        }
    }
}

/// Looking keeps a memory well formed and brings it up to date.
pub proof fn looking_brings_up_to_date(memory: Recollection, position: Position, player: Color)
    requires
        memory.wf(),
    ensures
        memory.after_looking(position, player).wf(),
        memory.after_looking(position, player).up_to_date(position, player),
{
}

/// Looking again at an unchanged board changes nothing but the time since unseen squares were
/// seen.
pub proof fn looking_again_only_ages(memory: Recollection, position: Position, player: Color)
    requires
        memory.wf(),
        memory.up_to_date(position, player),
    ensures
        memory.after_looking(position, player).pieces == memory.pieces,
        forall|square: int| #![trigger memory.delta_t[square]]
            0 <= square < 64 ==> memory.after_looking(position, player).delta_t[square]
                == if memory.delta_t[square] == 0 {
                0
            } else {
                aged(memory.delta_t[square])
            },
{
    assert forall|square: int| 0 <= square < 64 implies memory.after_looking(
        position,
        player,
    ).pieces[square] == memory.pieces[square] by {
        assert(memory.delta_t[square] <= DELTA_T_LIMIT);
    }
}

/// The memory of a player who has looked at the positions one after the other.
pub open spec fn after_looks(positions: Seq<Position>, player: Color) -> Recollection
    decreases positions.len(),
{
    if positions.len() == 0 {
        Recollection::blank()
    } else {
        after_looks(positions.drop_last(), player).after_looking(positions.last(), player)
    }
}

/// The number, or the longest time that is told apart.
pub open spec fn capped(time: int) -> int {
    if time < DELTA_T_LIMIT {
        time
    } else {
        DELTA_T_LIMIT as int
    }
}

/// What a player remembers of a square is what stood there when it was last seen, and how many
/// looks ago that was.
pub proof fn memory_holds_what_was_last_seen(
    positions: Seq<Position>,
    player: Color,
    square: int,
    last: int,
)
    requires
        0 <= square < 64,
        0 <= last < positions.len(),
        visibility::visible(positions[last], player, square),
        forall|later: int| #![trigger positions[later]]
            last < later < positions.len() ==> !visibility::visible(
                positions[later],
                player,
                square,
            ),
    ensures
        after_looks(positions, player).pieces[square] == positions[last].seen_at(square),
        after_looks(positions, player).delta_t[square] == capped(positions.len() - 1 - last),
    decreases positions.len(),
{
    let before = positions.drop_last();
    if last < before.len() {
        assert(positions.last() == positions[positions.len() - 1]);
        assert forall|later: int| #![trigger before[later]]
            last < later < before.len() implies !visibility::visible(before[later], player, square) by {
            assert(before[later] == positions[later]);
        }
        memory_holds_what_was_last_seen(before, player, square, last);
    }
}

/// Of a square that was never seen a player remembers nothing; it counts as seen a hundred looks
/// before the first.
pub proof fn what_was_never_seen_is_not_remembered(
    positions: Seq<Position>,
    player: Color,
    square: int,
)
    requires
        0 <= square < 64,
        forall|i: int| #![trigger positions[i]]
            0 <= i < positions.len() ==> !visibility::visible(positions[i], player, square),
    ensures
        after_looks(positions, player).pieces[square] is None,
        after_looks(positions, player).delta_t[square] == capped(100int + positions.len()),
    decreases positions.len(),
{
    if positions.len() > 0 {
        let before = positions.drop_last();
        assert(positions.last() == positions[positions.len() - 1]);
        assert forall|i: int| #![trigger before[i]] 0 <= i
            < before.len() implies !visibility::visible(before[i], player, square) by {
            assert(before[i] == positions[i]);
        }
        what_was_never_seen_is_not_remembered(before, player, square);
    }
}

} // verus!

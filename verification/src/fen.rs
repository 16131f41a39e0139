//! A first look at a position that a text describes: whether the player to move has a king.

use vstd::prelude::*;
use crate::{engine, squares};
use crate::engine::{builder_piece, builder_side};
use crate::pieces::{Color, Piece, SeenPiece};
use crate::position::{CastleSides, Position};
use crate::squares::{BOARD_SQUARES, Square};

verus! {

/// What a text says of a position, before anybody has asked whether it makes sense.
#[verifier::ext_equal]
pub struct Setup {
    pub men: Seq<Option<SeenPiece>>,
    pub side_to_move: Color,
    pub white_castling: CastleSides,
    pub black_castling: CastleSides,
    /// The square of a pawn that has just come two squares.
    pub en_passant: Option<Square>,
}

impl Setup {
    /// A king of the player to move stands on the square.
    pub open spec fn mover_king_at(self, square: int) -> bool {
        self.men[square] == Some(SeenPiece { piece: Piece::King, color: self.side_to_move })
    }

    /// The player to move has a king.
    pub open spec fn mover_has_king(self) -> bool {
        exists|square: int| squares::on_board(square) && #[trigger] self.mover_king_at(square)
    }

    /// The position is the one that was set up. A pawn that has come two squares is left out where
    /// none can take it in passing.
    pub open spec fn shown_by(self, position: Position) -> bool {
        &&& forall|square: int| #![trigger position.seen_at(square)]
            squares::on_board(square) ==> position.seen_at(square) == self.men[square]
        &&& position.side_to_move == self.side_to_move
        &&& position.white_castling == self.white_castling
        &&& position.black_castling == self.black_castling
        &&& position.en_passant is Some ==> position.en_passant == self.en_passant
    }
}

/// Tells whether the player to move has a king.
pub fn gives_mover_a_king(builder: &chess::BoardBuilder) -> (given: bool)
    ensures
        given == engine::builder_setup(*builder).mover_has_king(),
{
    let side: Color = builder_side(builder);
    let mut square: usize = 0;
    while square < BOARD_SQUARES
        invariant
            square <= 64,
            side == engine::builder_setup(*builder).side_to_move,
            forall|s: int|
                0 <= s < square ==> !#[trigger] engine::builder_setup(*builder).mover_king_at(s),
        decreases BOARD_SQUARES - square,
    {
        if let Some(man) = builder_piece(builder, square) {
            if man.piece == Piece::King && man.color == side {
                assert(engine::builder_setup(*builder).mover_king_at(square as int));
                return true;
            }
        }
        square = square + 1;
    }
    false
}

/// The player to move has a king exactly where a king of that player's colour is set up on some
/// square of the board.
pub proof fn kings_are_looked_for_everywhere(setup: Setup)
    ensures
        setup.mover_has_king() <==> exists|square: int|
            0 <= square < 64 && (#[trigger] setup.men[square]) is Some
                && setup.men[square]->0.piece == Piece::King && setup.men[square]->0.color
                == setup.side_to_move,
{
    if setup.mover_has_king() {
        let square = choose|square: int|
            squares::on_board(square) && #[trigger] setup.mover_king_at(square);
        assert(setup.men[square] is Some);
    }
    if exists|square: int|
        0 <= square < 64 && (#[trigger] setup.men[square]) is Some && setup.men[square]->0.piece
            == Piece::King && setup.men[square]->0.color == setup.side_to_move {
        let square = choose|square: int|
            0 <= square < 64 && (#[trigger] setup.men[square]) is Some
                && setup.men[square]->0.piece == Piece::King && setup.men[square]->0.color
                == setup.side_to_move;
        assert(setup.mover_king_at(square));
    }
}

} // verus!

//! Boards in order: positions that make sense, and what legal play keeps.

use vstd::prelude::*;
use crate::{bitboard, geometry, pieces, squares, visibility};
use crate::actions::ChessMove;
use crate::pieces::{Color, Piece};
use crate::position::{BoardState, Position};
use crate::squares::Square;

verus! {

/// The square on which a player's king starts.
pub open spec fn king_home(player: Color) -> int {
    match player {
        Color::White => 4,
        Color::Black => 60,
    }
}

impl Position {
    /// The masks show no piece and no colour on the square, or one of each.
    pub open spec fn tidy_at(self, square: int) -> bool {
        &&& bitboard::holds(self.occupied, square) <==> exists|piece: Piece|
            bitboard::holds(#[trigger] self.pieces(piece), square)
        &&& forall|one: Piece, two: Piece|
            bitboard::holds(#[trigger] self.pieces(one), square) && bitboard::holds(
                #[trigger] self.pieces(two),
                square,
            ) ==> one == two
        &&& bitboard::holds(self.occupied, square) <==> bitboard::holds(self.white, square)
            || bitboard::holds(self.black, square)
        &&& !(bitboard::holds(self.white, square) && bitboard::holds(self.black, square))
    }

    /// The masks fit together on every square.
    pub open spec fn tidy(self) -> bool {
        forall|square: int| #![trigger bitboard::holds(self.occupied, square)]
            squares::on_board(square) ==> self.tidy_at(square)
    }

    /// A piece of the player's, of the given kind and on the given square, attacks `to`.
    pub open spec fn attacked_by(self, player: Color, piece: Piece, from: int, to: int) -> bool {
        &&& bitboard::holds(self.pieces(piece), from)
        &&& bitboard::holds(self.men(player), from)
        &&& geometry::attacks(piece, player, self.occupied, from, to)
    }

    /// A king of the player's is attacked.
    pub open spec fn in_check(self, player: Color) -> bool {
        exists|piece: Piece, from: int, king: int|
            squares::on_board(from) && squares::on_board(king) && self.king_at(player, king)
                && #[trigger] self.attacked_by(pieces::other(player), piece, from, king)
    }

    /// A player who may still castle has no king but on the square where it started, and a rook in
    /// the corner of each side on which castling is open.
    pub open spec fn castles_from_home(self, player: Color) -> bool {
        let home = king_home(player);
        let sides = self.castling(player);
        &&& sides.kingside || sides.queenside ==> forall|square: int|
            squares::on_board(square) && #[trigger] self.king_at(player, square) ==> square == home
        &&& sides.kingside ==> bitboard::holds(self.rooks, home + 3) && bitboard::holds(
            self.men(player),
            home + 3,
        )
        &&& sides.queenside ==> bitboard::holds(self.rooks, home - 4) && bitboard::holds(
            self.men(player),
            home - 4,
        )
    }

    /// The position makes sense: the masks fit together, both players have one king, the player
    /// who has just moved is not in check, and castling rights agree with where kings and rooks
    /// stand.
    pub open spec fn sane(self) -> bool {
        &&& self.tidy()
        &&& self.has_king(Color::White)
        &&& self.has_king(Color::Black)
        &&& self.count(Piece::King, Color::White) == 1
        &&& self.count(Piece::King, Color::Black) == 1
        &&& !self.in_check(pieces::other(self.side_to_move))
        &&& self.castles_from_home(Color::White)
        &&& self.castles_from_home(Color::Black)
    }

    /// A pawn that may be taken in passing has just come two squares: it stands on its fourth rank
    /// with nothing on the square behind it, and no other pawn and no knight gives check.
    pub open spec fn passed_in_order(self) -> bool {
        let rival = pieces::other(self.side_to_move);
        self.en_passant matches Some(pawn) ==> {
            &&& squares::rank_of(pawn.index as int) == visibility::pawn_start(rival) + 2
                * geometry::forward(rival)
            &&& bitboard::holds(self.pawns, pawn.index as int)
            &&& bitboard::holds(self.men(rival), pawn.index as int)
            &&& !bitboard::holds(self.occupied, pawn.index - 8 * geometry::forward(rival))
            &&& forall|piece: Piece, from: int, king: int|
                squares::on_board(from) && squares::on_board(king) && self.king_at(
                    self.side_to_move,
                    king,
                ) && #[trigger] self.attacked_by(rival, piece, from, king) && (piece == Piece::Pawn
                    || piece == Piece::Knight) ==> from == pawn.index
        }
    }

    /// The move is one of a piece of the given kind of the player to move, and reaches a square
    /// that is not empty only as that piece attacks.
    pub open spec fn made_by(self, action: ChessMove, piece: Piece) -> bool {
        &&& bitboard::holds(self.pieces(piece), action.source.index as int)
        &&& bitboard::holds(self.men(self.side_to_move), action.source.index as int)
        &&& bitboard::holds(self.occupied, action.dest.index as int) ==> geometry::attacks(
            piece,
            self.side_to_move,
            self.occupied,
            action.source.index as int,
            action.dest.index as int,
        )
    }
}

impl BoardState {
    /// A man on the square gives check to the player to move.
    pub open spec fn gives_check(self, from: int) -> bool {
        let side = self.position.side_to_move;
        exists|piece: Piece, king: int|
            squares::on_board(king) && self.position.king_at(side, king)
                && #[trigger] self.position.attacked_by(pieces::other(side), piece, from, king)
    }

    /// A man of the opponent's, of the given kind and on `from`, would give check to the king of
    /// the player to move if the square were empty, and does not as it stands.
    pub open spec fn held_off(self, square: int, piece: Piece, from: int, king: int) -> bool {
        let position = self.position;
        let rival = pieces::other(position.side_to_move);
        &&& position.king_at(position.side_to_move, king)
        &&& bitboard::holds(position.pieces(piece), from)
        &&& bitboard::holds(position.men(rival), from)
        &&& !geometry::attacks(piece, rival, position.occupied, from, king)
        &&& geometry::attacks(piece, rival, position.occupied ^ (1u64 << square), from, king)
    }

    /// What stands on the square is all that keeps the player to move out of a check.
    pub open spec fn is_pinned(self, square: int) -> bool {
        &&& bitboard::holds(self.position.occupied, square)
        &&& exists|piece: Piece, from: int, king: int|
            squares::on_board(from) && squares::on_board(king) && #[trigger] self.held_off(
                square,
                piece,
                from,
                king,
            )
    }

    /// The pinned and the checking pieces are those of the position.
    pub open spec fn informed(self) -> bool {
        &&& forall|square: int| #![trigger bitboard::holds(self.checkers, square)]
            squares::on_board(square) ==> bitboard::holds(self.checkers, square)
                == self.gives_check(square)
        &&& forall|square: int| #![trigger bitboard::holds(self.pinned, square)]
            squares::on_board(square) ==> bitboard::holds(self.pinned, square) == self.is_pinned(
                square,
            )
    }

    /// The board is one that legal play comes to: the position makes sense, the board knows its
    /// pinned and checking pieces, and a pawn that may be taken in passing has just moved.
    pub open spec fn regular(self) -> bool {
        &&& self.position.sane()
        &&& self.informed()
        &&& self.position.passed_in_order()
    }

    /// The board is one that legal play comes to, and neither player has more than sixteen men.
    pub open spec fn lawful(self) -> bool {
        &&& self.regular()
        &&& bitboard::size(self.position.white) <= 16
        &&& bitboard::size(self.position.black) <= 16
    }
}

/// Where a position makes sense, a move that goes as pieces go can be carried out: it takes no king.
pub proof fn lemma_made_moves_are_playable(position: Position, action: ChessMove, piece: Piece)
    requires
        position.sane(),
        action.wf(),
        position.made_by(action, piece),
    ensures
        position.playable(action),
{
    let source = action.source.index as int;
    let dest = action.dest.index as int;
    let mover = position.side_to_move;
    let rival = pieces::other(mover);
    assert(position.has_king(rival));
    let king = choose|square: int|
        squares::on_board(square) && #[trigger] position.king_at(rival, square);
    assert(bitboard::holds(position.pieces(piece), source));
    assert(bitboard::holds(position.occupied, source));
    assert(bitboard::holds(position.occupied, king) && king != source) by {
        assert(bitboard::holds(position.pieces(Piece::King), king));
    }
    if king == dest {
        assert(position.attacked_by(mover, piece, source, king));
        assert(pieces::other(rival) == mover);
        assert(position.king_at(rival, king));
        assert(position.in_check(rival));
    }
    let king_flips = position.king_flips(action);
    let capture_flips = position.capture_flips(action);
    lemma_other_square(action.source, king);
    lemma_other_square(action.dest, king);
    bitboard::lemma_nonempty(0);
    assert(!bitboard::holds(0, king));
    bitboard::lemma_xor(crate::position::square_mask(action.source), crate::position::square_mask(action.dest), king);
    let moved = if position.piece_at(source) == Some(Piece::King) {
        crate::position::square_mask(action.source) ^ crate::position::square_mask(action.dest)
    } else {
        0
    };
    let captured = if position.piece_at(dest) == Some(Piece::King) {
        crate::position::square_mask(action.dest)
    } else {
        0
    };
    bitboard::lemma_xor(moved, captured, king);
    assert(king_flips == moved ^ captured);
    assert(!bitboard::holds(king_flips, king));
    assert(!bitboard::holds(capture_flips, king));
    bitboard::lemma_xor(position.kings, king_flips, king);
    bitboard::lemma_xor(position.men(rival), capture_flips, king);
    let left = (position.kings ^ king_flips) & (position.men(rival) ^ capture_flips);
    bitboard::lemma_and(position.kings ^ king_flips, position.men(rival) ^ capture_flips, king);
    assert(bitboard::holds(left, king));
    bitboard::lemma_nonempty(left);
}

/// The mask of one square holds no other.
proof fn lemma_other_square(square: Square, other: int)
    requires
        square.wf(),
        0 <= other < 64,
        other != square.index,
    ensures
        !bitboard::holds(crate::position::square_mask(square), other),
{
    let s: u8 = square.index;
    let t: u64 = other as u64;
    assert((1u64 << s) & (1u64 << t) == 0) by (bit_vector)
        requires
            s < 64,
            t < 64,
            s as u64 != t,
    ;
}

/// The masks of the position in which a game starts, square by square.
proof fn lemma_initial_masks(square: int)
    requires
        squares::on_board(square),
    ensures
        ({
            let position = crate::position::initial_state().position;
            let pawn = bitboard::holds(position.pawns, square);
            let knight = bitboard::holds(position.knights, square);
            let bishop = bitboard::holds(position.bishops, square);
            let rook = bitboard::holds(position.rooks, square);
            let queen = bitboard::holds(position.queens, square);
            let king = bitboard::holds(position.kings, square);
            let rank = squares::rank_of(square);
            &&& pawn == (rank == 1 || rank == 6)
            &&& knight == (square == 1 || square == 6 || square == 57 || square == 62)
            &&& bishop == (square == 2 || square == 5 || square == 58 || square == 61)
            &&& rook == (square == 0 || square == 7 || square == 56 || square == 63)
            &&& queen == (square == 3 || square == 59)
            &&& king == (square == 4 || square == 60)
            &&& bitboard::holds(position.white, square) == (rank <= 1)
            &&& bitboard::holds(position.black, square) == (rank >= 6)
            &&& bitboard::holds(position.occupied, square) == (rank <= 1 || rank >= 6)
        }),
{
    let s: u64 = square as u64;
    let bit: u64 = 1u64 << s;
    assert({
        &&& (0x00ff_0000_0000_ff00u64 & bit != 0) == (8 <= s < 16 || 48 <= s < 56)
        &&& (0x4200_0000_0000_0042u64 & bit != 0) == (s == 1 || s == 6 || s == 57 || s == 62)
        &&& (0x2400_0000_0000_0024u64 & bit != 0) == (s == 2 || s == 5 || s == 58 || s == 61)
        &&& (0x8100_0000_0000_0081u64 & bit != 0) == (s == 0 || s == 7 || s == 56 || s == 63)
        &&& (0x0800_0000_0000_0008u64 & bit != 0) == (s == 3 || s == 59)
        &&& (0x1000_0000_0000_0010u64 & bit != 0) == (s == 4 || s == 60)
        &&& (0x0000_0000_0000_ffffu64 & bit != 0) == (s < 16)
        &&& (0xffff_0000_0000_0000u64 & bit != 0) == (s >= 48)
        &&& (0xffff_0000_0000_ffffu64 & bit != 0) == (s < 16 || s >= 48)
    }) by (bit_vector)
        requires
            s < 64,
            bit == 1u64 << s,
    ;
}

/// How many men and how many kings the players start with.
proof fn lemma_initial_counts()
    ensures
        ({
            let position = crate::position::initial_state().position;
            &&& bitboard::size(position.white) == 16
            &&& bitboard::size(position.black) == 16
            &&& position.count(Piece::King, Color::White) == 1
            &&& position.count(Piece::King, Color::Black) == 1
        }),
{
    let position = crate::position::initial_state().position;
    let white_king = position.kings & position.white;
    let black_king = position.kings & position.black;
    assert forall|square: int| squares::on_board(square) implies #[trigger] bitboard::holds(
        position.white,
        square,
    ) == (square < 16) by {
        lemma_initial_masks(square);
    }
    assert forall|square: int| squares::on_board(square) implies #[trigger] bitboard::holds(
        position.black,
        square,
    ) == (square >= 48) by {
        lemma_initial_masks(square);
    }
    assert forall|square: int| squares::on_board(square) implies #[trigger] bitboard::holds(
        white_king,
        square,
    ) == (square == 4) by {
        lemma_initial_masks(square);
        bitboard::lemma_and(position.kings, position.white, square);
    }
    assert forall|square: int| squares::on_board(square) implies #[trigger] bitboard::holds(
        black_king,
        square,
    ) == (square == 60) by {
        lemma_initial_masks(square);
        bitboard::lemma_and(position.kings, position.black, square);
    }
    vstd::set_lib::lemma_int_range(0, 16);
    vstd::set_lib::lemma_int_range(48, 64);
    assert(bitboard::squares_of(position.white) =~= vstd::set_lib::set_int_range(0, 16));
    assert(bitboard::squares_of(position.black) =~= vstd::set_lib::set_int_range(48, 64));
    assert(bitboard::squares_of(white_king) =~= Set::empty().insert(4int));
    assert(bitboard::squares_of(black_king) =~= Set::empty().insert(60int));
}

/// No man on the board at the start looks along a line at the opponent's king.
proof fn lemma_initial_attacks(piece: Piece, player: Color, blockers: u64, from: int, king: int)
    requires
        squares::on_board(from),
        squares::on_board(king),
        bitboard::holds(crate::position::initial_state().position.pieces(piece), from),
        bitboard::holds(crate::position::initial_state().position.men(player), from),
        crate::position::initial_state().position.king_at(pieces::other(player), king),
    ensures
        !geometry::attacks(piece, player, blockers, from, king),
{
    lemma_initial_masks(from);
    lemma_initial_masks(king);
}

/// The board on which a game starts is one of legal play.
pub proof fn the_initial_board_is_lawful()
    ensures
        crate::position::initial_state().lawful(),
        crate::position::initial_state().position.wf(),
{
    let board = crate::position::initial_state();
    let position = board.position;
    assert forall|square: int| #![trigger bitboard::holds(position.occupied, square)]
        squares::on_board(square) implies position.tidy_at(square) by {
        lemma_initial_masks(square);
        if bitboard::holds(position.occupied, square) {
            assert(position.pieces(Piece::Pawn) == position.pawns);
            assert(position.pieces(Piece::Knight) == position.knights);
            assert(position.pieces(Piece::Bishop) == position.bishops);
            assert(position.pieces(Piece::Rook) == position.rooks);
            assert(position.pieces(Piece::Queen) == position.queens);
            assert(position.pieces(Piece::King) == position.kings);
        }
    }
    lemma_initial_counts();
    lemma_initial_masks(0);
    lemma_initial_masks(4);
    lemma_initial_masks(7);
    lemma_initial_masks(56);
    lemma_initial_masks(60);
    lemma_initial_masks(63);
    assert(position.king_at(Color::White, 4) && position.king_at(Color::Black, 60));
    assert forall|player: Color, square: int|
        squares::on_board(square) && #[trigger] position.king_at(player, square) implies square
        == king_home(player) by {
        lemma_initial_masks(square);
    }
    assert forall|player: Color, piece: Piece, from: int, king: int|
        squares::on_board(from) && squares::on_board(king) && position.king_at(
            pieces::other(player),
            king,
        ) implies !#[trigger] position.attacked_by(player, piece, from, king) by {
        if position.attacked_by(player, piece, from, king) {
            lemma_initial_attacks(piece, player, position.occupied, from, king);
        }
    }
    bitboard::lemma_nonempty(0);
    assert forall|square: int, piece: Piece, from: int, king: int|
        squares::on_board(from) && squares::on_board(king) implies !#[trigger] board.held_off(
        square,
        piece,
        from,
        king,
    ) by {
        if board.held_off(square, piece, from, king) {
            lemma_initial_attacks(
                piece,
                Color::Black,
                position.occupied ^ (1u64 << square),
                from,
                king,
            );
        }
    }
    assert(0x0000_0000_0000_ffffu64 ^ 0xffff_0000_0000_0000u64 == 0xffff_0000_0000_ffffu64)
        by (bit_vector);
}

} // verus!

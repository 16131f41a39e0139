//! What a board shows: where the pieces stand, whose turn it is, who may still castle.

use vstd::prelude::*;
use crate::{bitboard, pieces, squares};
use crate::actions::ChessMove;
use crate::bitboard::{count_squares, has_square};
use crate::pieces::{Color, Piece, SeenPiece, opposite_color, piece_value};
use crate::squares::{BOARD_SQUARES, Square};

verus! {

/// The sides of the board on which a player may still castle.
#[derive(Clone, Copy, PartialEq, Eq, Structural, Debug)]
pub struct CastleSides {
    pub kingside: bool,
    pub queenside: bool,
}

/// A position in plain values. The masks are kept as a board keeps them, one for each kind of
/// piece, one for each colour and one for all pieces: nothing here says that they agree.
#[derive(Clone, Copy, PartialEq, Eq, Structural, Debug)]
pub struct Position {
    pub pawns: u64,
    pub knights: u64,
    pub bishops: u64,
    pub rooks: u64,
    pub queens: u64,
    pub kings: u64,
    pub white: u64,
    pub black: u64,
    pub occupied: u64,
    pub side_to_move: Color,
    pub white_castling: CastleSides,
    pub black_castling: CastleSides,
    /// The square of a pawn that may be taken in passing.
    pub en_passant: Option<Square>,
}

/// All that decides how a board goes on: its position, and the pinned and the checking pieces
/// that the board keeps track of.
#[derive(Clone, Copy, PartialEq, Eq, Structural, Debug)]
pub struct BoardState {
    pub position: Position,
    pub pinned: u64,
    pub checkers: u64,
}

/// The position in which a game of chess starts.
pub open spec fn initial_state() -> BoardState {
    let both = CastleSides { kingside: true, queenside: true };
    BoardState {
        position: Position {
            pawns: 0x00ff_0000_0000_ff00,
            knights: 0x4200_0000_0000_0042,
            bishops: 0x2400_0000_0000_0024,
            rooks: 0x8100_0000_0000_0081,
            queens: 0x0800_0000_0000_0008,
            kings: 0x1000_0000_0000_0010,
            white: 0x0000_0000_0000_ffff,
            black: 0xffff_0000_0000_0000,
            occupied: 0xffff_0000_0000_ffff,
            side_to_move: Color::White,
            white_castling: both,
            black_castling: both,
            en_passant: None,
        },
        pinned: 0,
        checkers: 0,
    }
}

/// The mask of one square.
pub open spec fn square_mask(square: Square) -> u64 {
    1u64 << square.index
}

impl Position {
    /// The squares of a kind of piece.
    pub open spec fn pieces(self, piece: Piece) -> u64 {
        match piece {
            Piece::Pawn => self.pawns,
            Piece::Knight => self.knights,
            Piece::Bishop => self.bishops,
            Piece::Rook => self.rooks,
            Piece::Queen => self.queens,
            Piece::King => self.kings,
        }
    }

    /// The squares of a player's pieces.
    pub open spec fn men(self, color: Color) -> u64 {
        match color {
            Color::White => self.white,
            Color::Black => self.black,
        }
    }

    /// The sides on which a player may castle.
    pub open spec fn castling(self, color: Color) -> CastleSides {
        match color {
            Color::White => self.white_castling,
            Color::Black => self.black_castling,
        }
    }

    /// The kind of piece that a board reports on a square: none on a square that is not occupied,
    /// else the first of pawn, knight and bishop, or of rook and queen, that stands there, and a
    /// king where neither does. The first three are looked for where an odd number of their masks
    /// hold the square; where the masks do not overlap, that is where one of them does.
    pub open spec fn piece_at(self, square: int) -> Option<Piece> {
        if !bitboard::holds(self.occupied, square) {
            None
        } else if bitboard::holds(self.pawns ^ self.knights ^ self.bishops, square) {
            if bitboard::holds(self.pawns, square) {
                Some(Piece::Pawn)
            } else if bitboard::holds(self.knights, square) {
                Some(Piece::Knight)
            } else {
                Some(Piece::Bishop)
            }
        } else if bitboard::holds(self.rooks, square) {
            Some(Piece::Rook)
        } else if bitboard::holds(self.queens, square) {
            Some(Piece::Queen)
        } else {
            Some(Piece::King)
        }
    }

    /// The colour that a board reports on a square.
    pub open spec fn color_at(self, square: int) -> Option<Color> {
        if bitboard::holds(self.white, square) {
            Some(Color::White)
        } else if bitboard::holds(self.black, square) {
            Some(Color::Black)
        } else {
            None
        }
    }

    /// What somebody who sees a square sees there.
    pub open spec fn seen_at(self, square: int) -> Option<SeenPiece> {
        match (self.piece_at(square), self.color_at(square)) {
            (Some(piece), Some(color)) => Some(SeenPiece { piece, color }),
            _ => None,
        }
    }

    /// What holds of the position on every board: a square is occupied where one of the colours
    /// holds it and the other does not, and a pawn that may be taken in passing has gone to the
    /// fourth or the fifth rank.
    pub open spec fn wf(self) -> bool {
        &&& self.occupied == self.white ^ self.black
        &&& self.en_passant matches Some(pawn) ==> 24 <= pawn.index < 40
    }

    /// A king of the given colour stands on the square.
    pub open spec fn king_at(self, color: Color, square: int) -> bool {
        bitboard::holds(self.kings, square) && bitboard::holds(self.men(color), square)
    }

    /// A king of the given colour stands on some square.
    pub open spec fn has_king(self, color: Color) -> bool {
        exists|square: int| squares::on_board(square) && #[trigger] self.king_at(color, square)
    }

    /// The squares whose entry in the mask of kings a move flips: those that a king leaves and
    /// reaches, and that of a captured king.
    pub open spec fn king_flips(self, action: ChessMove) -> u64 {
        let moved = if self.piece_at(action.source.index as int) == Some(Piece::King) {
            square_mask(action.source) ^ square_mask(action.dest)
        } else {
            0
        };
        let captured = if self.piece_at(action.dest.index as int) == Some(Piece::King) {
            square_mask(action.dest)
        } else {
            0
        };
        moved ^ captured
    }

    /// The squares whose entry in the mask of the opponent's pieces a capture flips.
    pub open spec fn capture_flips(self, action: ChessMove) -> u64 {
        if self.piece_at(action.dest.index as int) is Some {
            square_mask(action.dest)
        } else {
            0
        }
    }

    /// The move can be carried out: some piece leaves the source, and the opponent's king is on
    /// the board once the piece on the destination is gone. Whether the move is legal is another
    /// matter.
    pub open spec fn playable(self, action: ChessMove) -> bool {
        &&& self.piece_at(action.source.index as int) is Some
        &&& (self.kings ^ self.king_flips(action)) & (self.men(pieces::other(self.side_to_move))
            ^ self.capture_flips(action)) != 0
    }

    /// How many pieces of one kind a player has.
    pub open spec fn count(self, piece: Piece, color: Color) -> nat {
        bitboard::size(self.pieces(piece) & self.men(color))
    }

    /// The number that the board matrix shows for a square.
    pub open spec fn matrix_value(self, square: int) -> int {
        match self.piece_at(square) {
            Some(piece) => if self.color_at(square) == Some(Color::Black) {
                -(pieces::piece_plane(piece) + 1)
            } else {
                pieces::piece_plane(piece) + 1
            },
            None => 0,
        }
    }

    /// The worth of the position for a player once a king is gone; nothing while both stand.
    pub open spec fn outcome(self, player: Color) -> int {
        if !self.has_king(Color::White) {
            if player == Color::Black {
                1
            } else {
                -1
            }
        } else if !self.has_king(Color::Black) {
            if player == Color::White {
                1
            } else {
                -1
            }
        } else {
            0
        }
    }
}

/// The rows and columns are those of the position, the eighth rank first.
pub open spec fn is_matrix_of(matrix: Seq<Vec<i8>>, position: Position) -> bool {
    &&& matrix.len() == 8
    &&& forall|row: int| #![trigger matrix[row]]
        0 <= row < 8 ==> {
            &&& matrix[row]@.len() == 8
            &&& forall|file: int| #![trigger matrix[row]@[file]]
                0 <= file < 8 ==> matrix[row]@[file] == position.matrix_value((7 - row) * 8 + file)
        }
}

impl Position {
    /// The squares of a kind of piece.
    pub fn piece_mask(&self, piece: Piece) -> (mask: u64)
        ensures
            mask == self.pieces(piece),
    {
        match piece {
            Piece::Pawn => self.pawns,
            Piece::Knight => self.knights,
            Piece::Bishop => self.bishops,
            Piece::Rook => self.rooks,
            Piece::Queen => self.queens,
            Piece::King => self.kings,
        }
    }

    /// The squares of a player's pieces.
    pub fn color_mask(&self, color: Color) -> (mask: u64)
        ensures
            mask == self.men(color),
    {
        match color {
            Color::White => self.white,
            Color::Black => self.black,
        }
    }

    /// The kind of piece on a square.
    pub fn piece_on(&self, square: usize) -> (piece: Option<Piece>)
        requires
            square < BOARD_SQUARES,
        ensures
            piece == self.piece_at(square as int),
    {
        if !has_square(self.occupied, square) {
            None
        } else if has_square(self.pawns ^ self.knights ^ self.bishops, square) {
            if has_square(self.pawns, square) {
                Some(Piece::Pawn)
            } else if has_square(self.knights, square) {
                Some(Piece::Knight)
            } else {
                Some(Piece::Bishop)
            }
        } else if has_square(self.rooks, square) {
            Some(Piece::Rook)
        } else if has_square(self.queens, square) {
            Some(Piece::Queen)
        } else {
            Some(Piece::King)
        }
    }

    /// The colour of the piece on a square.
    pub fn color_on(&self, square: usize) -> (color: Option<Color>)
        requires
            square < BOARD_SQUARES,
        ensures
            color == self.color_at(square as int),
    {
        if has_square(self.white, square) {
            Some(Color::White)
        } else if has_square(self.black, square) {
            Some(Color::Black)
        } else {
            None
        }
    }

    /// What somebody who sees a square sees there.
    pub fn seen_on(&self, square: usize) -> (seen: Option<SeenPiece>)
        requires
            square < BOARD_SQUARES,
        ensures
            seen == self.seen_at(square as int),
    {
        match (self.piece_on(square), self.color_on(square)) {
            (Some(piece), Some(color)) => Some(SeenPiece { piece, color }),
            _ => None,
        }
    }

    /// Tells whether a king of the given colour is on the board.
    pub fn king_present(&self, color: Color) -> (present: bool)
        ensures
            present == self.has_king(color),
    {
        let kings: u64 = self.kings & self.color_mask(color);
        proof {
            bitboard::lemma_nonempty(kings);
            if kings != 0 {
                let square = choose|square: int|
                    0 <= square < 64 && bitboard::holds(kings, square);
                bitboard::lemma_and(self.kings, self.men(color), square);
                assert(self.king_at(color, square));
            }
            if self.has_king(color) {
                let square = choose|square: int|
                    squares::on_board(square) && #[trigger] self.king_at(color, square);
                bitboard::lemma_and(self.kings, self.men(color), square);
                assert(bitboard::holds(kings, square));
            }
        }
        kings != 0
    }

    /// The game is over: a king is gone.
    pub fn is_terminal(&self) -> (terminal: bool)
        ensures
            terminal == (!self.has_king(Color::White) || !self.has_king(Color::Black)),
    {
        !self.king_present(Color::White) || !self.king_present(Color::Black)
    }

    /// The worth of the position for a player: 1 where the opponent's king is gone, -1 where the
    /// own king is, 0 while both stand.
    pub fn terminal_value(&self, player: Color) -> (value: i8)
        ensures
            value == self.outcome(player),
    {
        if !self.king_present(Color::White) {
            return if player == Color::Black {
                1
            } else {
                -1
            };
        }
        if !self.king_present(Color::Black) {
            return if player == Color::White {
                1
            } else {
                -1
            };
        }
        0
    }

    /// Tells whether a move can be carried out.
    pub fn is_playable(&self, action: ChessMove) -> (playable: bool)
        requires
            action.wf(),
        ensures
            playable == self.playable(action),
    {
        let source: u64 = 1u64 << action.source.index;
        let dest: u64 = 1u64 << action.dest.index;
        let moved: Option<Piece> = self.piece_on(action.source.index as usize);
        let captured: Option<Piece> = self.piece_on(action.dest.index as usize);
        let moved_king: u64 = if moved == Some(Piece::King) {
            source ^ dest
        } else {
            0
        };
        let captured_king: u64 = if captured == Some(Piece::King) {
            dest
        } else {
            0
        };
        let captured_man: u64 = if captured.is_some() {
            dest
        } else {
            0
        };
        let kings: u64 = self.kings ^ (moved_king ^ captured_king);
        let enemies: u64 = self.color_mask(opposite_color(self.side_to_move)) ^ captured_man;
        moved.is_some() && kings & enemies != 0
    }

    /// Counts the pieces of one kind that a player has.
    pub fn count_pieces(&self, piece: Piece, color: Color) -> (count: u32)
        ensures
            count == self.count(piece, color),
            count <= 64,
    {
        count_squares(self.piece_mask(piece) & self.color_mask(color))
    }

    /// The board as eight rows of numbers, the eighth rank first: positive for white pieces,
    /// negative for black ones, zero for an empty square.
    pub fn board_matrix(&self) -> (matrix: Vec<Vec<i8>>)
        ensures
            is_matrix_of(matrix@, *self),
    {
        let mut matrix: Vec<Vec<i8>> = Vec::with_capacity(8);
        let mut done: usize = 0;
        while done < 8
            invariant
                done <= 8,
                matrix@.len() == done,
                forall|row: int| #![trigger matrix@[row]]
                    0 <= row < done ==> {
                        &&& matrix@[row]@.len() == 8
                        &&& forall|file: int| #![trigger matrix@[row]@[file]]
                            0 <= file < 8 ==> matrix@[row]@[file] == self.matrix_value(
                                (7 - row) * 8 + file,
                            )
                    },
            decreases 8 - done,
        {
            let rank: usize = 7 - done;
            let mut row: Vec<i8> = Vec::with_capacity(8);
            let mut file: usize = 0;
            while file < 8
                invariant
                    rank < 8,
                    file <= 8,
                    row@.len() == file,
                    forall|f: int| #![trigger row@[f]]
                        0 <= f < file ==> row@[f] == self.matrix_value(rank * 8 + f),
                decreases 8 - file,
            {
                let square: usize = rank * 8 + file;
                if let Some(piece) = self.piece_on(square) {
                    let mut value: i8 = piece_value(piece);
                    if self.color_on(square) == Some(Color::Black) {
                        value = -value;
                    }
                    row.push(value);
                } else {
                    row.push(0);
                }
                file = file + 1;
            }
            matrix.push(row);
            done = done + 1;
        }
        matrix
    }
}

} // verus!

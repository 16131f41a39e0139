//! The `chess` crate, as far as this library leans on it.
//!
//! Each function here makes one call into that crate on plain values or on a board, and says
//! what comes back. These statements are not proved: they are read off the crate.

use vstd::prelude::*;
use crate::{actions, bitboard, geometry, pieces, position};
use crate::actions::ChessMove;
use crate::fen::Setup;
use crate::pieces::{Color, Piece, SeenPiece};
use crate::position::{BoardState, CastleSides};
use crate::squares::{BOARD_SQUARES, Square};
use std::str::FromStr;

verus! {

/// The board of the `chess` crate.
#[verifier::external_type_specification]
#[verifier::external_body]
pub struct ExternalBoard(chess::Board);

/// The position of the `chess` crate that is not yet a board.
#[verifier::external_type_specification]
#[verifier::external_body]
pub struct ExternalBuilder(chess::BoardBuilder);

/// The error of the `chess` crate.
#[verifier::external_type_specification]
#[verifier::external_body]
pub struct ExternalError(chess::Error);

/// What a board holds: its masks, whose turn it is, the castling rights, the square of a pawn
/// that may be taken in passing, and the pinned and checking pieces. All that a board has beside
/// this is a hash of it.
pub uninterp spec fn board_state(board: chess::Board) -> BoardState;

/// What a builder holds: the pieces, whose turn it is, the castling rights and the pawn that may
/// be taken in passing.
pub uninterp spec fn builder_setup(builder: chess::BoardBuilder) -> Setup;

/// What a text in the Forsyth-Edwards notation describes, if `chess` can read it.
pub uninterp spec fn fen_setup(fen: Seq<char>) -> Option<Setup>;

/// The board that is set up, if `chess` takes it.
pub uninterp spec fn setup_state(setup: Setup) -> Option<BoardState>;

/// The board after a move.
pub uninterp spec fn state_after(state: BoardState, action: ChessMove) -> BoardState;

/// The legal moves of a board, in the order in which `chess` lists them.
pub uninterp spec fn legal_moves(state: BoardState) -> Seq<ChessMove>;

/// `chess::Board::pieces`: the squares of a kind of piece.
#[verifier::external_body]
pub(crate) fn pieces(board: &chess::Board, piece: Piece) -> (mask: u64)
    ensures
        mask == board_state(*board).position.pieces(piece),
{
    board.pieces(match piece {
        Piece::Pawn => chess::Piece::Pawn,
        Piece::Knight => chess::Piece::Knight,
        Piece::Bishop => chess::Piece::Bishop,
        Piece::Rook => chess::Piece::Rook,
        Piece::Queen => chess::Piece::Queen,
        Piece::King => chess::Piece::King,
    }).0
}

/// `chess::Board::color_combined`: the squares of a player's pieces.
#[verifier::external_body]
pub(crate) fn color_combined(board: &chess::Board, color: Color) -> (mask: u64)
    ensures
        mask == board_state(*board).position.men(color),
{
    board.color_combined(match color {
        Color::White => chess::Color::White,
        Color::Black => chess::Color::Black,
    }).0
}

/// `chess::Board::combined`: the occupied squares. A board flips this mask and that of one colour
/// together, and never one without the other.
#[verifier::external_body]
pub(crate) fn combined(board: &chess::Board) -> (mask: u64)
    ensures
        mask == board_state(*board).position.occupied,
        mask == board_state(*board).position.white ^ board_state(*board).position.black,
{
    board.combined().0
}

/// `chess::Board::side_to_move`: whose turn it is.
#[verifier::external_body]
pub(crate) fn side_to_move(board: &chess::Board) -> (side: Color)
    ensures
        side == board_state(*board).position.side_to_move,
{
    match board.side_to_move() {
        chess::Color::White => Color::White,
        chess::Color::Black => Color::Black,
    }
}

/// `chess::Board::castle_rights`, with `has_kingside` and `has_queenside` of what it returns: the
/// sides on which a player may still castle.
#[verifier::external_body]
pub(crate) fn castle_rights(board: &chess::Board, color: Color) -> (sides: CastleSides)
    ensures
        sides == board_state(*board).position.castling(color),
{
    let rights = board.castle_rights(match color {
        Color::White => chess::Color::White,
        Color::Black => chess::Color::Black,
    });
    CastleSides { kingside: rights.has_kingside(), queenside: rights.has_queenside() }
}

/// `chess::Board::pinned`: the pieces that alone stand between the king of the player to move and
/// a piece that would give check.
#[verifier::external_body]
pub(crate) fn pinned(board: &chess::Board) -> (mask: u64)
    ensures
        mask == board_state(*board).pinned,
{
    board.pinned().0
}

/// `chess::Board::checkers`: the pieces that give check to the player to move.
#[verifier::external_body]
pub(crate) fn checkers(board: &chess::Board) -> (mask: u64)
    ensures
        mask == board_state(*board).checkers,
{
    board.checkers().0
}

/// `chess::Board::en_passant`: the square of a pawn that may be taken in passing. A board notes
/// only squares of the fourth and the fifth rank.
#[verifier::external_body]
pub(crate) fn en_passant(board: &chess::Board) -> (square: Option<Square>)
    ensures
        square == board_state(*board).position.en_passant,
        square matches Some(pawn) ==> 24 <= pawn.index < 40,
{
    match board.en_passant() {
        Some(square) => Some(Square { index: square.to_int() }),
        None => None,
    }
}

/// `chess::Board::default`: the position in which a game of chess starts.
#[verifier::external_body]
pub(crate) fn default_board() -> (board: chess::Board)
    ensures
        board_state(board) == position::initial_state(),
{
    chess::Board::default()
}

/// `chess::BoardBuilder::from_str`: what a text describes.
#[verifier::external_body]
pub(crate) fn builder_from_str(text: &str) -> (builder: Result<chess::BoardBuilder, chess::Error>)
    ensures
        match builder {
            Ok(builder) => fen_setup(text@) == Some(builder_setup(builder)),
            Err(_) => fen_setup(text@) is None,
        },
{
    chess::BoardBuilder::from_str(text)
}

/// `chess::BoardBuilder::get_side_to_move`: whose turn it is.
#[verifier::external_body]
pub(crate) fn builder_side(builder: &chess::BoardBuilder) -> (side: Color)
    ensures
        side == builder_setup(*builder).side_to_move,
{
    match builder.get_side_to_move() {
        chess::Color::White => Color::White,
        chess::Color::Black => Color::Black,
    }
}

/// `chess::BoardBuilder::index`: the piece on a square.
#[verifier::external_body]
pub(crate) fn builder_piece(builder: &chess::BoardBuilder, square: usize) -> (man: Option<
    SeenPiece,
>)
    requires
        square < BOARD_SQUARES,
    ensures
        man == builder_setup(*builder).men[square as int],
{
    builder[chess::ALL_SQUARES[square]].map(|man| SeenPiece {
        piece: match man.0 {
            chess::Piece::Pawn => Piece::Pawn,
            chess::Piece::Knight => Piece::Knight,
            chess::Piece::Bishop => Piece::Bishop,
            chess::Piece::Rook => Piece::Rook,
            chess::Piece::Queen => Piece::Queen,
            chess::Piece::King => Piece::King,
        },
        color: match man.1 {
            chess::Color::White => Color::White,
            chess::Color::Black => Color::Black,
        },
    })
}

/// `chess::Board::try_from`: the board that is set up, refused where the position makes no sense.
/// It shows what was set up and knows its pinned and checking pieces. The player to move has a
/// king: `chess` looks that king up in its tables before it checks that there is one.
#[verifier::external_body]
pub(crate) fn board_from_builder(builder: &chess::BoardBuilder) -> (board: Result<
    chess::Board,
    chess::Error,
>)
    requires
        builder_setup(*builder).mover_has_king(),
    ensures
        match board {
            Ok(board) => {
                &&& setup_state(builder_setup(*builder)) == Some(board_state(board))
                &&& builder_setup(*builder).shown_by(board_state(board).position)
                &&& board_state(board).position.sane()
                &&& board_state(board).informed()
            },
            Err(_) => setup_state(builder_setup(*builder)) is None,
        },
{
    chess::Board::try_from(builder)
}

/// `chess::Board::make_move_new`: the board after a move, on which it is the other player's turn.
/// The move takes a piece from its source and leaves the opponent a king: where there is no piece
/// `chess` panics, and where there is no king it looks one up outside its tables. It asks for no
/// more than that, not for a legal move. A legal move on a board of legal play leads to another
/// such board, and adds no man.
#[verifier::external_body]
pub(crate) fn make_move_new(board: &chess::Board, action: ChessMove) -> (moved: chess::Board)
    requires
        action.wf(),
        board_state(*board).position.playable(action),
    ensures
        board_state(moved) == state_after(board_state(*board), action),
        board_state(moved).position.side_to_move == pieces::other(
            board_state(*board).position.side_to_move,
        ),
        board_state(*board).regular() && board_state(*board).listable() && legal_moves(
            board_state(*board),
        ).contains(action) ==> {
            &&& board_state(moved).regular()
            &&& bitboard::size(board_state(moved).position.white) <= bitboard::size(
                board_state(*board).position.white,
            )
            &&& bitboard::size(board_state(moved).position.black) <= bitboard::size(
                board_state(*board).position.black,
            )
        },
{
    let source = chess::ALL_SQUARES[action.source.index as usize];
    let dest = chess::ALL_SQUARES[action.dest.index as usize];
    let promotion = match action.promotion {
        None => None,
        Some(Piece::Pawn) => Some(chess::Piece::Pawn),
        Some(Piece::Knight) => Some(chess::Piece::Knight),
        Some(Piece::Bishop) => Some(chess::Piece::Bishop),
        Some(Piece::Rook) => Some(chess::Piece::Rook),
        Some(Piece::Queen) => Some(chess::Piece::Queen),
        Some(Piece::King) => Some(chess::Piece::King),
    };
    board.make_move_new(chess::ChessMove::new(source, dest, promotion))
}

/// `chess::MoveGen::new_legal`: the legal moves of a board, with what its iterator hands out. Its
/// squares lie on the board, and a pawn becomes a queen, a knight, a rook or a bishop. Where the
/// position makes sense, each is a move of one of the mover's pieces, and what it captures that
/// piece attacks. The board is one whose player to move has a king and whose moves fit the list
/// of `chess`, which does not look at its length: an entry for each man with a move and for each
/// capture in passing.
#[verifier::external_body]
pub(crate) fn new_legal(board: &chess::Board) -> (moves: Vec<ChessMove>)
    requires
        board_state(*board).listable(),
    ensures
        moves@ == legal_moves(board_state(*board)),
        forall|i: int| #![trigger moves@[i]]
            0 <= i < moves@.len() ==> {
                &&& moves@[i].wf()
                &&& moves@[i].promotion matches Some(piece) ==> pieces::promotion_rank(
                    piece,
                ) is Some
                &&& board_state(*board).position.sane() ==> exists|kind: Piece| #[trigger]
                    board_state(*board).position.made_by(moves@[i], kind)
            },
{
    chess::MoveGen::new_legal(board).map(|action| ChessMove {
        source: Square { index: action.get_source().to_int() },
        dest: Square { index: action.get_dest().to_int() },
        promotion: match action.get_promotion() {
            None => None,
            Some(chess::Piece::Pawn) => Some(Piece::Pawn),
            Some(chess::Piece::Knight) => Some(Piece::Knight),
            Some(chess::Piece::Bishop) => Some(Piece::Bishop),
            Some(chess::Piece::Rook) => Some(Piece::Rook),
            Some(chess::Piece::Queen) => Some(Piece::Queen),
            Some(chess::Piece::King) => Some(Piece::King),
        },
    }).collect()
}

/// `chess::ChessMove::from_str`: the move that a text in the UCI notation stands for.
#[verifier::external_body]
pub(crate) fn move_from_str(text: &str) -> (action: Result<ChessMove, chess::Error>)
    ensures
        match action {
            Ok(action) => actions::uci_move(text@) == Some(action),
            Err(_) => actions::uci_move(text@) is None,
        },
{
    let action = chess::ChessMove::from_str(text)?;
    Ok(ChessMove {
        source: Square { index: action.get_source().to_int() },
        dest: Square { index: action.get_dest().to_int() },
        promotion: match action.get_promotion() {
            None => None,
            Some(chess::Piece::Pawn) => Some(Piece::Pawn),
            Some(chess::Piece::Knight) => Some(Piece::Knight),
            Some(chess::Piece::Bishop) => Some(Piece::Bishop),
            Some(chess::Piece::Rook) => Some(Piece::Rook),
            Some(chess::Piece::Queen) => Some(Piece::Queen),
            Some(chess::Piece::King) => Some(Piece::King),
        },
    })
}

/// `chess::ChessMove::to_string`: the text of a move in the UCI notation.
#[verifier::external_body]
pub(crate) fn move_to_string(action: ChessMove) -> (text: String)
    requires
        action.wf(),
    ensures
        text@ == actions::uci_text(action),
{
    let source = chess::ALL_SQUARES[action.source.index as usize];
    let dest = chess::ALL_SQUARES[action.dest.index as usize];
    let promotion = match action.promotion {
        None => None,
        Some(Piece::Pawn) => Some(chess::Piece::Pawn),
        Some(Piece::Knight) => Some(chess::Piece::Knight),
        Some(Piece::Bishop) => Some(chess::Piece::Bishop),
        Some(Piece::Rook) => Some(chess::Piece::Rook),
        Some(Piece::Queen) => Some(chess::Piece::Queen),
        Some(Piece::King) => Some(chess::Piece::King),
    };
    chess::ChessMove::new(source, dest, promotion).to_string()
}

/// `chess::get_pawn_attacks`: the squares on which a pawn may capture, of those given.
#[verifier::external_body]
pub(crate) fn get_pawn_attacks(square: usize, color: Color, blockers: u64) -> (mask: u64)
    requires
        square < BOARD_SQUARES,
    ensures
        forall|to: int| #![trigger bitboard::holds(mask, to)]
            0 <= to < 64 ==> bitboard::holds(mask, to) == (geometry::pawn_captures(
                color,
                square as int,
                to,
            ) && bitboard::holds(blockers, to)),
{
    let color = match color {
        Color::White => chess::Color::White,
        Color::Black => chess::Color::Black,
    };
    chess::get_pawn_attacks(chess::ALL_SQUARES[square], color, chess::BitBoard::new(blockers)).0
}

/// `chess::get_knight_moves`: the squares that a knight reaches.
#[verifier::external_body]
pub(crate) fn get_knight_moves(square: usize) -> (mask: u64)
    requires
        square < BOARD_SQUARES,
    ensures
        forall|to: int| #![trigger bitboard::holds(mask, to)]
            0 <= to < 64 ==> bitboard::holds(mask, to) == geometry::knight_reaches(
                square as int,
                to,
            ),
{
    chess::get_knight_moves(chess::ALL_SQUARES[square]).0
}

/// `chess::get_king_moves`: the squares that a king reaches in one step.
#[verifier::external_body]
pub(crate) fn get_king_moves(square: usize) -> (mask: u64)
    requires
        square < BOARD_SQUARES,
    ensures
        forall|to: int| #![trigger bitboard::holds(mask, to)]
            0 <= to < 64 ==> bitboard::holds(mask, to) == geometry::king_reaches(
                square as int,
                to,
            ),
{
    chess::get_king_moves(chess::ALL_SQUARES[square]).0
}

/// `chess::get_bishop_moves`: the squares that a bishop reaches among the given pieces, the first
/// piece on each diagonal included.
#[verifier::external_body]
pub(crate) fn get_bishop_moves(square: usize, blockers: u64) -> (mask: u64)
    requires
        square < BOARD_SQUARES,
    ensures
        forall|to: int| #![trigger bitboard::holds(mask, to)]
            0 <= to < 64 ==> bitboard::holds(mask, to) == geometry::bishop_reaches(
                blockers,
                square as int,
                to,
            ),
{
    chess::get_bishop_moves(chess::ALL_SQUARES[square], chess::BitBoard::new(blockers)).0
}

/// `chess::get_rook_moves`: the squares that a rook reaches among the given pieces, the first
/// piece on each line included.
#[verifier::external_body]
pub(crate) fn get_rook_moves(square: usize, blockers: u64) -> (mask: u64)
    requires
        square < BOARD_SQUARES,
    ensures
        forall|to: int| #![trigger bitboard::holds(mask, to)]
            0 <= to < 64 ==> bitboard::holds(mask, to) == geometry::rook_reaches(
                blockers,
                square as int,
                to,
            ),
{
    chess::get_rook_moves(chess::ALL_SQUARES[square], chess::BitBoard::new(blockers)).0
}

} // verus!

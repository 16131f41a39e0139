//! What every feature of an encoding says, told from the board and the memory.

use vstd::prelude::*;
use crate::{bitboard, board_laws, encoding, squares, visibility};
use crate::encoding::Ratio;
use crate::game::GameView;
use crate::memory::Recollection;
use crate::pieces::{Color, Piece};
use crate::position::Position;

verus! {

/// The feature of a row and a channel.
pub open spec fn entry(encoded: Seq<Ratio>, row: int, channel: int) -> Ratio {
    encoded[row * 35 + channel]
}

/// The feature says yes, or no.
pub open spec fn says(feature: Ratio, yes: bool) -> bool {
    &&& feature.den == 1
    &&& feature.num == 1 <==> yes
    &&& feature.num == 0 <==> !yes
}

/// The square of a row: white's rows go up the board, black's go down.
pub open spec fn square_of_row(player: Color, row: int) -> int {
    if player == Color::White {
        row
    } else {
        (7 - row / 8) * 8 + row % 8
    }
}

/// The kinds in the order of their channels.
pub open spec fn kind(number: int) -> Piece {
    if number == 0 {
        Piece::Pawn
    } else if number == 1 {
        Piece::Knight
    } else if number == 2 {
        Piece::Bishop
    } else if number == 3 {
        Piece::Rook
    } else if number == 4 {
        Piece::Queen
    } else {
        Piece::King
    }
}

/// Where a feature stands in an encoding.
proof fn lemma_entry(position: Position, memory: Recollection, oracle: bool, row: int, channel: int)
    requires
        squares::on_board(row),
        0 <= channel < 35,
    ensures
        encoding::features(position, memory, oracle).len() == 2240,
        0 <= row * 35 + channel < 2240,
        entry(encoding::features(position, memory, oracle), row, channel) == encoding::feature(
            position,
            memory,
            oracle,
            row,
            channel,
        ),
        square_of_row(position.side_to_move, row) == crate::actions::own_view(
            position.side_to_move,
            row,
        ),
        squares::on_board(square_of_row(position.side_to_move, row)),
{
    let i = row * 35 + channel;
    assert(i / 35 == row && i % 35 == channel);
    squares::mirror_is_an_involution(row);
}

/// An encoding has 64 rows of 35 features. In a row, the first six channels tell the kind of an own
/// man in sight, the next six that of any other man in sight, the thirteenth that the square in
/// sight is not occupied, and the fourteenth that it is out of sight.
pub proof fn encodings_show_what_is_seen(
    position: Position,
    memory: Recollection,
    oracle: bool,
    row: int,
    number: int,
)
    requires
        squares::on_board(row),
        0 <= number < 6,
    ensures
        ({
            let encoded = encoding::features(position, memory, oracle);
            let player = position.side_to_move;
            let square = square_of_row(player, row);
            let seen = oracle || visibility::visible(position, player, square);
            let man = position.piece_at(square) == Some(kind(number));
            let own = position.color_at(square) == Some(player);
            &&& encoded.len() == 2240
            &&& says(entry(encoded, row, number), seen && man && own)
            &&& says(entry(encoded, row, number + 6), seen && man && !own)
            &&& says(
                entry(encoded, row, 12),
                seen && !bitboard::holds(position.occupied, square),
            )
            &&& says(entry(encoded, row, 13), !seen)
        }),
{
    lemma_entry(position, memory, oracle, row, number);
    lemma_entry(position, memory, oracle, row, number + 6);
    lemma_entry(position, memory, oracle, row, 12);
    lemma_entry(position, memory, oracle, row, 13);
}

/// Fourteen channels further, the same is told of what is remembered: six channels for own men,
/// six for the opponent's, and one for nothing. What is in sight makes no difference there.
pub proof fn encodings_show_what_is_remembered(
    position: Position,
    memory: Recollection,
    oracle: bool,
    row: int,
    number: int,
)
    requires
        squares::on_board(row),
        0 <= number < 6,
    ensures
        ({
            let encoded = encoding::features(position, memory, oracle);
            let player = position.side_to_move;
            let recalled = memory.pieces[square_of_row(player, row)];
            let man = recalled is Some && recalled->0.piece == kind(number);
            let own = recalled is Some && recalled->0.color == player;
            &&& says(entry(encoded, row, number + 14), man && own)
            &&& says(entry(encoded, row, number + 20), man && !own)
            &&& says(entry(encoded, row, 26), recalled is None)
        }),
{
    lemma_entry(position, memory, oracle, row, number + 14);
    lemma_entry(position, memory, oracle, row, number + 20);
    lemma_entry(position, memory, oracle, row, 26);
}

/// The recency channel divides one by one more than the time since the square was seen, as far as
/// single precision counts.
pub proof fn encodings_show_how_recently(
    position: Position,
    memory: Recollection,
    oracle: bool,
    row: int,
)
    requires
        squares::on_board(row),
        memory.wf(),
    ensures
        ({
            let time = memory.delta_t[square_of_row(position.side_to_move, row)];
            let recency = entry(encoding::features(position, memory, oracle), row, 27);
            &&& recency.num == 1
            &&& time < 16_777_216 ==> recency.den == time + 1
            &&& time >= 16_777_216 ==> recency.den == 16_777_216
        }),
{
    lemma_entry(position, memory, oracle, row, 27);
    assert(memory.delta_t[square_of_row(position.side_to_move, row)]
        <= crate::memory::DELTA_T_LIMIT);
}

/// The first row tells in channel 28 whether the player to move may castle on the king's side, the
/// second in channel 29 whether that player may on the queen's side. All other entries of the two
/// channels are zero.
pub proof fn encodings_show_castling_rights(
    position: Position,
    memory: Recollection,
    oracle: bool,
    row: int,
)
    requires
        squares::on_board(row),
    ensures
        ({
            let encoded = encoding::features(position, memory, oracle);
            let sides = match position.side_to_move {
                Color::White => position.white_castling,
                Color::Black => position.black_castling,
            };
            &&& says(encoded[28], sides.kingside)
            &&& says(encoded[64], sides.queenside)
            &&& row != 0 ==> says(entry(encoded, row, 28), false)
            &&& row != 1 ==> says(entry(encoded, row, 29), false)
        }),
{
    lemma_entry(position, memory, oracle, row, 28);
    lemma_entry(position, memory, oracle, row, 29);
    lemma_entry(position, memory, oracle, 0, 28);
    lemma_entry(position, memory, oracle, 1, 29);
}

/// The last five channels of every row tell the share of the opponent's pawns, knights, bishops,
/// rooks and queens that is gone.
pub proof fn encodings_show_captures(
    position: Position,
    memory: Recollection,
    oracle: bool,
    row: int,
)
    requires
        squares::on_board(row),
    ensures
        ({
            let encoded = encoding::features(position, memory, oracle);
            let enemies = match position.side_to_move {
                Color::White => position.black,
                Color::Black => position.white,
            };
            &&& entry(encoded, row, 30).num == 8 - bitboard::size(position.pawns & enemies)
            &&& entry(encoded, row, 30).den == 8
            &&& entry(encoded, row, 31).num == 2 - bitboard::size(position.knights & enemies)
            &&& entry(encoded, row, 31).den == 2
            &&& entry(encoded, row, 32).num == 2 - bitboard::size(position.bishops & enemies)
            &&& entry(encoded, row, 32).den == 2
            &&& entry(encoded, row, 33).num == 2 - bitboard::size(position.rooks & enemies)
            &&& entry(encoded, row, 33).den == 2
            &&& entry(encoded, row, 34).num == 1 - bitboard::size(position.queens & enemies)
            &&& entry(encoded, row, 34).den == 1
        }),
{
    lemma_entry(position, memory, oracle, row, 30);
    lemma_entry(position, memory, oracle, row, 31);
    lemma_entry(position, memory, oracle, row, 32);
    lemma_entry(position, memory, oracle, row, 33);
    lemma_entry(position, memory, oracle, row, 34);
    board_laws::captures_are_counted(position);
}

/// A game is encoded for the player to move, from what that player remembers.
pub proof fn games_are_encoded_for_the_mover(game: GameView, oracle: bool)
    ensures
        game.board.position.side_to_move == Color::White ==> game.encoded(oracle)
            == encoding::features(game.board.position, game.white, oracle),
        game.board.position.side_to_move == Color::Black ==> game.encoded(oracle)
            == encoding::features(game.board.position, game.black, oracle),
        game.mover() == game.board.position.side_to_move,
        game.memory(Color::White) == game.white,
        game.memory(Color::Black) == game.black,
{
}

} // verus!

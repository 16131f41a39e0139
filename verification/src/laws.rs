//! What holds of the library as a whole.

use vstd::prelude::*;
use crate::{actions, bitboard, encoding, engine, memory, pieces, squares, visibility};
use crate::actions::ChessMove;
use crate::game::GameView;
use crate::memory::Recollection;
use crate::pieces::Color;
use crate::position::{BoardState, Position};

verus! {

/// A player sees every square on which an own piece stands.
pub proof fn own_pieces_are_seen(position: Position, player: Color, square: int)
    requires
        squares::on_board(square),
        position.piece_at(square) is Some,
        position.color_at(square) == Some(player),
    ensures
        visibility::visible(position, player, square),
{
    assert(visibility::shows(position, player, square, square));
}

/// In every row exactly one of the channels of what is seen is set, and the others are zero.
pub proof fn one_observation_in_a_row(
    position: Position,
    memory: Recollection,
    oracle: bool,
    row: int,
)
    requires
        memory.wf(),
        squares::on_board(row),
    ensures
        exists|channel: int|
            0 <= channel < 14 && #[trigger] encoding::feature(position, memory, oracle, row, channel)
                == encoding::one() && forall|rest: int|
                0 <= rest < 14 && rest != channel ==> #[trigger] encoding::feature(
                    position,
                    memory,
                    oracle,
                    row,
                    rest,
                ) == encoding::zero(),
{
    let player = position.side_to_move;
    let square = actions::own_view(player, row);
    let seen = oracle || visibility::visible(position, player, square);
    let channel = encoding::observed_channel(position, player, seen, square);
    assert(encoding::feature(position, memory, oracle, row, channel) == encoding::one());
}

/// In every row exactly one of the channels of what is remembered is set, and the others are zero.
pub proof fn one_memory_in_a_row(position: Position, memory: Recollection, oracle: bool, row: int)
    requires
        memory.wf(),
        squares::on_board(row),
    ensures
        exists|channel: int|
            14 <= channel < 27 && #[trigger] encoding::feature(
                position,
                memory,
                oracle,
                row,
                channel,
            ) == encoding::one() && forall|rest: int|
                14 <= rest < 27 && rest != channel ==> #[trigger] encoding::feature(
                    position,
                    memory,
                    oracle,
                    row,
                    rest,
                ) == encoding::zero(),
{
    let player = position.side_to_move;
    let square = actions::own_view(player, row);
    let channel = encoding::remembered_channel(memory, player, square);
    assert(encoding::feature(position, memory, oracle, row, channel) == encoding::one());
}

/// With the oracle nothing is hidden. The oracle changes nothing but what is seen, and there only
/// the rows of squares that the player does not see.
pub proof fn the_oracle_only_lifts_the_fog(
    position: Position,
    memory: Recollection,
    row: int,
    channel: int,
)
    requires
        memory.wf(),
        squares::on_board(row),
        0 <= channel < 35,
    ensures
        encoding::feature(position, memory, true, row, 13) == encoding::zero(),
        channel >= 14 ==> encoding::feature(position, memory, true, row, channel)
            == encoding::feature(position, memory, false, row, channel),
        visibility::visible(
            position,
            position.side_to_move,
            actions::own_view(position.side_to_move, row),
        ) ==> encoding::feature(position, memory, true, row, channel) == encoding::feature(
            position,
            memory,
            false,
            row,
            channel,
        ),
{
}

/// In every state of a game a square is hidden from the player to move exactly where the recency
/// channel is less than one: what is seen counts as seen just now, and nothing else does.
pub proof fn fog_lies_where_nothing_is_recent(game: GameView, row: int)
    requires
        game.wf(),
        squares::on_board(row),
    ensures
        ({
            let position = game.board.position;
            let memory = game.memory(game.mover());
            let fog = encoding::feature(position, memory, false, row, 13);
            let recency = encoding::feature(position, memory, false, row, 27);
            &&& fog == encoding::one() <==> recency.den > 1
            &&& fog == encoding::zero() <==> recency == encoding::one()
        }),
{
    let position = game.board.position;
    let memory = game.memory(game.mover());
    let square = actions::own_view(game.mover(), row);
    squares::mirror_is_an_involution(row);
    assert(memory.delta_t[square] <= memory::DELTA_T_LIMIT);
}

/// In every state of a game the player to move remembers what is in sight as it is seen.
pub proof fn what_is_seen_is_remembered(game: GameView, row: int, channel: int)
    requires
        game.wf(),
        squares::on_board(row),
        0 <= channel < 13,
        visibility::visible(
            game.board.position,
            game.mover(),
            actions::own_view(game.mover(), row),
        ),
    ensures
        ({
            let position = game.board.position;
            let memory = game.memory(game.mover());
            encoding::feature(position, memory, false, row, channel) == encoding::feature(
                position,
                memory,
                false,
                row,
                channel + 14,
            )
        }),
{
    let memory = game.memory(game.mover());
    let square = actions::own_view(game.mover(), row);
    squares::mirror_is_an_involution(row);
    assert(memory.delta_t[square] <= memory::DELTA_T_LIMIT);
    bitboard::lemma_xor(game.board.position.white, game.board.position.black, square);
}

/// The fog hides: two positions that show the player to move the same are encoded alike, whatever
/// stands on the squares out of sight. What shows is which squares are seen and what stands there,
/// the own castling rights, how many pieces of each kind the opponent has left, and what is
/// remembered.
pub proof fn hidden_squares_are_not_encoded(p: Position, q: Position, memory: Recollection)
    requires
        p.side_to_move == q.side_to_move,
        p.castling(p.side_to_move) == q.castling(p.side_to_move),
        forall|square: int| #![trigger visibility::visible(p, p.side_to_move, square)]
            squares::on_board(square) ==> {
                &&& visibility::visible(p, p.side_to_move, square) == visibility::visible(
                    q,
                    p.side_to_move,
                    square,
                )
                &&& visibility::visible(p, p.side_to_move, square) ==> {
                    &&& p.piece_at(square) == q.piece_at(square)
                    &&& p.color_at(square) == q.color_at(square)
                }
            },
        forall|place: int| #![trigger encoding::counted_piece(place)]
            0 <= place < 5 ==> p.count(
                encoding::counted_piece(place),
                pieces::other(p.side_to_move),
            ) == q.count(encoding::counted_piece(place), pieces::other(p.side_to_move)),
    ensures
        encoding::features(p, memory, false) == encoding::features(q, memory, false),
{
    assert forall|i: int| 0 <= i < 2240 implies encoding::features(p, memory, false)[i]
        == encoding::features(q, memory, false)[i] by {
        let square = actions::own_view(p.side_to_move, i / 35);
        squares::mirror_is_an_involution(i / 35);
        assert(visibility::visible(p, p.side_to_move, square) == visibility::visible(
            q,
            p.side_to_move,
            square,
        ));
    }
    assert(encoding::features(p, memory, false) =~= encoding::features(q, memory, false));
}

/// Every feature is a quotient of numbers that single precision holds exactly, with a divisor
/// that is not zero.
pub proof fn features_are_exact(
    position: Position,
    memory: Recollection,
    oracle: bool,
    row: int,
    channel: int,
)
    requires
        memory.wf(),
        squares::on_board(row),
        0 <= channel < 35,
    ensures
        ({
            let feature = encoding::feature(position, memory, oracle, row, channel);
            &&& -64 <= feature.num <= 8
            &&& 1 <= feature.den <= memory::DELTA_T_LIMIT
        }),
{
    let square = actions::own_view(position.side_to_move, row);
    squares::mirror_is_an_involution(row);
    assert(memory.delta_t[square] <= memory::DELTA_T_LIMIT);
    let enemy = pieces::other(position.side_to_move);
    let piece = encoding::counted_piece(channel - 30);
    bitboard::lemma_size(position.pieces(piece) & position.men(enemy));
}

/// A game is worth to one player what it costs the other, and something exactly when it is over.
pub proof fn outcomes_are_opposed(position: Position)
    ensures
        position.outcome(Color::White) == -position.outcome(Color::Black),
        position.outcome(Color::White) != 0 <==> !position.has_king(Color::White)
            || !position.has_king(Color::Black),
{
}

/// With one king gone, the player who still has a king has won.
pub proof fn the_player_with_a_king_wins(position: Position, player: Color)
    requires
        position.has_king(player),
        !position.has_king(pieces::other(player)),
    ensures
        position.outcome(player) == 1,
        position.outcome(pieces::other(player)) == -1,
{
}

/// At the opening the player to move remembers what is in sight and nothing else, and the other
/// player nothing at all.
pub proof fn at_the_opening_nothing_else_is_known(board: BoardState, square: int)
    requires
        squares::on_board(square),
    ensures
        ({
            let game = GameView::opened(board);
            let mover = game.mover();
            &&& game.attentive()
            &&& game.memory(pieces::other(mover)) == Recollection::blank()
            &&& !visibility::visible(board.position, mover, square) ==> {
                &&& game.memory(mover).pieces[square] is None
                &&& game.memory(mover).delta_t[square] == 101
            }
        }),
{
    memory::looking_brings_up_to_date(
        Recollection::blank(),
        board.position,
        board.position.side_to_move,
    );
}

/// What a player has seen on a square is remembered, and gets older by one with each own turn,
/// until the square is seen again. A move changes nothing of what the other player remembers.
pub proof fn hidden_squares_are_remembered(game: GameView, action: ChessMove, square: int)
    requires
        game.attentive(),
        squares::on_board(square),
    ensures
        ({
            let later = game.after(action);
            let looker = later.mover();
            &&& later.attentive()
            &&& later.memory(pieces::other(looker)) == game.memory(pieces::other(looker))
            &&& !visibility::visible(later.board.position, looker, square) ==> {
                &&& later.memory(looker).pieces[square] == game.memory(looker).pieces[square]
                &&& later.memory(looker).delta_t[square] == memory::aged(
                    game.memory(looker).delta_t[square],
                )
            }
            &&& visibility::visible(later.board.position, looker, square) ==> {
                &&& later.memory(looker).pieces[square] == later.board.position.seen_at(square)
                &&& later.memory(looker).delta_t[square] == 0
            }
        }),
{
    let later = game.after(action);
    memory::looking_brings_up_to_date(
        game.memory(later.mover()),
        later.board.position,
        later.mover(),
    );
}

/// The game after the moves have been carried out one after the other.
pub open spec fn played(board: BoardState, moves: Seq<ChessMove>) -> GameView
    decreases moves.len(),
{
    if moves.len() == 0 {
        GameView::opened(board)
    } else {
        played(board, moves.drop_last()).after(moves.last())
    }
}

/// The positions in which it was the player's turn, the last one included.
pub open spec fn own_turns(board: BoardState, moves: Seq<ChessMove>, player: Color) -> Seq<Position>
    decreases moves.len(),
{
    let now = played(board, moves).board.position;
    let before = if moves.len() == 0 {
        Seq::empty()
    } else {
        own_turns(board, moves.drop_last(), player)
    };
    if now.side_to_move == player {
        before.push(now)
    } else {
        before
    }
}

/// In every state of a game, what a player remembers is what came of looking at the positions in
/// which it was that player's turn, and at no other.
pub proof fn memories_come_from_own_turns(board: BoardState, moves: Seq<ChessMove>, player: Color)
    ensures
        played(board, moves).memory(player) == memory::after_looks(
            own_turns(board, moves, player),
            player,
        ),
        played(board, moves).attentive(),
    decreases moves.len(),
{
    reveal_with_fuel(memory::after_looks, 2);
    let turns = own_turns(board, moves, player);
    let now = played(board, moves).board.position;
    if moves.len() == 0 {
        at_the_opening_nothing_else_is_known(board, 0);
    } else {
        memories_come_from_own_turns(board, moves.drop_last(), player);
        hidden_squares_are_remembered(played(board, moves.drop_last()), moves.last(), 0);
    }
    if now.side_to_move == player {
        assert(turns.drop_last() =~= if moves.len() == 0 {
            Seq::empty()
        } else {
            own_turns(board, moves.drop_last(), player)
        });
        assert(turns.last() == now);
    }
}

/// A move is carried out as it was given: the board of the game after it is the board that this
/// very move leads to. Opening a game and looking change nothing on the board.
pub proof fn moves_are_carried_out_as_given(game: GameView, board: BoardState, action: ChessMove)
    ensures
        game.after(action).board == engine::state_after(game.board, action),
        GameView::opened(board).board == board,
        game.looked().board == game.board,
{
}

/// What a look does to a memory, square by square.
pub proof fn a_look_takes_in_what_is_in_sight(
    memory: Recollection,
    position: Position,
    player: Color,
    square: int,
)
    requires
        memory.wf(),
        squares::on_board(square),
    ensures
        ({
            let later = memory.after_looking(position, player);
            let seen = visibility::visible(position, player, square);
            &&& later.pieces.len() == 64
            &&& later.delta_t.len() == 64
            &&& seen ==> later.pieces[square] == position.seen_at(square)
            &&& seen ==> later.delta_t[square] == 0
            &&& !seen ==> later.pieces[square] == memory.pieces[square]
            &&& !seen && memory.delta_t[square] < 16_777_216 ==> later.delta_t[square]
                == memory.delta_t[square] + 1
            &&& !seen && memory.delta_t[square] >= 16_777_216 ==> later.delta_t[square]
                == 16_777_216
        }),
{
    assert(memory.delta_t[square] <= memory::DELTA_T_LIMIT);
}

} // verus!

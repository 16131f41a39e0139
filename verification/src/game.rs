//! A game of Fog of War chess with what both players remember of it.

use vstd::prelude::*;
use crate::{actions, bitboard, encoding, engine, geometry, mobility, pieces, tables, visibility};
use crate::actions::{ChessMove, number_action};
use crate::encoding::{CPV_LEN, ENCODE_CHANNELS, Ratio, encode_with_oracle};
use crate::engine::{
    board_from_builder, builder_from_str, castle_rights, checkers, color_combined, combined,
    default_board, en_passant, make_move_new, move_from_str, move_to_string, new_legal, pinned,
};
use crate::fen::gives_mover_a_king;
use crate::memory::{MentalBoard, Recollection};
use crate::pieces::{Color, Piece, color_index};
use crate::position::{BoardState, CastleSides, Position};
use crate::squares::{BOARD_SQUARES, Square};
use crate::tables::reshape_rows;
use std::collections::HashSet;

verus! {

/// Why a game refuses what it is asked.
#[derive(Clone, Copy, PartialEq, Eq, Structural, Debug)]
pub enum GameError {
    /// The text describes no position.
    InvalidFen,
    /// The text stands for no move.
    InvalidUci,
    /// The move cannot be carried out.
    Unplayable,
}

/// What is said of an error.
pub open spec fn error_text(error: GameError) -> Seq<char> {
    match error {
        GameError::InvalidFen => "Invalid FEN string"@,
        GameError::InvalidUci => "Invalid UCI move"@,
        GameError::Unplayable => "move cannot be carried out"@,
    }
}

impl GameError {
    /// Says what is wrong.
    pub fn message(&self) -> (message: String)
        ensures
            message@ == error_text(*self),
    {
        match self {
            GameError::InvalidFen => "Invalid FEN string".to_owned(),
            GameError::InvalidUci => "Invalid UCI move".to_owned(),
            GameError::Unplayable => "move cannot be carried out".to_owned(),
        }
    }
}

/// A game as mathematical values: the board and what the two players remember.
#[verifier::ext_equal]
pub struct GameView {
    pub board: BoardState,
    pub white: Recollection,
    pub black: Recollection,
}

impl GameView {
    /// The player to move.
    pub open spec fn mover(self) -> Color {
        self.board.position.side_to_move
    }

    /// What a player remembers.
    pub open spec fn memory(self, player: Color) -> Recollection {
        match player {
            Color::White => self.white,
            Color::Black => self.black,
        }
    }

    /// The game once the player to move has looked at the board.
    pub open spec fn looked(self) -> GameView {
        let position = self.board.position;
        match self.mover() {
            Color::White => GameView {
                white: self.white.after_looking(position, Color::White),
                ..self
            },
            Color::Black => GameView {
                black: self.black.after_looking(position, Color::Black),
                ..self
            },
        }
    }

    /// A game that starts on the given board: nobody has seen anything but the player to move.
    pub open spec fn opened(board: BoardState) -> GameView {
        GameView { board, white: Recollection::blank(), black: Recollection::blank() }.looked()
    }

    /// The game after a move: the player whose turn it is now has looked at the new board.
    pub open spec fn after(self, action: ChessMove) -> GameView {
        GameView { board: engine::state_after(self.board, action), ..self }.looked()
    }

    /// Both memories are well formed, and the player to move has looked at the board.
    pub open spec fn attentive(self) -> bool {
        &&& self.white.wf()
        &&& self.black.wf()
        &&& self.memory(self.mover()).up_to_date(self.board.position, self.mover())
    }

    /// The player to move has looked at the board, whose colours fit its occupied squares.
    pub open spec fn wf(self) -> bool {
        &&& self.attentive()
        &&& self.board.position.wf()
    }

    /// The features of the game for the player to move.
    pub open spec fn encoded(self, oracle: bool) -> Seq<Ratio> {
        encoding::features(self.board.position, self.memory(self.mover()), oracle)
    }
}

/// A game of Fog of War chess.
pub struct SelfPlayGame {
    board: chess::Board,
    memories: [MentalBoard; 2],
}

impl View for SelfPlayGame {
    type V = GameView;

    closed spec fn view(&self) -> GameView {
        GameView {
            board: engine::board_state(self.board),
            white: self.memories@[0]@,
            black: self.memories@[1]@,
        }
    }
}

/// The player whose name the flag is.
fn player_of(is_white: bool) -> (player: Color)
    ensures
        player == if is_white {
            Color::White
        } else {
            Color::Black
        },
{
    if is_white {
        Color::White
    } else {
        Color::Black
    }
}

/// Reads what a board shows.
pub fn read_position(board: &chess::Board) -> (position: Position)
    ensures
        position == engine::board_state(*board).position,
        position.wf(),
{
    Position {
        pawns: engine::pieces(board, Piece::Pawn),
        knights: engine::pieces(board, Piece::Knight),
        bishops: engine::pieces(board, Piece::Bishop),
        rooks: engine::pieces(board, Piece::Rook),
        queens: engine::pieces(board, Piece::Queen),
        kings: engine::pieces(board, Piece::King),
        white: color_combined(board, Color::White),
        black: color_combined(board, Color::Black),
        occupied: combined(board),
        side_to_move: engine::side_to_move(board),
        white_castling: castle_rights(board, Color::White),
        black_castling: castle_rights(board, Color::Black),
        en_passant: en_passant(board),
    }
}

/// Reads all that a board holds.
pub fn read_state(board: &chess::Board) -> (state: BoardState)
    ensures
        state == engine::board_state(*board),
        state.position.wf(),
{
    BoardState { position: read_position(board), pinned: pinned(board), checkers: checkers(board) }
}

impl SelfPlayGame {
    /// The player to move has looked at the board.
    #[verifier::type_invariant]
    spec fn sound(self) -> bool {
        self@.wf()
    }

    /// A game that starts on the given board.
    pub fn new_internal(board: chess::Board) -> (game: SelfPlayGame)
        ensures
            game@ == GameView::opened(engine::board_state(board)),
            game@.board == engine::board_state(board),
            game@.wf(),
    {
        SelfPlayGame::update_mental_boards(board, [MentalBoard::new(), MentalBoard::new()])
    }

    /// A game on the board that the text describes, or on the usual one where no text is given.
    /// The error comes exactly where `chess` cannot read the text, where it gives the player to
    /// move no king, and where `chess` refuses the position. The usual board is one of legal play,
    /// and so is any other on which no pawn may be taken in passing, or one that has just moved.
    pub fn new(fen: Option<&str>) -> (game: Result<SelfPlayGame, GameError>)
        ensures
            match game {
                Ok(game) => {
                    &&& game@.wf()
                    &&& game@.board.position.sane()
                    &&& game@.board.position.passed_in_order() ==> game@.board.regular()
                    &&& match fen {
                        None => {
                            &&& game@ == GameView::opened(crate::position::initial_state())
                            &&& game@.board.lawful()
                        },
                        Some(text) => {
                            &&& engine::fen_setup(text@) matches Some(setup)
                            &&& setup.mover_has_king()
                            &&& setup.shown_by(game@.board.position)
                            &&& engine::setup_state(setup) matches Some(board)
                            &&& game@ == GameView::opened(board)
                            &&& game@.board == board
                        },
                    }
                },
                Err(error) => {
                    &&& error == GameError::InvalidFen
                    &&& fen matches Some(text)
                    &&& match engine::fen_setup(text@) {
                        Some(setup) => !setup.mover_has_king() || engine::setup_state(
                            setup,
                        ) is None,
                        None => true,
                    }
                },
            },
    {
        proof {
            crate::order::the_initial_board_is_lawful();
        }
        let board: chess::Board = match fen {
            Some(text) => {
                let builder: chess::BoardBuilder = match builder_from_str(text) {
                    Ok(builder) => builder,
                    Err(_) => {
                        return Err(GameError::InvalidFen);
                    },
                };
                if !gives_mover_a_king(&builder) {
                    return Err(GameError::InvalidFen);
                }
                match board_from_builder(&builder) {
                    Ok(board) => board,
                    Err(_) => {
                        return Err(GameError::InvalidFen);
                    },
                }
            },
            None => default_board(),
        };
        Ok(SelfPlayGame::new_internal(board))
    }

    /// The game on a board and with the memories from before the player to move has looked at
    /// it: that player looks now.
    fn update_mental_boards(board: chess::Board, memories: [MentalBoard; 2]) -> (game: SelfPlayGame)
        requires
            memories@[0]@.wf(),
            memories@[1]@.wf(),
        ensures
            game@ == (GameView {
                board: engine::board_state(board),
                white: memories@[0]@,
                black: memories@[1]@,
            }).looked(),
            game@.wf(),
    {
        let position: Position = read_position(&board);
        let current_player: Color = position.side_to_move;
        let player_idx: usize = color_index(current_player);
        let mut memory: MentalBoard = memories[player_idx];
        proof {
            crate::memory::looking_brings_up_to_date(memory@, position, current_player);
        }
        memory.look(&position, current_player);
        let mut updated: [MentalBoard; 2] = memories;
        updated[player_idx] = memory;
        SelfPlayGame { board, memories: updated }
    }

    /// What the board shows.
    pub fn position(&self) -> (position: Position)
        ensures
            position == self@.board.position,
    {
        read_position(&self.board)
    }

    /// All that the board holds.
    pub fn state(&self) -> (state: BoardState)
        ensures
            state == self@.board,
            state.position.wf(),
    {
        read_state(&self.board)
    }

    /// What a player remembers.
    pub fn memory(&self, player: Color) -> (memory: MentalBoard)
        ensures
            memory@ == self@.memory(player),
    {
        self.memories[color_index(player)]
    }

    /// The player to move.
    pub fn side_to_move(&self) -> (side: Color)
        ensures
            side == self@.mover(),
    {
        engine::side_to_move(&self.board)
    }

    /// It is white's turn.
    pub fn turn(&self) -> (white: bool)
        ensures
            white == (self@.mover() == Color::White),
            white == (self@.board.position.side_to_move == Color::White),
    {
        self.side_to_move() == Color::White
    }

    /// It is white's turn.
    pub fn current_player(&self) -> (white: bool)
        ensures
            white == (self@.mover() == Color::White),
            white == (self@.board.position.side_to_move == Color::White),
    {
        self.side_to_move() == Color::White
    }

    /// The board as eight rows of numbers, the eighth rank first.
    pub fn board_matrix(&self) -> (matrix: Vec<Vec<i8>>)
        ensures
            crate::position::is_matrix_of(matrix@, self@.board.position),
    {
        self.position().board_matrix()
    }

    /// The board as eight rows of numbers, the eighth rank first.
    pub fn board(&self) -> (matrix: Vec<Vec<i8>>)
        ensures
            crate::position::is_matrix_of(matrix@, self@.board.position),
    {
        self.board_matrix()
    }

    /// Whether the player to move may still castle on the king's and on the queen's side.
    pub fn castle_eligible_internal(&self) -> (sides: (bool, bool))
        ensures
            sides.0 == self@.board.position.castling(self@.mover()).kingside,
            sides.1 == self@.board.position.castling(self@.mover()).queenside,
            self@.board.position.side_to_move == Color::White ==> sides == (
                self@.board.position.white_castling.kingside,
                self@.board.position.white_castling.queenside,
            ),
            self@.board.position.side_to_move == Color::Black ==> sides == (
                self@.board.position.black_castling.kingside,
                self@.board.position.black_castling.queenside,
            ),
    {
        let sides: CastleSides = castle_rights(&self.board, self.side_to_move());
        (sides.kingside, sides.queenside)
    }

    /// Whether the player to move may still castle on the king's and on the queen's side.
    pub fn castle_eligible(&self) -> (sides: (bool, bool))
        ensures
            sides.0 == self@.board.position.castling(self@.mover()).kingside,
            sides.1 == self@.board.position.castling(self@.mover()).queenside,
            self@.board.position.side_to_move == Color::White ==> sides == (
                self@.board.position.white_castling.kingside,
                self@.board.position.white_castling.queenside,
            ),
            self@.board.position.side_to_move == Color::Black ==> sides == (
                self@.board.position.black_castling.kingside,
                self@.board.position.black_castling.queenside,
            ),
    {
        self.castle_eligible_internal()
    }

    /// Tells whether the legal moves can be listed, as they can on every board of legal play.
    pub fn can_list_actions(&self) -> (listable: bool)
        ensures
            listable == self@.board.listable(),
            self@.board.lawful() ==> listable,
    {
        let state: BoardState = self.state();
        proof {
            if state.lawful() {
                mobility::lawful_boards_are_listable(state);
            }
        }
        state.is_listable()
    }

    /// The legal moves. Each has a number for the player to move, and where the position makes
    /// sense each can be carried out.
    pub fn legal_actions_internal(&self) -> (moves: Vec<ChessMove>)
        requires
            self@.board.listable(),
        ensures
            moves@ == engine::legal_moves(self@.board),
            forall|i: int| #![trigger moves@[i]]
                0 <= i < moves@.len() ==> {
                    &&& moves@[i].wf()
                    &&& actions::action_number(self@.mover(), moves@[i]) is Some
                    &&& self@.board.position.sane() ==> self@.board.position.playable(moves@[i])
                },
    {
        let moves: Vec<ChessMove> = new_legal(&self.board);
        proof {
            let position = self@.board.position;
            assert forall|i: int| #![trigger moves@[i]]
                0 <= i < moves@.len() && position.sane() implies position.playable(moves@[i]) by {
                let piece = choose|piece: Piece| #[trigger] position.made_by(moves@[i], piece);
                crate::order::lemma_made_moves_are_playable(position, moves@[i], piece);
            }
        }
        moves
    }

    /// The legal moves in the UCI notation; nothing where they cannot be listed. Each text stands
    /// for its move, which can be carried out where the position makes sense.
    pub fn legal_actions(&self) -> (texts: Option<Vec<String>>)
        ensures
            texts is Some <==> self@.board.listable(),
            self@.board.lawful() ==> texts is Some,
            texts matches Some(texts) ==> {
                let moves = engine::legal_moves(self@.board);
                &&& texts@.len() == moves.len()
                &&& forall|i: int| #![trigger texts@[i]]
                    0 <= i < moves.len() ==> {
                        &&& texts@[i]@ == actions::uci_text(moves[i])
                        &&& actions::uci_move(texts@[i]@) == Some(moves[i])
                        &&& self@.board.position.sane() ==> self@.board.position.playable(moves[i])
                    }
            },
    {
        if !self.can_list_actions() {
            return None;
        }
        let moves: Vec<ChessMove> = self.legal_actions_internal();
        let texts: Vec<String> = texts_of(&moves);
        proof {
            assert forall|i: int| #![trigger texts@[i]] 0 <= i
                < moves@.len() implies actions::uci_move(texts@[i]@) == Some(moves@[i]) by {
                actions::uci_text_round_trip(moves@[i]);
            }
        }
        Some(texts)
    }

    /// Tells whether a move can be carried out.
    pub fn can_apply(&self, action: ChessMove) -> (playable: bool)
        requires
            action.wf(),
        ensures
            playable == self@.board.position.playable(action),
    {
        self.position().is_playable(action)
    }

    /// Carries out a move, after which it is the other player's turn, who looks at the board. What
    /// the player who moved remembers stays as it was. A legal move leads from a board of legal
    /// play to another.
    pub fn apply_internal(&mut self, action: ChessMove)
        requires
            action.wf(),
            old(self)@.board.position.playable(action),
        ensures
            final(self)@ == old(self)@.after(action),
            final(self)@.board == engine::state_after(old(self)@.board, action),
            final(self)@.wf(),
            final(self)@.mover() == pieces::other(old(self)@.mover()),
            final(self)@.memory(old(self)@.mover()) == old(self)@.memory(old(self)@.mover()),
            old(self)@.board.lawful() && engine::legal_moves(old(self)@.board).contains(action)
                ==> final(self)@.board.lawful(),
    {
        proof {
            use_type_invariant(&*self);
            if self@.board.lawful() {
                mobility::lawful_boards_are_listable(self@.board);
            }
        }
        let board: chess::Board = make_move_new(&self.board, action);
        *self = SelfPlayGame::update_mental_boards(board, self.memories);
    }

    /// Carries out a move given in the UCI notation. Where the text stands for no move, or for
    /// one that cannot be carried out, the game stays as it was.
    pub fn apply(&mut self, uci: &str) -> (outcome: Result<(), GameError>)
        ensures
            match actions::uci_move(uci@) {
                None => outcome == Err::<(), GameError>(GameError::InvalidUci) && final(self)@ == old(
                    self,
                )@,
                Some(action) => if old(self)@.board.position.playable(action) {
                    &&& outcome is Ok
                    &&& final(self)@ == old(self)@.after(action)
                    &&& final(self)@.board == engine::state_after(old(self)@.board, action)
                    &&& final(self)@.mover() == pieces::other(old(self)@.mover())
                    &&& old(self)@.board.lawful() && engine::legal_moves(
                        old(self)@.board,
                    ).contains(action) ==> final(self)@.board.lawful()
                } else {
                    &&& outcome == Err::<(), GameError>(GameError::Unplayable)
                    &&& final(self)@ == old(self)@
                },
            },
    {
        let action: ChessMove = match move_from_str(uci) {
            Ok(action) => action,
            Err(_) => {
                return Err(GameError::InvalidUci);
            },
        };
        if !self.can_apply(action) {
            return Err(GameError::Unplayable);
        }
        self.apply_internal(action);
        Ok(())
    }

    /// The game is over: a king is gone.
    pub fn is_terminal_internal(&self) -> (terminal: bool)
        ensures
            terminal == (!self@.board.position.has_king(Color::White)
                || !self@.board.position.has_king(Color::Black)),
    {
        self.position().is_terminal()
    }

    /// The game is over: a king is gone.
    pub fn is_terminal(&self) -> (terminal: bool)
        ensures
            terminal == (!self@.board.position.has_king(Color::White)
                || !self@.board.position.has_king(Color::Black)),
    {
        self.is_terminal_internal()
    }

    /// The worth of the game for a player: 1 for a win, -1 for a loss, 0 while it goes on.
    pub fn terminal_value_internal(&self, player: Color) -> (value: i8)
        ensures
            value == self@.board.position.outcome(player),
    {
        self.position().terminal_value(player)
    }

    /// The worth of the game for a player: 1 for a win, -1 for a loss, 0 while it goes on.
    pub fn terminal_value(&self, player_is_white: bool) -> (value: i8)
        ensures
            value == self@.board.position.outcome(
                if player_is_white {
                    Color::White
                } else {
                    Color::Black
                },
            ),
    {
        self.terminal_value_internal(player_of(player_is_white))
    }

    /// Tells whether a king of the given colour is on the board.
    pub fn king_present(&self, color: Color) -> (present: bool)
        ensures
            present == self@.board.position.has_king(color),
    {
        self.position().king_present(color)
    }

    /// The squares that a piece would attack from a square of this board.
    pub fn piece_attacks(&self, square: Square, piece: Piece, color: Color) -> (mask: u64)
        requires
            square.wf(),
        ensures
            forall|to: int| #![trigger bitboard::holds(mask, to)]
                0 <= to < 64 ==> bitboard::holds(mask, to) == geometry::attacks(
                    piece,
                    color,
                    self@.board.position.occupied,
                    square.index as int,
                    to,
                ),
    {
        visibility::piece_attacks(&self.position(), square.index as usize, piece, color)
    }

    /// The squares that a player sees.
    pub fn compute_visibility(&self, player: Color) -> (seen: HashSet<usize>)
        ensures
            forall|square: usize| #![trigger seen@.contains(square)]
                seen@.contains(square) <==> square < BOARD_SQUARES && visibility::visible(
                    self@.board.position,
                    player,
                    square as int,
                ),
    {
        visibility::compute_visibility(&self.position(), player)
    }

    /// The shares of the opponent's pawns, knights, bishops, rooks and queens that are gone.
    pub fn captured_piece_vector(&self, current_player: Color) -> (shares: [Ratio; CPV_LEN])
        ensures
            forall|place: int| #![trigger shares@[place]]
                0 <= place < 5 ==> shares@[place] == encoding::captured_share(
                    self@.board.position,
                    current_player,
                    place,
                ),
    {
        encoding::captured_piece_vector(&self.position(), current_player)
    }

    /// The features of the game for the player to move.
    pub fn encode_flat(&self) -> (encoded: Vec<Ratio>)
        ensures
            encoded@ == self@.encoded(false),
    {
        self.encode_flat_with_oracle(false)
    }

    /// The features of the game for the player to move. With `oracle` nothing is hidden.
    pub fn encode_flat_with_oracle(&self, oracle: bool) -> (encoded: Vec<Ratio>)
        ensures
            encoded@ == self@.encoded(oracle),
    {
        let current_player: Color = self.side_to_move();
        encode_with_oracle(&self.position(), &self.memory(current_player), oracle)
    }

    /// The features of the game, one row for each square as the player to move counts them.
    pub fn encode(&self, oracle: bool) -> (rows: Vec<Vec<Ratio>>)
        ensures
            rows@.len() == 64,
            forall|row: int| #![trigger rows@[row]]
                0 <= row < 64 ==> rows@[row]@ == self@.encoded(oracle).subrange(
                    row * 35,
                    row * 35 + 35,
                ),
    {
        let flat: Vec<Ratio> = self.encode_flat_with_oracle(oracle);
        let ghost data = flat@;
        let rows: Vec<Vec<Ratio>> = reshape_rows(flat, ENCODE_CHANNELS);
        proof {
            tables::rows_are_full(data, 35, 64);
            assert forall|row: int| #![trigger rows@[row]] 0 <= row < 64 implies rows@[row]@
                == data.subrange(row * 35, row * 35 + 35) by {
                assert(tables::rows_of(rows@)[row] == rows@[row]@);
                assert(tables::chunks(data, 35)[row] == data.subrange(row * 35, (row + 1) * 35));
            }
            assert(tables::rows_of(rows@).len() == rows@.len());
        }
        rows
    }

    /// The number of a move for the player to move.
    pub fn action_index_internal(&self, action: ChessMove) -> (number: Result<usize, String>)
        requires
            action.wf(),
        ensures
            match number {
                Ok(n) => actions::action_number(self@.mover(), action) == Some(n as int),
                Err(message) => {
                    &&& actions::action_number(self@.mover(), action) is None
                    &&& message@ == actions::unsupported_promotion(action.promotion->0)
                },
            },
    {
        number_action(self.side_to_move(), action)
    }

    /// The number of a move given in the UCI notation.
    pub fn action_index(&self, uci: &str) -> (number: Result<usize, GameError>)
        ensures
            match actions::uci_move(uci@) {
                None => number == Err::<usize, GameError>(GameError::InvalidUci),
                Some(action) => {
                    &&& number matches Ok(n)
                    &&& actions::action_number(self@.mover(), action) == Some(n as int)
                },
            },
    {
        match move_from_str(uci) {
            Ok(action) => match self.action_index_internal(action) {
                Ok(number) => Ok(number),
                Err(_) => Err(GameError::InvalidUci),
            },
            Err(_) => Err(GameError::InvalidUci),
        }
    }
}

impl Clone for SelfPlayGame {
    fn clone(&self) -> (copy: SelfPlayGame)
        ensures
            copy@ == self@,
    {
        proof {
            use_type_invariant(self);
        }
        SelfPlayGame { board: self.board, memories: self.memories }
    }
}

/// The texts of moves in the UCI notation.
pub fn texts_of(moves: &Vec<ChessMove>) -> (texts: Vec<String>)
    requires
        forall|i: int| #![trigger moves@[i]] 0 <= i < moves@.len() ==> moves@[i].wf(),
    ensures
        texts@.len() == moves@.len(),
        forall|i: int| #![trigger texts@[i]]
            0 <= i < moves@.len() ==> texts@[i]@ == actions::uci_text(moves@[i]),
{
    let mut texts: Vec<String> = Vec::new();
    let mut done: usize = 0;
    while done < moves.len()
        invariant
            done <= moves@.len(),
            texts@.len() == done,
            forall|i: int| #![trigger moves@[i]] 0 <= i < moves@.len() ==> moves@[i].wf(),
            forall|i: int| #![trigger texts@[i]]
                0 <= i < done ==> texts@[i]@ == actions::uci_text(moves@[i]),
        decreases moves.len() - done,
    {
        texts.push(move_to_string(moves[done]));
        done = done + 1;
    }
    texts
}

} // verus!

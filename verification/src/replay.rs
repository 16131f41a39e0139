//! A game played from the bytes of an input, beside another account of the same game.
//!
//! The other account is out of sight. The one who holds it is told what to ask it and reports the
//! answer; here it is decided what comes next.

use vstd::prelude::*;
use crate::{actions, engine, fuzzing, mobility};
use crate::actions::ChessMove;
use crate::fuzzing::{StateReport, compare_state, new_default_game, pick_action, steps_of};
use crate::game::{GameView, SelfPlayGame};

verus! {

/// What is waited for.
#[derive(Clone, Copy, PartialEq, Eq, Structural, Debug)]
pub enum Phase {
    /// The account of the state at the start.
    Starting,
    /// The number of a move.
    Numbering(ChessMove),
    /// That the move has been played.
    Playing(ChessMove),
    /// The account of the state after a move.
    Checking,
    /// Nothing more.
    Done,
}

/// What the other account has to say.
pub enum Event {
    /// The state of the game, if it could be told, and whether its encoding agrees.
    State(Option<StateReport>, bool),
    /// The number of the move, if there is one.
    Number(Option<usize>),
    /// Whether the move was played.
    Played(bool),
}

/// What is asked of the other account.
#[derive(Clone, Copy, PartialEq, Eq, Structural, Debug)]
pub enum Demand {
    /// Tell the state of the game.
    State,
    /// Tell the number of a move.
    Number(ChessMove),
    /// Play a move.
    Play(ChessMove),
    /// Stop: there is nothing left to do.
    Stop,
    /// Stop: the accounts differ.
    Fail(Failure),
}

/// How the accounts differ, and at which step.
#[derive(Clone, Copy, PartialEq, Eq, Structural, Debug)]
pub enum Failure {
    StateAtStart,
    Number(usize),
    State(usize),
}

/// A replay as mathematical values: the game, the input, how many moves are done and what is
/// waited for.
#[verifier::ext_equal]
pub struct ReplayView {
    pub game: GameView,
    pub data: Seq<u8>,
    pub step: int,
    pub phase: Phase,
}

/// The smaller of the length of the input and the most moves that are played.
pub open spec fn step_limit(length: nat) -> int {
    if length < 64 {
        length as int
    } else {
        64
    }
}

impl ReplayView {
    /// A pending move is a legal one that has a number and can be carried out.
    pub open spec fn pending(self, action: ChessMove) -> bool {
        &&& action.wf()
        &&& actions::action_number(self.game.mover(), action) is Some
        &&& engine::legal_moves(self.game.board).contains(action)
        &&& self.game.board.position.playable(action)
        &&& self.step < step_limit(self.data.len())
    }

    /// The game is one of legal play, and there is a byte for each step.
    pub open spec fn wf(self) -> bool {
        &&& self.game.wf()
        &&& self.game.board.lawful()
        &&& 0 <= self.step <= step_limit(self.data.len())
        &&& match self.phase {
            Phase::Numbering(action) => self.pending(action),
            Phase::Playing(action) => self.pending(action),
            Phase::Checking => self.step < step_limit(self.data.len()),
            _ => true,
        }
    }

    /// A replay of the input on the usual board.
    pub open spec fn opened(data: Seq<u8>) -> ReplayView {
        ReplayView {
            game: GameView::opened(crate::position::initial_state()),
            data,
            step: 0,
            phase: Phase::Starting,
        }
    }

    /// The move that the next byte picks; none where the input or the moves run out.
    pub open spec fn choice(self) -> Option<ChessMove> {
        let moves = engine::legal_moves(self.game.board);
        if self.step < step_limit(self.data.len()) && moves.len() > 0 {
            Some(moves[self.data[self.step] as int % moves.len() as int])
        } else {
            None
        }
    }

    /// The replay is over.
    pub open spec fn ended(self, demand: Demand) -> (ReplayView, Demand) {
        (ReplayView { phase: Phase::Done, ..self }, demand)
    }

    /// The next move is picked.
    pub open spec fn proposed(self) -> (ReplayView, Demand) {
        match self.choice() {
            Some(action) => (
                ReplayView { phase: Phase::Numbering(action), ..self },
                Demand::Number(action),
            ),
            None => self.ended(Demand::Stop),
        }
    }

    /// The account of the state is right. One that could not be told is not.
    pub open spec fn confirmed(self, report: Option<StateReport>, encodings_agree: bool) -> bool {
        match report {
            Some(report) => fuzzing::first_error(self.game, report, encodings_agree) is None,
            None => false,
        }
    }

    /// The replay after an event, and what is asked next. An event that was not waited for ends
    /// the replay.
    pub open spec fn advanced(self, event: Event) -> (ReplayView, Demand) {
        match (self.phase, event) {
            (Phase::Starting, Event::State(report, encodings_agree)) => if self.confirmed(
                report,
                encodings_agree,
            ) {
                self.proposed()
            } else {
                self.ended(Demand::Fail(Failure::StateAtStart))
            },
            (Phase::Numbering(action), Event::Number(theirs)) => match (
                theirs,
                actions::action_number(self.game.mover(), action),
            ) {
                (Some(theirs), Some(ours)) => if ours == theirs {
                    (ReplayView { phase: Phase::Playing(action), ..self }, Demand::Play(action))
                } else {
                    self.ended(Demand::Fail(Failure::Number(self.step as usize)))
                },
                _ => self.ended(Demand::Stop),
            },
            (Phase::Playing(action), Event::Played(played)) => if played {
                (
                    ReplayView { game: self.game.after(action), phase: Phase::Checking, ..self },
                    Demand::State,
                )
            } else {
                self.ended(Demand::Stop)
            },
            (Phase::Checking, Event::State(report, encodings_agree)) => if self.confirmed(
                report,
                encodings_agree,
            ) {
                (ReplayView { step: self.step + 1, ..self }).proposed()
            } else {
                self.ended(Demand::Fail(Failure::State(self.step as usize)))
            },
            _ => self.ended(Demand::Stop),
        }
    }
}

/// A replay of an input.
pub struct Replay {
    game: SelfPlayGame,
    data: Vec<u8>,
    step: usize,
    phase: Phase,
}

impl View for Replay {
    type V = ReplayView;

    closed spec fn view(&self) -> ReplayView {
        ReplayView {
            game: self.game@,
            data: self.data@,
            step: self.step as int,
            phase: self.phase,
        }
    }
}

impl Replay {
    /// The game is one of legal play, and there is a byte for each step.
    #[verifier::type_invariant]
    spec fn sound(self) -> bool {
        self@.wf()
    }

    /// A replay of the input on the usual board; the state at the start is asked for first.
    pub fn new(data: Vec<u8>) -> (opened: (Replay, Demand))
        ensures
            opened.0@ == ReplayView::opened(data@),
            opened.0@.wf(),
            opened.1 == Demand::State,
    {
        let game: SelfPlayGame = new_default_game();
        (Replay { game, data, step: 0, phase: Phase::Starting }, Demand::State)
    }

    /// The game as far as it has been played.
    pub fn game(&self) -> (game: &SelfPlayGame)
        ensures
            game@ == self@.game,
    {
        &self.game
    }

    /// Ends the replay.
    fn end(self, demand: Demand) -> (ended: (Replay, Demand))
        ensures
            (ended.0@, ended.1) == self@.ended(demand),
            ended.0@.wf(),
    {
        proof {
            use_type_invariant(&self);
        }
        let Replay { game, data, step, phase: _ } = self;
        (Replay { game, data, step, phase: Phase::Done }, demand)
    }

    /// Picks the next move.
    fn propose(self) -> (proposed: (Replay, Demand))
        ensures
            (proposed.0@, proposed.1) == self@.proposed(),
            proposed.0@.wf(),
    {
        proof {
            use_type_invariant(&self);
        }
        if self.step >= steps_of(self.data.len()) {
            return self.end(Demand::Stop);
        }
        proof {
            mobility::lawful_boards_are_listable(self@.game.board);
        }
        let moves: Vec<ChessMove> = self.game.legal_actions_internal();
        match pick_action(&moves, self.data[self.step]) {
            Some(action) => {
                let Replay { game, data, step, phase: _ } = self;
                (
                    Replay { game, data, step, phase: Phase::Numbering(action) },
                    Demand::Number(action),
                )
            },
            None => self.end(Demand::Stop),
        }
    }

    /// Tells whether an account of the state is right.
    fn confirms(&self, report: &Option<StateReport>, encodings_agree: bool) -> (confirmed: bool)
        ensures
            confirmed == self@.confirmed(*report, encodings_agree),
    {
        proof {
            use_type_invariant(self);
            mobility::lawful_boards_are_listable(self@.game.board);
        }
        match report {
            Some(report) => compare_state(&self.game, report, encodings_agree).is_ok(),
            None => false,
        }
    }

    /// Takes in an event and decides what is asked next.
    pub fn advance(self, event: Event) -> (next: (Replay, Demand))
        ensures
            (next.0@, next.1) == self@.advanced(event),
            next.0@.wf(),
    {
        proof {
            use_type_invariant(&self);
        }
        match (self.phase, event) {
            (Phase::Starting, Event::State(report, encodings_agree)) => {
                if self.confirms(&report, encodings_agree) {
                    self.propose()
                } else {
                    self.end(Demand::Fail(Failure::StateAtStart))
                }
            },
            (Phase::Numbering(action), Event::Number(theirs)) => {
                match (theirs, self.game.action_index_internal(action)) {
                    (Some(theirs), Ok(ours)) => {
                        if ours != theirs {
                            let step: usize = self.step;
                            return self.end(Demand::Fail(Failure::Number(step)));
                        }
                        let Replay { game, data, step, phase: _ } = self;
                        (
                            Replay { game, data, step, phase: Phase::Playing(action) },
                            Demand::Play(action),
                        )
                    },
                    _ => self.end(Demand::Stop),
                }
            },
            (Phase::Playing(action), Event::Played(played)) => {
                if !played {
                    return self.end(Demand::Stop);
                }
                let Replay { mut game, data, step, phase: _ } = self;
                game.apply_internal(action);
                (Replay { game, data, step, phase: Phase::Checking }, Demand::State)
            },
            (Phase::Checking, Event::State(report, encodings_agree)) => {
                if self.confirms(&report, encodings_agree) {
                    let Replay { game, data, step, phase: _ } = self;
                    let later: Replay = Replay { game, data, step: step + 1, phase: Phase::Done };
                    later.propose()
                } else {
                    let step: usize = self.step;
                    self.end(Demand::Fail(Failure::State(step)))
                }
            },
            _ => self.end(Demand::Stop),
        }
    }
}

/// What the other account says is no different from the game: a state is right, and where both
/// have a number it is the same.
pub open spec fn truthful(replay: ReplayView, event: Event) -> bool {
    match (replay.phase, event) {
        (Phase::Starting, Event::State(report, encodings_agree)) => replay.confirmed(
            report,
            encodings_agree,
        ),
        (Phase::Checking, Event::State(report, encodings_agree)) => replay.confirmed(
            report,
            encodings_agree,
        ),
        (Phase::Numbering(action), Event::Number(theirs)) => match (
            theirs,
            actions::action_number(replay.game.mover(), action),
        ) {
            (Some(theirs), Some(ours)) => ours == theirs,
            _ => true,
        },
        _ => true,
    }
}

/// A replay fails exactly where the accounts differ.
pub proof fn replays_fail_where_accounts_differ(replay: ReplayView, event: Event)
    requires
        replay.wf(),
    ensures
        replay.advanced(event).1 is Fail <==> !truthful(replay, event),
{
}

/// The other account answers what it was asked, and has no reason to stop.
pub open spec fn willing(replay: ReplayView, event: Event) -> bool {
    match (replay.phase, event) {
        (Phase::Starting, Event::State(_, _)) => true,
        (Phase::Checking, Event::State(_, _)) => true,
        (Phase::Numbering(_), Event::Number(theirs)) => theirs is Some,
        (Phase::Playing(_), Event::Played(played)) => played,
        _ => false,
    }
}

/// Play by legal moves goes on: with an account that answers and does not differ, a replay stops
/// only where the input has no more bytes or the player to move no more moves.
pub proof fn replays_stop_where_the_input_or_the_moves_end(replay: ReplayView, event: Event)
    requires
        replay.wf(),
        truthful(replay, event),
        willing(replay, event),
    ensures
        ({
            let (next, demand) = replay.advanced(event);
            demand is Stop ==> next.step == step_limit(next.data.len()) || engine::legal_moves(
                next.game.board,
            ).len() == 0
        }),
{
}

/// How many events there can be before a replay is over.
pub open spec fn events_left(replay: ReplayView) -> int {
    let moves = step_limit(replay.data.len()) - replay.step;
    match replay.phase {
        Phase::Starting => 3 * moves + 1,
        Phase::Numbering(_) => 3 * moves,
        Phase::Playing(_) => 3 * moves - 1,
        Phase::Checking => 3 * moves - 2,
        Phase::Done => 0,
    }
}

/// With each event a replay comes closer to its end, which it reaches exactly when it stops or
/// fails: after one event at the start and three for each of at most 64 moves.
pub proof fn replays_come_to_an_end(replay: ReplayView, event: Event)
    requires
        replay.wf(),
    ensures
        0 <= events_left(replay) <= 193,
        ({
            let (next, demand) = replay.advanced(event);
            &&& demand is Stop || demand is Fail <==> next.phase is Done
            &&& next.phase is Done || events_left(next) < events_left(replay)
        }),
{
}

/// A replay asks for the number of the legal move that the next byte picks, has that very move
/// played, and goes on from the board that it leads to, one byte further.
pub proof fn replays_play_what_the_bytes_pick(replay: ReplayView, event: Event)
    requires
        replay.wf(),
    ensures
        ({
            let (next, demand) = replay.advanced(event);
            let limit = if replay.data.len() < 64 {
                replay.data.len() as int
            } else {
                64
            };
            let moves = engine::legal_moves(next.game.board);
            &&& next.data == replay.data
            &&& demand matches Demand::Number(action) ==> {
                &&& next.phase == Phase::Numbering(action)
                &&& next.game == replay.game
                &&& next.step == replay.step + if replay.phase is Checking {
                    1int
                } else {
                    0
                }
                &&& next.step < limit
                &&& moves.len() > 0
                &&& action == moves[next.data[next.step] as int % moves.len() as int]
            }
            &&& demand matches Demand::Play(action) ==> {
                &&& replay.phase == Phase::Numbering(action)
                &&& next.phase == Phase::Playing(action)
                &&& next.game == replay.game
                &&& next.step == replay.step
            }
            &&& demand == Demand::State ==> {
                &&& replay.phase matches Phase::Playing(action)
                &&& next.game == replay.game.after(action)
                &&& next.game.board == engine::state_after(replay.game.board, action)
                &&& next.phase == Phase::Checking
                &&& next.step == replay.step
            }
            &&& demand matches Demand::Fail(failure) ==> match failure {
                Failure::StateAtStart => replay.phase is Starting,
                Failure::Number(step) => replay.phase is Numbering && step == replay.step,
                Failure::State(step) => replay.phase is Checking && step == replay.step,
            }
        }),
{
}

/// A replay starts on the usual board with no byte used, and asks for the state first.
pub proof fn replays_start_at_the_first_byte(data: Seq<u8>)
    ensures
        ({
            let replay = ReplayView::opened(data);
            &&& replay.game.board == crate::position::initial_state()
            &&& replay.data == data
            &&& replay.step == 0
            &&& replay.phase == Phase::Starting
        }),
{
}

} // verus!

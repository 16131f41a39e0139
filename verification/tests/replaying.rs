//! Games played from the bytes of an input.

use fow_rl::fuzzing;
use fow_rl::fuzzing::StateReport;
use fow_rl::game::SelfPlayGame;
use fow_rl::replay::{Demand, Event, Failure, Replay};

fn report(game: &SelfPlayGame) -> Option<StateReport> {
    Some(StateReport {
        turn: game.turn(),
        board: game.board(),
        castle: game.castle_eligible(),
        actions: game.legal_actions().unwrap(),
    })
}

/// Plays with an account that is right up to the given event; returns how it ends, how many
/// events there were and how many moves were played.
fn play(data: &[u8], wrong_from: usize) -> (Demand, usize, usize) {
    let (mut replay, mut demand) = Replay::new(data.to_vec());
    let mut events = 0;
    let mut moves = 0;
    loop {
        let right = events < wrong_from;
        let event = match demand {
            Demand::State => Event::State(report(replay.game()), right),
            Demand::Number(action) => {
                let number = fuzzing::action_index(replay.game(), action).unwrap();
                Event::Number(Some(if right { number } else { number + 1 }))
            }
            Demand::Play(_) => {
                moves += 1;
                Event::Played(true)
            }
            Demand::Stop | Demand::Fail(_) => return (demand, events, moves),
        };
        events += 1;
        let next = replay.advance(event);
        replay = next.0;
        demand = next.1;
    }
}

#[test]
fn an_input_plays_one_move_for_each_byte() {
    assert_eq!(play(&[], 1000), (Demand::Stop, 1, 0));
    assert_eq!(play(&[7], 1000), (Demand::Stop, 4, 1));
    assert_eq!(play(&[0, 1, 2, 3, 250], 1000), (Demand::Stop, 16, 5));
    let long: Vec<u8> = (0..100).map(|step| (step * 37 % 251) as u8).collect();
    let (end, events, moves) = play(&long, 1000);
    assert_eq!(end, Demand::Stop);
    assert!(moves <= 64);
    assert_eq!(events, 3 * moves + 1);
}

#[test]
fn a_replay_fails_where_the_accounts_differ() {
    assert_eq!(play(&[1, 2, 3], 0), (Demand::Fail(Failure::StateAtStart), 1, 0));
    assert_eq!(play(&[1, 2, 3], 1), (Demand::Fail(Failure::Number(0)), 2, 0));
    assert_eq!(play(&[1, 2, 3], 2), (Demand::Fail(Failure::State(0)), 4, 1));
    assert_eq!(play(&[1, 2, 3], 4), (Demand::Fail(Failure::Number(1)), 5, 1));
    assert_eq!(play(&[1, 2, 3], 9), (Demand::Fail(Failure::State(2)), 10, 3));
}

#[test]
fn the_bytes_pick_the_moves() {
    let (replay, demand) = Replay::new(vec![23]);
    assert_eq!(demand, Demand::State);
    let moves = fuzzing::legal_actions(replay.game());
    let state = report(replay.game());
    let (replay, demand) = replay.advance(Event::State(state, true));
    assert_eq!(demand, Demand::Number(moves[3]));
    let number = fuzzing::action_index(replay.game(), moves[3]).unwrap();
    let (replay, demand) = replay.advance(Event::Number(Some(number)));
    assert_eq!(demand, Demand::Play(moves[3]));
    assert!(replay.game().turn());
    let (replay, demand) = replay.advance(Event::Played(true));
    assert_eq!(demand, Demand::State);
    assert!(!replay.game().turn());
}

#[test]
fn a_replay_stops_where_the_other_side_gives_up() {
    let open = || {
        let (replay, _) = Replay::new(vec![5, 6]);
        let state = report(replay.game());
        replay.advance(Event::State(state, true))
    };
    let (replay, _) = open();
    assert_eq!(replay.advance(Event::Number(None)).1, Demand::Stop);

    let (replay, demand) = open();
    let action = match demand {
        Demand::Number(action) => action,
        other => panic!("{:?}", other),
    };
    let number = fuzzing::action_index(replay.game(), action).unwrap();
    let (replay, _) = replay.advance(Event::Number(Some(number)));
    let (replay, demand) = replay.advance(Event::Played(false));
    assert_eq!(demand, Demand::Stop);
    assert!(replay.game().turn());
    // Nothing more comes of it.
    assert_eq!(replay.advance(Event::Played(true)).1, Demand::Stop);

    // A state that cannot be told is a difference; an answer to another question ends the replay.
    let (replay, _) = Replay::new(vec![5]);
    let (_, demand) = replay.advance(Event::State(None, true));
    assert_eq!(demand, Demand::Fail(Failure::StateAtStart));
    let (replay, _) = Replay::new(vec![5]);
    assert_eq!(replay.advance(Event::Played(true)).1, Demand::Stop);
}

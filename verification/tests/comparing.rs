//! Accounts of a game held against each other, and texts asked of objects.

use fow_rl::fuzzing;
use fow_rl::fuzzing::{Mismatch, StateReport};
use fow_rl::game::SelfPlayGame;
use fow_rl::text_source::{Query, Reply, Step, Subject, first_query, next_step};

fn report(game: &SelfPlayGame) -> StateReport {
    let mut actions = game.legal_actions().unwrap();
    actions.sort();
    StateReport {
        turn: fuzzing::is_white_to_move(game),
        board: fuzzing::board_matrix(game),
        castle: fuzzing::castle_eligible(game),
        actions,
    }
}

#[test]
fn a_true_account_is_accepted() {
    let mut game = fuzzing::new_default_game();
    assert_eq!(fuzzing::compare_state(&game, &report(&game), true), Ok(()));
    let first = fuzzing::legal_actions(&game)[0];
    fuzzing::apply(&mut game, first);
    assert!(!fuzzing::is_white_to_move(&game));
    assert_eq!(fuzzing::compare_state(&game, &report(&game), true), Ok(()));
    assert_eq!(fuzzing::encode_flat(&game), game.encode_flat());
    assert_eq!(fuzzing::action_index(&game, first), game.action_index_internal(first));
}

#[test]
fn the_first_difference_is_named() {
    let game = fuzzing::new_default_game();
    let mut theirs = report(&game);
    assert_eq!(fuzzing::compare_state(&game, &theirs, false), Err(Mismatch::Encoding));

    theirs.actions.pop();
    assert_eq!(fuzzing::compare_state(&game, &theirs, true), Err(Mismatch::LegalActions));
    theirs.actions.push("a2a3".to_string());
    assert_eq!(fuzzing::compare_state(&game, &theirs, true), Err(Mismatch::LegalActions));

    theirs.castle.1 = false;
    assert_eq!(fuzzing::compare_state(&game, &theirs, false), Err(Mismatch::Castling));

    theirs.board[7][4] = 0;
    assert_eq!(fuzzing::compare_state(&game, &theirs, false), Err(Mismatch::Board));
    theirs.board = fuzzing::board_matrix(&game);
    theirs.board.push(Vec::new());
    assert_eq!(fuzzing::compare_state(&game, &theirs, false), Err(Mismatch::Board));

    theirs.turn = false;
    assert_eq!(fuzzing::compare_state(&game, &theirs, false), Err(Mismatch::Turn));
}

#[test]
fn the_order_of_moves_does_not_matter() {
    let game = fuzzing::new_default_game();
    let ours = report(&game);
    let mut theirs = report(&game);
    theirs.actions.reverse();
    assert_eq!(fuzzing::compare_reports(&ours, &theirs, true), Ok(()));
    // How often each occurs does.
    theirs.actions[0] = theirs.actions[1].clone();
    assert_eq!(fuzzing::compare_reports(&ours, &theirs, true), Err(Mismatch::LegalActions));
    theirs.board[0].pop();
    assert_eq!(fuzzing::compare_reports(&ours, &theirs, true), Err(Mismatch::Board));
}

#[test]
fn differences_have_their_names() {
    assert_eq!(Mismatch::Turn.message(), "turn mismatch");
    assert_eq!(Mismatch::Board.message(), "board mismatch");
    assert_eq!(Mismatch::Castling.message(), "castling mismatch");
    assert_eq!(Mismatch::Encoding.message(), "encode mismatch");
    assert_eq!(Mismatch::LegalActions.message(), "legal actions mismatch");
}

#[test]
fn a_byte_picks_a_move() {
    let game = fuzzing::new_default_game();
    let moves = fuzzing::legal_actions(&game);
    assert_eq!(fuzzing::pick_action(&moves, 0), Some(moves[0]));
    assert_eq!(fuzzing::pick_action(&moves, 19), Some(moves[19]));
    assert_eq!(fuzzing::pick_action(&moves, 20), Some(moves[0]));
    assert_eq!(fuzzing::pick_action(&moves, 255), Some(moves[15]));
    assert_eq!(fuzzing::pick_action(&Vec::new(), 7), None);
    assert_eq!(fuzzing::steps_of(0), 0);
    assert_eq!(fuzzing::steps_of(63), 63);
    assert_eq!(fuzzing::steps_of(65), 64);
}

#[test]
fn random_looking_games_stay_consistent() {
    for seed in 1..6u32 {
        let mut game = fuzzing::new_default_game();
        let mut byte = seed;
        for _ in 0..fuzzing::steps_of(1000) {
            let moves = fuzzing::legal_actions(&game);
            byte = byte.wrapping_mul(1_103_515_245).wrapping_add(12_345);
            match fuzzing::pick_action(&moves, (byte >> 16) as u8) {
                None => break,
                Some(action) => {
                    assert!(game.can_apply(action));
                    assert!(fuzzing::action_index(&game, action).is_ok());
                    fuzzing::apply(&mut game, action);
                }
            }
            assert!(game.can_list_actions());
            assert_eq!(fuzzing::compare_state(&game, &report(&game), true), Ok(()));
        }
    }
}

/// An object, as far as it is asked.
struct Thing {
    text: Option<&'static str>,
    attribute: bool,
    callable: bool,
    called: Option<&'static str>,
    attribute_text: Option<&'static str>,
}

fn text(found: Option<&'static str>) -> Reply {
    match found {
        Some(text) => Reply::Text(text.to_string()),
        None => Reply::No,
    }
}

fn yes(yes: bool) -> Reply {
    if yes {
        Reply::Yes
    } else {
        Reply::No
    }
}

fn ask(thing: &Thing) -> Step {
    let mut query = first_query();
    loop {
        let reply = match query {
            Query::ReadObject => text(thing.text),
            Query::FindAttribute => yes(thing.attribute),
            Query::TestCallable => yes(thing.callable),
            Query::CallAttribute => text(thing.called),
            Query::ReadAttribute => text(thing.attribute_text),
        };
        match next_step(query, reply) {
            Step::Ask(next) => query = next,
            end => return end,
        }
    }
}

#[test]
fn asking_finds_the_text() {
    let bare = Thing {
        text: None,
        attribute: false,
        callable: false,
        called: None,
        attribute_text: None,
    };
    assert!(matches!(ask(&bare), Step::Reject));
    let thing = Thing { text: Some("own"), attribute: true, ..bare };
    assert!(matches!(ask(&thing), Step::Accept(found) if found == "own"));
    let thing = Thing { attribute: true, callable: true, called: Some("called"), ..bare };
    assert!(matches!(ask(&thing), Step::Accept(found) if found == "called"));
    // What a call raises is handed on, even if the attribute is a text.
    let thing = Thing { attribute: true, callable: true, attribute_text: Some("kept"), ..bare };
    assert!(matches!(ask(&thing), Step::Reraise));
    let thing = Thing { attribute: true, attribute_text: Some("kept"), ..bare };
    assert!(matches!(ask(&thing), Step::Accept(found) if found == "kept"));
    let thing = Thing { attribute: true, ..bare };
    assert!(matches!(ask(&thing), Step::Reject));
}

#[test]
fn subjects_have_their_attributes() {
    assert_eq!(Subject::Board.attribute_name(), "fen");
    assert_eq!(Subject::Action.attribute_name(), "uci");
    assert_eq!(
        Subject::Board.rejection_message(),
        "board must be a python-chess Board or FEN string"
    );
    assert_eq!(
        Subject::Action.rejection_message(),
        "action must be a python-chess Move or UCI string"
    );
}

//! What holds in general, on examples.

use fow_rl::actions::{ChessMove, number_action};
use fow_rl::encoding::{
    ENCODE_CHANNELS, MEMORY_OFFSET, OBS_FOG_CHANNEL, RECENCY_CHANNEL, Ratio,
};
use fow_rl::game::SelfPlayGame;
use fow_rl::memory::{DELTA_T_LIMIT, INITIAL_DELTA_T, MentalBoard, age};
use fow_rl::pieces::{
    Color, Piece, SeenPiece, color_index, opposite_color, piece_base_index, piece_value,
    promotion_index,
};
use fow_rl::squares::{Square, mirror_index, mirror_square, square_from_index, square_index};
use fow_rl::tables::{flatten_2d, reshape_rows};

const PIECES: [Piece; 6] =
    [Piece::Pawn, Piece::Knight, Piece::Bishop, Piece::Rook, Piece::Queen, Piece::King];

const ONE: Ratio = Ratio { num: 1, den: 1 };
const ZERO: Ratio = Ratio { num: 0, den: 1 };

fn action(source: u8, dest: u8, promotion: Option<Piece>) -> ChessMove {
    ChessMove { source: Square { index: source }, dest: Square { index: dest }, promotion }
}

/// Some states of a game, with sight, fog and captures.
fn states() -> Vec<SelfPlayGame> {
    let mut game = SelfPlayGame::new(None).unwrap();
    let mut list = vec![game.clone()];
    for uci in ["e2e4", "d7d5", "e4d5", "d8d5", "b1c3", "d5e5", "d1e2", "e5e2", "f1e2", "b8c6"] {
        assert_eq!(game.apply(uci), Ok(()));
        list.push(game.clone());
    }
    list
}

#[test]
fn pieces_have_their_numbers() {
    let planes: Vec<usize> = PIECES.iter().map(|piece| piece_base_index(*piece)).collect();
    assert_eq!(planes, [0, 1, 2, 3, 4, 5]);
    let values: Vec<i8> = PIECES.iter().map(|piece| piece_value(*piece)).collect();
    assert_eq!(values, [1, 2, 3, 4, 5, 6]);
    let places: Vec<Option<usize>> = PIECES.iter().map(|piece| promotion_index(*piece)).collect();
    assert_eq!(places, [None, Some(3), Some(2), Some(1), Some(0), None]);
    assert_eq!((color_index(Color::White), color_index(Color::Black)), (0, 1));
    assert_eq!(opposite_color(Color::White), Color::Black);
    assert_eq!(opposite_color(Color::Black), Color::White);
}

#[test]
fn mirroring_undoes_itself() {
    for index in 0..64 {
        let mirrored = mirror_index(index);
        assert_eq!(mirrored % 8, index % 8);
        assert_eq!(mirrored / 8, 7 - index / 8);
        assert_eq!(mirror_index(mirrored), index);
        let square = square_from_index(index);
        assert_eq!(square_index(mirror_square(square)), mirrored);
    }
    assert_eq!(mirror_index(0), 56);
    assert_eq!(mirror_index(12), 52);
    assert_eq!(mirror_index(64), 120);
}

#[test]
fn a_text_stands_for_the_move_it_was_made_from() {
    let fens = [
        "r3k2r/p1ppqpb1/bn2pnp1/3PN3/1p2P3/2N2Q1p/PPPBBPPP/R3K2R w KQkq - 0 1",
        "1n2k3/P7/8/8/8/8/7p/4K1N1 w - - 0 1",
        "1n2k3/P7/8/8/8/8/7p/4K1N1 b - - 0 1",
    ];
    for fen in fens {
        let game = SelfPlayGame::new(Some(fen)).unwrap();
        let moves = game.legal_actions_internal();
        let texts = game.legal_actions().unwrap();
        for (played, text) in moves.iter().zip(texts) {
            let mut by_text = game.clone();
            let mut by_move = game.clone();
            assert_eq!(by_text.apply(&text), Ok(()));
            by_move.apply_internal(*played);
            assert_eq!(by_text.position(), by_move.position());
            assert_eq!(game.action_index(&text), Ok(game.action_index_internal(*played).unwrap()));
        }
    }
}

#[test]
fn every_move_of_a_position_that_makes_sense_can_be_carried_out() {
    for game in states() {
        for played in game.legal_actions_internal() {
            assert!(game.can_apply(played));
        }
    }
}

#[test]
fn numbers_fit_the_policy_and_tell_moves_apart() {
    for mover in [Color::White, Color::Black] {
        let mut owners = vec![0; 4352];
        for source in 0..64 {
            for dest in 0..64 {
                let number = number_action(mover, action(source, dest, None)).unwrap();
                assert!(number < 4096);
                owners[number] += 1;
            }
            for piece in [Piece::Queen, Piece::Rook, Piece::Bishop, Piece::Knight] {
                let number = number_action(mover, action(source, 0, Some(piece))).unwrap();
                assert!((4096..4352).contains(&number));
                assert_eq!(number_action(mover, action(source, 63, Some(piece))), Ok(number));
                owners[number] += 1;
            }
        }
        assert!(owners.iter().all(|count| *count == 1));
    }
    assert_eq!(number_action(Color::White, action(48, 56, Some(Piece::Knight))), Ok(4291));
    assert_eq!(number_action(Color::Black, action(52, 36, None)), Ok(796));
    assert_eq!(number_action(Color::Black, action(8, 0, Some(Piece::Rook))), Ok(4289));
}

#[test]
fn pawns_and_kings_are_no_promotions() {
    assert_eq!(
        number_action(Color::White, action(48, 56, Some(Piece::Pawn))),
        Err("Unsupported promotion piece: Pawn".to_string())
    );
    assert_eq!(
        number_action(Color::Black, action(8, 0, Some(Piece::King))),
        Err("Unsupported promotion piece: King".to_string())
    );
}

#[test]
fn mirrored_moves_have_one_number() {
    for (source, dest) in [(12u8, 28u8), (0, 63), (6, 21)] {
        let there = action(source, dest, None);
        let back = action(source ^ 56, dest ^ 56, None);
        assert_eq!(number_action(Color::White, there), number_action(Color::Black, back));
    }
    assert_eq!(
        number_action(Color::White, action(49, 57, Some(Piece::Bishop))),
        number_action(Color::Black, action(9, 1, Some(Piece::Bishop)))
    );
}

#[test]
fn mirrored_games_are_encoded_alike() {
    let fens = [
        (
            "r3k2r/1pp2p2/8/3Qb3/8/2N5/PPP2P2/R3K3 w Qkq - 0 1",
            "r3k3/ppp2p2/2n5/8/3qB3/8/1PP2P2/R3K2R b KQq - 0 1",
        ),
        (
            "rnbqkbnr/pppppppp/8/8/8/8/PPPPPPPP/RNBQKBNR w KQkq - 0 1",
            "rnbqkbnr/pppppppp/8/8/8/8/PPPPPPPP/RNBQKBNR b KQkq - 0 1",
        ),
    ];
    for (white, black) in fens {
        let white = SelfPlayGame::new(Some(white)).unwrap();
        let black = SelfPlayGame::new(Some(black)).unwrap();
        assert_eq!(white.encode_flat(), black.encode_flat());
        assert_eq!(white.encode_flat_with_oracle(true), black.encode_flat_with_oracle(true));
    }
    let mut white = SelfPlayGame::new(Some(fens[1].0)).unwrap();
    let mut black = SelfPlayGame::new(Some(fens[1].1)).unwrap();
    let moves = [("e2e4", "e7e5"), ("d7d5", "d2d4"), ("d1h5", "d8h4"), ("b8c6", "b1c3")];
    for (one, other) in moves {
        assert_eq!(white.apply(one), Ok(()));
        assert_eq!(black.apply(other), Ok(()));
        assert_eq!(white.encode_flat(), black.encode_flat());
        let seen = white.compute_visibility(Color::White);
        let mirrored = black.compute_visibility(Color::Black);
        assert_eq!(seen.len(), mirrored.len());
        assert!(seen.iter().all(|square| mirrored.contains(&mirror_index(*square))));
    }
}

#[test]
fn own_pieces_are_in_sight() {
    for game in states() {
        for player in [Color::White, Color::Black] {
            let seen = game.compute_visibility(player);
            for square in 0..64 {
                if game.position().color_on(square) == Some(player) {
                    assert!(seen.contains(&square));
                }
            }
            assert!(seen.iter().all(|square| *square < 64));
        }
    }
}

#[test]
fn a_pawn_looks_ahead() {
    let sight = |fen: &str, player| SelfPlayGame::new(Some(fen)).unwrap().compute_visibility(player);
    // From its first rank two squares, unless the next one is taken.
    let seen = sight("7k/8/8/8/8/8/4P3/K7 w - - 0 1", Color::White);
    for square in [12, 19, 20, 21, 28] {
        assert!(seen.contains(&square));
    }
    assert!(!seen.contains(&36));
    let seen = sight("7k/8/8/8/8/4n3/4P3/K7 w - - 0 1", Color::White);
    assert!(seen.contains(&20));
    assert!(!seen.contains(&28));
    // Later one square.
    let seen = sight("7k/8/8/8/8/4P3/8/K7 w - - 0 1", Color::White);
    assert!(seen.contains(&28));
    assert!(!seen.contains(&36));
    let seen = sight("7k/4p3/8/8/8/8/8/K7 b - - 0 1", Color::Black);
    for square in [52, 43, 44, 45, 36] {
        assert!(seen.contains(&square));
    }
    // A pawn on the edge of the board looks no further.
    let seen = sight("P6k/8/8/8/8/8/8/K7 w - - 0 1", Color::White);
    assert!(seen.contains(&56));
    assert_eq!(seen.len(), 1 + 4);
}

#[test]
fn every_row_shows_one_thing_and_recalls_one() {
    for game in states() {
        for oracle in [false, true] {
            for row in game.encode(oracle) {
                for channels in [&row[..MEMORY_OFFSET], &row[MEMORY_OFFSET..RECENCY_CHANNEL]] {
                    assert_eq!(channels.iter().filter(|share| **share == ONE).count(), 1);
                    assert!(channels.iter().all(|share| *share == ONE || *share == ZERO));
                }
            }
        }
    }
}

#[test]
fn the_oracle_lifts_the_fog_and_nothing_else() {
    for game in states() {
        let lifted = game.encode(true);
        for (row, fogged) in game.encode(false).iter().enumerate() {
            assert_eq!(lifted[row][OBS_FOG_CHANNEL], ZERO);
            assert_eq!(lifted[row][MEMORY_OFFSET..], fogged[MEMORY_OFFSET..]);
            if fogged[OBS_FOG_CHANNEL] == ZERO {
                assert_eq!(&lifted[row], fogged);
            }
        }
    }
}

#[test]
fn what_is_seen_was_seen_just_now() {
    for game in states() {
        for row in game.encode(false) {
            assert_eq!(row[OBS_FOG_CHANNEL] == ZERO, row[RECENCY_CHANNEL] == ONE);
            if row[OBS_FOG_CHANNEL] == ZERO {
                assert_eq!(row[..13], row[MEMORY_OFFSET..MEMORY_OFFSET + 13]);
            }
        }
    }
}

#[test]
fn features_divide_by_something() {
    for game in states() {
        let encoded = game.encode_flat();
        assert_eq!(encoded.len(), 64 * ENCODE_CHANNELS);
        for share in encoded {
            assert!((-64..=8).contains(&share.num));
            assert!((1..=DELTA_T_LIMIT).contains(&share.den));
        }
    }
}

#[test]
fn what_one_player_wins_the_other_loses() {
    for game in states() {
        assert_eq!(game.terminal_value(true), -game.terminal_value(false));
        assert!(!game.is_terminal());
    }
    let mut game = SelfPlayGame::new(None).unwrap();
    assert_eq!(game.apply("d1e1"), Ok(()));
    assert_eq!(game.terminal_value(true), -game.terminal_value(false));
    assert!(game.is_terminal());
    assert_eq!(game.terminal_value(false), 1);
}

#[test]
fn at_first_only_what_is_in_sight_is_known() {
    let game = SelfPlayGame::new(None).unwrap();
    let white = game.memory(Color::White);
    let black = game.memory(Color::Black);
    assert!(black.pieces.iter().all(|seen| seen.is_none()));
    assert!(black.delta_t.iter().all(|delta_t| *delta_t == 100));
    for square in 0..64 {
        if square < 32 {
            assert_eq!(white.delta_t[square], 0);
            assert_eq!(white.pieces[square], game.position().seen_on(square));
        } else {
            assert_eq!(white.delta_t[square], 101);
            assert_eq!(white.pieces[square], None);
        }
    }
}

#[test]
fn hidden_squares_are_recalled_and_grow_older() {
    let mut game = SelfPlayGame::new(None).unwrap();
    for uci in ["d2d4", "e7e5", "c1g5", "a7a6"] {
        assert_eq!(game.apply(uci), Ok(()));
    }
    // The bishop on g5 looks at the queen on d8.
    let queen = Some(SeenPiece { piece: Piece::Queen, color: Color::Black });
    assert_eq!(game.memory(Color::White).pieces[59], queen);
    assert_eq!(game.memory(Color::White).delta_t[59], 0);
    // It goes back, and the queen leaves unseen.
    for (uci, age) in [("g5c1", 0), ("d8e7", 1), ("b1a3", 1), ("h7h6", 2)] {
        let other = game.side_to_move();
        let kept = game.memory(other);
        assert_eq!(game.apply(uci), Ok(()));
        assert_eq!(game.memory(other).pieces, kept.pieces);
        assert_eq!(game.memory(other).delta_t, kept.delta_t);
        assert_eq!(game.memory(Color::White).pieces[59], queen);
        assert_eq!(game.memory(Color::White).delta_t[59], age);
    }
}

#[test]
fn looking_again_makes_the_unseen_older() {
    let game = SelfPlayGame::new(None).unwrap();
    let mut memory = MentalBoard::new();
    assert!(memory.pieces.iter().all(|seen| seen.is_none()));
    assert!(memory.delta_t.iter().all(|delta_t| *delta_t == INITIAL_DELTA_T));
    memory.look(&game.position(), Color::White);
    let first = memory;
    memory.look(&game.position(), Color::White);
    assert_eq!(memory.pieces, first.pieces);
    for square in 0..64 {
        let expected = if first.delta_t[square] == 0 { 0 } else { 102 };
        assert_eq!(memory.delta_t[square], expected);
    }
}

#[test]
fn time_stands_still_at_the_limit() {
    assert_eq!(age(0), 1);
    assert_eq!(age(DELTA_T_LIMIT - 1), DELTA_T_LIMIT);
    assert_eq!(age(DELTA_T_LIMIT), DELTA_T_LIMIT);
    // As it does in single precision.
    assert_eq!(DELTA_T_LIMIT as f32 + 1.0, DELTA_T_LIMIT as f32);
    assert_eq!((DELTA_T_LIMIT - 1) as f32 + 1.0, DELTA_T_LIMIT as f32);
    assert_eq!((DELTA_T_LIMIT - 1) as f32 as u32, DELTA_T_LIMIT - 1);
}

#[test]
fn joining_rows_gives_the_list_back() {
    let list: Vec<u32> = (0..10).collect();
    let rows = reshape_rows(list.clone(), 4);
    assert_eq!(rows, vec![vec![0, 1, 2, 3], vec![4, 5, 6, 7], vec![8, 9]]);
    assert_eq!(flatten_2d(rows), list);
    assert_eq!(reshape_rows(list.clone(), 5).len(), 2);
    assert_eq!(reshape_rows(list.clone(), 5)[1], [5, 6, 7, 8, 9]);
    assert_eq!(reshape_rows(list, 100).len(), 1);
    assert_eq!(reshape_rows(Vec::<u32>::new(), 3).len(), 0);
    assert_eq!(flatten_2d(Vec::<Vec<u32>>::new()), Vec::<u32>::new());
}

#[test]
fn memories_come_from_own_turns_alone() {
    let mut looked = [MentalBoard::new(), MentalBoard::new()];
    for game in states() {
        let mover = game.side_to_move();
        looked[color_index(mover)].look(&game.position(), mover);
        for player in [Color::White, Color::Black] {
            assert_eq!(game.memory(player).pieces, looked[color_index(player)].pieces);
            assert_eq!(game.memory(player).delta_t, looked[color_index(player)].delta_t);
        }
    }
}

#[test]
fn what_was_never_seen_counts_as_seen_long_ago() {
    let mut game = SelfPlayGame::new(None).unwrap();
    for turns in 1..6 {
        // White has looked as often as it was white's turn, and never at h8.
        assert_eq!(game.memory(Color::White).pieces[63], None);
        assert_eq!(game.memory(Color::White).delta_t[63], 100 + turns);
        let (out, back) = if turns % 2 == 1 { ("b1c3", "b8c6") } else { ("c3b1", "c6b8") };
        assert_eq!(game.apply(out), Ok(()));
        assert_eq!(game.apply(back), Ok(()));
    }
}

#[test]
fn what_is_out_of_sight_is_not_encoded() {
    // The rook stands here or there, and white sees neither.
    let here = SelfPlayGame::new(Some("6rk/8/8/8/8/8/P7/K7 w - - 0 1")).unwrap();
    let there = SelfPlayGame::new(Some("7k/7r/8/8/8/8/P7/K7 w - - 0 1")).unwrap();
    assert_eq!(here.encode_flat(), there.encode_flat());
    assert_ne!(here.encode_flat_with_oracle(true), there.encode_flat_with_oracle(true));
}

#[test]
fn odd_moves_are_remembered_as_seen_too() {
    // The white queen goes to the square of the white bishop, which is black's from then on.
    let mut game = SelfPlayGame::new(None).unwrap();
    for uci in ["d1c1", "a7a6", "b2b3", "c1b2"] {
        assert_eq!(game.apply(uci), Ok(()));
        for row in game.encode(false) {
            assert_eq!(row[OBS_FOG_CHANNEL] == ZERO, row[RECENCY_CHANNEL] == ONE);
            if row[OBS_FOG_CHANNEL] == ZERO {
                assert_eq!(row[..13], row[MEMORY_OFFSET..MEMORY_OFFSET + 13]);
            }
        }
    }
}

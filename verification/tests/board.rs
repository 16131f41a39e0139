//! The library against the board it is played on.

use fow_rl::actions::ChessMove;
use fow_rl::bitboard::{count_squares, has_square};
use fow_rl::fen::gives_mover_a_king;
use fow_rl::game::{GameError, SelfPlayGame, read_position, read_state};
use fow_rl::pieces::{Color, Piece};
use fow_rl::position::{CastleSides, Position};
use fow_rl::squares::Square;
use fow_rl::visibility;
use std::str::FromStr;

const FENS: [&str; 6] = [
    "rnbqkbnr/pppppppp/8/8/8/8/PPPPPPPP/RNBQKBNR w KQkq - 0 1",
    "r3k2r/p1ppqpb1/bn2pnp1/3PN3/1p2P3/2N2Q1p/PPPBBPPP/R3K2R w KQkq - 0 1",
    "8/2p5/3p4/KP5r/1R3p1k/8/4P1P1/8 w - - 0 1",
    "r4rk1/1pp1qppp/p1np1n2/2b1p1B1/2B1P1b1/P1NP1N2/1PP1QPPP/R4RK1 b - - 0 10",
    "rnbqkbnr/ppp1p1pp/8/3pPp2/8/8/PPPP1PPP/RNBQKBNR w KQkq f6 0 3",
    "r3k3/8/8/8/8/8/8/4K2R b Kq - 0 1",
];

fn own_piece(piece: chess::Piece) -> Piece {
    match piece {
        chess::Piece::Pawn => Piece::Pawn,
        chess::Piece::Knight => Piece::Knight,
        chess::Piece::Bishop => Piece::Bishop,
        chess::Piece::Rook => Piece::Rook,
        chess::Piece::Queen => Piece::Queen,
        chess::Piece::King => Piece::King,
    }
}

fn own_color(color: chess::Color) -> Color {
    match color {
        chess::Color::White => Color::White,
        chess::Color::Black => Color::Black,
    }
}

fn empty_position() -> Position {
    let none = CastleSides { kingside: false, queenside: false };
    Position {
        pawns: 0,
        knights: 0,
        bishops: 0,
        rooks: 0,
        queens: 0,
        kings: 0,
        white: 0,
        black: 0,
        occupied: 0,
        side_to_move: Color::White,
        white_castling: none,
        black_castling: none,
        en_passant: None,
    }
}

#[test]
fn a_position_shows_what_the_board_shows() {
    for fen in FENS {
        let board = chess::Board::from_str(fen).unwrap();
        let position = read_position(&board);
        for square in 0..64 {
            let at = chess::ALL_SQUARES[square];
            assert_eq!(position.piece_on(square), board.piece_on(at).map(own_piece));
            assert_eq!(position.color_on(square), board.color_on(at).map(own_color));
            assert_eq!(position.seen_on(square).is_some(), board.piece_on(at).is_some());
        }
        assert_eq!(position.side_to_move, own_color(board.side_to_move()));
    }
}

#[test]
fn the_usual_board_has_the_usual_masks() {
    let position = SelfPlayGame::new(None).unwrap().position();
    let both = CastleSides { kingside: true, queenside: true };
    let expected = Position {
        pawns: 0x00ff_0000_0000_ff00,
        knights: 0x4200_0000_0000_0042,
        bishops: 0x2400_0000_0000_0024,
        rooks: 0x8100_0000_0000_0081,
        queens: 0x0800_0000_0000_0008,
        kings: 0x1000_0000_0000_0010,
        white: 0x0000_0000_0000_ffff,
        black: 0xffff_0000_0000_0000,
        occupied: 0xffff_0000_0000_ffff,
        side_to_move: Color::White,
        white_castling: both,
        black_castling: both,
        en_passant: None,
    };
    assert_eq!(position, expected);
    assert_eq!(*chess::Board::default().pinned(), chess::EMPTY);
    assert_eq!(*chess::Board::default().checkers(), chess::EMPTY);
}

#[test]
fn castling_rights_are_those_of_the_player_to_move() {
    let black = SelfPlayGame::new(Some(FENS[5])).unwrap();
    assert_eq!(black.castle_eligible(), (false, true));
    assert_eq!(black.castle_eligible_internal(), (false, true));
    let white = SelfPlayGame::new(Some("r3k3/8/8/8/8/8/8/4K2R w Kq - 0 1")).unwrap();
    assert_eq!(white.castle_eligible(), (true, false));
    let mut game = SelfPlayGame::new(None).unwrap();
    for uci in ["e2e4", "e7e5", "e1e2", "a7a6"] {
        assert_eq!(game.apply(uci), Ok(()));
    }
    assert_eq!(game.castle_eligible(), (false, false));
}

#[test]
fn a_pawn_taken_in_passing_is_found() {
    let game = SelfPlayGame::new(Some(FENS[4])).unwrap();
    assert_eq!(game.position().en_passant, Some(Square { index: 37 }));
    assert!(game.legal_actions().unwrap().contains(&"e5f6".to_string()));
    let mut quiet = SelfPlayGame::new(None).unwrap();
    assert_eq!(quiet.apply("e2e4"), Ok(()));
    assert_eq!(quiet.position().en_passant, None);
}

#[test]
fn the_first_move_is_one_of_twenty() {
    let game = SelfPlayGame::new(None).unwrap();
    let mut texts = game.legal_actions().unwrap();
    texts.sort();
    let expected = [
        "a2a3", "a2a4", "b1a3", "b1c3", "b2b3", "b2b4", "c2c3", "c2c4", "d2d3", "d2d4", "e2e3",
        "e2e4", "f2f3", "f2f4", "g1f3", "g1h3", "g2g3", "g2g4", "h2h3", "h2h4",
    ];
    assert_eq!(texts, expected);
    assert_eq!(game.legal_actions_internal().len(), 20);
}

#[test]
fn legal_moves_are_those_of_the_board() {
    for fen in FENS {
        let board = chess::Board::from_str(fen).unwrap();
        let game = SelfPlayGame::new(Some(fen)).unwrap();
        let texts: Vec<String> =
            chess::MoveGen::new_legal(&board).map(|action| action.to_string()).collect();
        assert!(game.can_list_actions());
        assert_eq!(game.legal_actions().unwrap(), texts);
    }
}

#[test]
fn a_promotion_is_listed_with_its_four_pieces() {
    let game = SelfPlayGame::new(Some("8/P7/8/8/8/8/8/K6k w - - 0 1")).unwrap();
    let texts = game.legal_actions().unwrap();
    for text in ["a7a8q", "a7a8r", "a7a8b", "a7a8n"] {
        assert!(texts.contains(&text.to_string()));
    }
    assert!(!texts.contains(&"a7a8".to_string()));
    let mut promoted = SelfPlayGame::new(Some("8/P7/8/8/8/8/8/K6k w - - 0 1")).unwrap();
    assert_eq!(promoted.apply("a7a8n"), Ok(()));
    assert_eq!(promoted.position().piece_on(56), Some(Piece::Knight));
}

#[test]
fn moves_do_what_the_board_does() {
    let mut board = chess::Board::default();
    let mut game = SelfPlayGame::new(None).unwrap();
    // Castling on both sides, a capture in passing and a promotion by capture.
    let moves = [
        "e2e4", "g8f6", "e4e5", "d7d5", "e5d6", "c8g4", "g1f3", "b8c6", "f1e2", "d8d7", "e1g1",
        "e8c8", "d6c7", "h7h6", "c7d8q",
    ];
    for uci in moves {
        board = board.make_move_new(chess::ChessMove::from_str(uci).unwrap());
        assert_eq!(game.apply(uci), Ok(()));
        assert_eq!(game.position(), read_position(&board));
    }
    assert_eq!(game.position().piece_on(6), Some(Piece::King));
    assert_eq!(game.position().piece_on(5), Some(Piece::Rook));
    assert_eq!(game.position().piece_on(58), Some(Piece::King));
    assert_eq!(game.position().piece_on(59), Some(Piece::Queen));
    assert_eq!(game.position().color_on(59), Some(Color::White));
    assert_eq!(game.position().piece_on(35), None);
}

/// What a piece that goes in the given directions reaches among the blockers.
fn reach(from: usize, steps: &[(i32, i32)], far: bool, blockers: u64) -> u64 {
    let mut mask = 0;
    for (up, right) in steps {
        let mut rank = from as i32 / 8 + up;
        let mut file = from as i32 % 8 + right;
        while (0..8).contains(&rank) && (0..8).contains(&file) {
            let bit = 1u64 << (rank * 8 + file);
            mask |= bit;
            if !far || blockers & bit != 0 {
                break;
            }
            rank += up;
            file += right;
        }
    }
    mask
}

const LINES: [(i32, i32); 4] = [(1, 0), (-1, 0), (0, 1), (0, -1)];
const DIAGONALS: [(i32, i32); 4] = [(1, 1), (1, -1), (-1, 1), (-1, -1)];
const JUMPS: [(i32, i32); 8] =
    [(1, 2), (1, -2), (-1, 2), (-1, -2), (2, 1), (2, -1), (-2, 1), (-2, -1)];

/// Holds a sliding piece against every set of blockers on its own lines.
fn check_slider(piece: Piece, steps: &[(i32, i32)]) {
    for from in 0..64 {
        let lines = reach(from, steps, true, 0);
        let mut blockers = 0u64;
        loop {
            let position = Position { occupied: blockers, ..empty_position() };
            assert_eq!(
                visibility::piece_attacks(&position, from, piece, Color::White),
                reach(from, steps, true, blockers)
            );
            blockers = blockers.wrapping_sub(lines) & lines;
            if blockers == 0 {
                break;
            }
        }
    }
}

#[test]
fn rooks_reach_the_first_piece_on_each_line() {
    check_slider(Piece::Rook, &LINES);
}

#[test]
fn bishops_reach_the_first_piece_on_each_diagonal() {
    check_slider(Piece::Bishop, &DIAGONALS);
}

#[test]
fn queens_reach_as_rooks_and_bishops_do() {
    // Blockers off the lines of the queen change nothing.
    let blockers = 0x0042_1800_2481_0018;
    let position = Position { occupied: blockers, ..empty_position() };
    for from in 0..64 {
        assert_eq!(
            visibility::piece_attacks(&position, from, Piece::Queen, Color::Black),
            reach(from, &LINES, true, blockers) | reach(from, &DIAGONALS, true, blockers)
        );
    }
}

#[test]
fn pawns_knights_and_kings_reach_their_squares() {
    let position = Position { occupied: !0, ..empty_position() };
    for from in 0..64 {
        let reached = |piece, color| visibility::piece_attacks(&position, from, piece, color);
        assert_eq!(reached(Piece::Knight, Color::White), reach(from, &JUMPS, false, 0));
        assert_eq!(
            reached(Piece::King, Color::Black),
            reach(from, &LINES, false, 0) | reach(from, &DIAGONALS, false, 0)
        );
        assert_eq!(reached(Piece::Pawn, Color::White), reach(from, &[(1, 1), (1, -1)], false, 0));
        assert_eq!(reached(Piece::Pawn, Color::Black), reach(from, &[(-1, 1), (-1, -1)], false, 0));
    }
}

#[test]
fn attacks_from_a_square_of_a_game() {
    let game = SelfPlayGame::new(None).unwrap();
    let mask = game.piece_attacks(Square { index: 6 }, Piece::Knight, Color::White);
    assert_eq!(mask, 1 << 21 | 1 << 23 | 1 << 12);
    let mask = game.piece_attacks(Square { index: 0 }, Piece::Rook, Color::White);
    assert_eq!(mask, 1 << 1 | 1 << 8);
    assert_eq!(count_squares(mask), 2);
    assert!(has_square(mask, 8));
    assert!(!has_square(mask, 9));
}

#[test]
fn texts_that_describe_no_position_are_refused() {
    let refused = [
        "",
        "not a position",
        "8/8/8/8/8/8/8/8 w - - 0 1",
        "k7/8/8/8/8/8/8/8 w - - 0 1",
        "K7/8/8/8/8/8/8/8 b - - 0 1",
        "K7/8/8/8/8/8/8/8 w - - 0 1",
        "Kk6/8/8/8/8/8/8/8 w - - 0 1",
        "k7/8/8/8/8/8/8/R6K w - - 0 1",
        "k7/8/8/8/8/8/8/7K x - - 0 1",
        "k7/8/8/8/8/8/8/7K white - - 0 1",
        "k7/8/8/8/8/8/8/7K w",
        "4k3/8/8/8/8/8/8/4K3 w KQkq - 0 1",
    ];
    for fen in refused {
        assert_eq!(SelfPlayGame::new(Some(fen)).err(), Some(GameError::InvalidFen), "{}", fen);
    }
    assert_eq!(GameError::InvalidFen.message(), "Invalid FEN string");
}

#[test]
fn the_king_of_the_player_to_move_is_looked_for() {
    let given = |fen| gives_mover_a_king(&chess::BoardBuilder::from_str(fen).unwrap());
    assert!(given("k7/8/8/8/8/8/8/7K w - - 0 1"));
    assert!(given("k7/8/8/8/8/8/8/7K B - - 0 1"));
    assert!(!given("k7/8/8/8/8/8/8/8 w - - 0 1"));
    assert!(given("k7/8/8/8/8/8/8/8 b - - 0 1"));
    // A ninth rank lies over the first one.
    assert!(!given("K7/8/8/8/8/8/8/8/Q7 w - - 0 1"));
    assert!(given("Q7/8/8/8/8/8/8/8/K7 w - - 0 1"));
}

#[test]
fn texts_that_stand_for_no_move_are_refused() {
    let mut game = SelfPlayGame::new(None).unwrap();
    let before = game.position();
    for uci in ["", "e2", "e9e4", "i2i4", "e2e4k", "e2e4x", "0000"] {
        assert_eq!(game.apply(uci), Err(GameError::InvalidUci));
        assert_eq!(game.action_index(uci), Err(GameError::InvalidUci));
    }
    assert_eq!(game.position(), before);
    assert_eq!(GameError::InvalidUci.message(), "Invalid UCI move");
    // What follows in a longer text is passed over.
    assert_eq!(game.action_index("e2e4 and more"), Ok(796));
}

#[test]
fn moves_that_cannot_be_carried_out_are_refused() {
    let mut game = SelfPlayGame::new(None).unwrap();
    let before = game.position();
    // No piece on e4; and the black king would be gone.
    for uci in ["e4e5", "d1e8"] {
        assert_eq!(game.apply(uci), Err(GameError::Unplayable));
    }
    assert_eq!(game.position(), before);
    assert!(game.turn());
    assert_eq!(GameError::Unplayable.message(), "move cannot be carried out");
    let queen = ChessMove {
        source: Square { index: 3 },
        dest: Square { index: 60 },
        promotion: None,
    };
    assert!(!game.can_apply(queen));
    assert!(game.can_apply(ChessMove { dest: Square { index: 27 }, ..queen }));
}

#[test]
fn a_game_without_a_king_is_over() {
    let mut game = SelfPlayGame::new(None).unwrap();
    assert!(!game.is_terminal());
    assert_eq!((game.terminal_value(true), game.terminal_value(false)), (0, 0));
    // The white queen goes to the square of the white king.
    assert_eq!(game.apply("d1e1"), Ok(()));
    assert!(!game.king_present(Color::White));
    assert!(game.king_present(Color::Black));
    assert!(game.is_terminal());
    assert!(game.is_terminal_internal());
    assert_eq!(game.terminal_value(true), -1);
    assert_eq!(game.terminal_value(false), 1);
    assert_eq!(game.terminal_value_internal(Color::Black), 1);
    // Black may move no more: there is no king to give check to.
    assert_eq!(game.apply("e7e5"), Err(GameError::Unplayable));
}

#[test]
fn the_black_king_may_be_the_one_that_is_gone() {
    let mut game = SelfPlayGame::new(None).unwrap();
    assert_eq!(game.apply("a2a3"), Ok(()));
    assert_eq!(game.apply("d8e8"), Ok(()));
    assert!(game.is_terminal());
    assert_eq!(game.terminal_value(true), 1);
    assert_eq!(game.terminal_value(false), -1);
    assert!(game.turn());
    assert!(game.can_list_actions());
}

/// The entries of the list that the legal moves were taken from: one for each man, and one for
/// each pawn that takes another in passing.
fn listed_entries(board: &chess::Board) -> usize {
    let mut entries: Vec<(chess::Square, bool)> = Vec::new();
    for played in chess::MoveGen::new_legal(board) {
        let passing = board.piece_on(played.get_source()) == Some(chess::Piece::Pawn)
            && played.get_source().get_file() != played.get_dest().get_file()
            && board.piece_on(played.get_dest()).is_none();
        let entry = (played.get_source(), passing);
        if !entries.contains(&entry) {
            entries.push(entry);
        }
    }
    entries.len()
}

#[test]
fn entries_are_counted_as_they_are_listed() {
    let fens = [
        // Pins, checks, captures in passing and kings that cannot move.
        "k7/8/8/8/PP6/PPPPPPPP/PPPPPPPP/7K w - - 0 1",
        "k6r/8/8/NNNNNNN1/NNNNNNN1/NNNNNNN1/8/7K w - - 0 1",
        "k7/8/8/8/NNNNNNNN/NNNNNNNN/NN4PP/6PK w - - 0 1",
        "4k3/8/8/b7/1r2q3/2P5/3R4/4K3 w - - 0 1",
        "4r1k1/8/8/8/4N3/4B3/8/4K3 w - - 0 1",
        "4k3/8/8/8/8/5n2/3P4/r3K2R w K - 0 1",
        "8/8/8/K1pP3r/8/8/8/7k w - c6 0 1",
        "8/8/8/1PpP4/8/K7/8/7k w - c6 0 1",
        "7k/8/8/2pP4/1K6/8/8/8 w - c6 0 1",
        "7k/8/8/2pP4/8/8/6b1/K6r w - c6 0 1",
        "5rk1/8/8/8/8/8/8/R3K2R w KQ - 0 1",
        "3r2k1/8/8/8/8/8/6p1/R3K2R w KQ - 0 1",
        "P6k/8/8/8/8/8/8/P6K w - - 0 1",
        "k7/p7/8/8/8/8/8/p6K b - - 0 1",
        "7k/6Q1/6K1/8/8/8/8/8 b - - 0 1",
    ];
    for fen in FENS.iter().chain(fens.iter()) {
        let board = chess::Board::from_str(fen).unwrap();
        assert_eq!(
            read_state(&board).count_entries() as usize,
            listed_entries(&board),
            "{}",
            fen
        );
    }
}

#[test]
fn random_games_stay_in_order() {
    for seed in 1..60u32 {
        let mut board = chess::Board::default();
        let mut random = seed;
        for _ in 0..200 {
            let state = read_state(&board);
            assert_eq!(state.count_entries() as usize, listed_entries(&board));
            assert!(state.is_listable());
            let moves: Vec<chess::ChessMove> = chess::MoveGen::new_legal(&board).collect();
            if moves.is_empty() {
                break;
            }
            random = random.wrapping_mul(1_103_515_245).wrapping_add(12_345);
            let men = (state.position.white.count_ones(), state.position.black.count_ones());
            board = board.make_move_new(moves[(random >> 16) as usize % moves.len()]);
            // The position makes sense, and set up afresh it is the same board.
            assert!(board.is_sane());
            let fresh = chess::Board::from_str(&board.to_string()).unwrap();
            assert_eq!(read_state(&board), read_state(&fresh));
            let position = read_position(&board);
            assert_eq!(position.occupied, position.white ^ position.black);
            assert!(position.white.count_ones() <= men.0);
            assert!(position.black.count_ones() <= men.1);
        }
    }
}

#[test]
fn odd_boards_are_counted_too() {
    let mut mixed = 0;
    let mut castling = 0;
    for seed in 1..200u32 {
        let mut board = chess::Board::default();
        let mut random = seed;
        let mut roll = |sides: usize| {
            random = random.wrapping_mul(1_103_515_245).wrapping_add(12_345);
            (random >> 16) as usize % sides
        };
        for _ in 0..40 {
            // Any two squares, legal or not, as long as the move can be carried out.
            let action = ChessMove {
                source: Square { index: roll(64) as u8 },
                dest: Square { index: roll(64) as u8 },
                promotion: None,
            };
            if !read_position(&board).is_playable(action) {
                continue;
            }
            board = board.make_move_new(chess::ChessMove::new(
                chess::ALL_SQUARES[action.source.index as usize],
                chess::ALL_SQUARES[action.dest.index as usize],
                None,
            ));
            let state = read_state(&board);
            let position = state.position;
            let kinds = [
                position.pawns,
                position.knights,
                position.bishops,
                position.rooks,
                position.queens,
                position.kings,
            ];
            let apart = (0..6).all(|i| (0..i).all(|j| kinds[i] & kinds[j] == 0));
            if apart && position.en_passant.is_none() && state.is_listable() {
                assert_eq!(state.count_entries() as usize, listed_entries(&board));
                if position.white & position.black != 0 {
                    mixed += 1;
                    if board.my_castle_rights() != chess::CastleRights::NoRights {
                        castling += 1;
                    }
                }
            }
        }
    }
    assert!(mixed > 100);
    assert!(castling > 100);
}

#[test]
fn a_right_to_castle_is_no_move_of_a_stuck_king() {
    let fen = "k5n1/8/8/8/NNNNNNN1/NNNNNNNN/N1NPPPPP/3PKPPR w K - 0 1";
    let mut game = SelfPlayGame::new(Some(fen)).unwrap();
    // White plays the black knight, and a square belongs to both colours from then on.
    assert_eq!(game.apply("g8h6"), Ok(()));
    assert_eq!(game.apply("a8b8"), Ok(()));
    assert_eq!(game.castle_eligible(), (true, false));
    let state = game.state();
    assert_eq!(state.position.white & state.position.black, 1 << 62);
    assert_eq!(state.count_entries(), 18);
    let texts = game.legal_actions().unwrap();
    assert!(texts.iter().all(|text| !text.starts_with("e1")));
}

#[test]
fn castling_and_steps_of_the_king_are_one_entry() {
    let board = chess::Board::from_str("4k3/8/8/8/8/8/8/R3K2R w KQ - 0 1").unwrap();
    let king: Vec<String> = chess::MoveGen::new_legal(&board)
        .map(|played| played.to_string())
        .filter(|text| text.starts_with("e1"))
        .collect();
    assert!(king.contains(&"e1g1".to_string()) && king.contains(&"e1c1".to_string()));
    assert_eq!(read_state(&board).count_entries(), 3);
}

#[test]
fn moves_are_listed_wherever_they_fit() {
    let listed = |fen| SelfPlayGame::new(Some(fen)).unwrap().legal_actions();
    // Eighteen men, of whom eight can move, and the king.
    let texts = listed("k7/8/8/8/PP6/PPPPPPPP/PPPPPPPP/7K w - - 0 1").unwrap();
    let board = chess::Board::from_str("k7/8/8/8/PP6/PPPPPPPP/PPPPPPPP/7K w - - 0 1").unwrap();
    assert_eq!(texts.len(), chess::MoveGen::new_legal(&board).len());
    assert_eq!(listed_entries(&board), 9);
    // Twenty-one knights, of whom six meet the check.
    assert!(listed("k6r/8/8/NNNNNNN1/NNNNNNN1/NNNNNNN1/8/7K w - - 0 1").is_some());
    // Seventeen knights and the king, or eighteen and a king that cannot move.
    assert!(listed("k7/8/8/8/NNNNNNNN/NNNNNNNN/N7/7K w - - 0 1").is_some());
    assert!(listed("k7/8/8/8/NNNNNNNN/NNNNNNNN/NN4PP/6PK w - - 0 1").is_some());
    // Eighteen knights and the king are one too many.
    let overflows = "k7/8/8/8/NNNNNNNN/NNNNNNNN/NN6/7K w - - 0 1";
    assert_eq!(listed(overflows), None);
    let game = SelfPlayGame::new(Some(overflows)).unwrap();
    assert!(!game.can_list_actions());
    assert_eq!(game.state().count_entries(), 19);
    // A player without a king has no list of moves.
    let mut kingless = SelfPlayGame::new(None).unwrap().state();
    assert!(kingless.is_listable());
    kingless.position.kings = 0;
    assert!(!kingless.is_listable());
}

#[test]
fn copies_go_their_own_way() {
    let mut game = SelfPlayGame::new(None).unwrap();
    assert_eq!(game.apply("e2e4"), Ok(()));
    let copy = game.clone();
    assert_eq!(copy.position(), game.position());
    assert_eq!(copy.encode_flat(), game.encode_flat());
    assert_eq!(game.apply("e7e5"), Ok(()));
    assert_ne!(copy.position(), game.position());
    assert!(!copy.turn());
}

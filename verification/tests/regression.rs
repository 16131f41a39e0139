//! The game against a second, slower account of the same rules in single precision.

use fow_rl::actions::ChessMove;
use fow_rl::encoding::Ratio;
use fow_rl::game::SelfPlayGame;
use fow_rl::pieces::{Color, Piece};
use fow_rl::squares::Square;
use std::str::FromStr;

/// A piece: its kind from 1 (pawn) to 6 (king), and whether it is white.
type Man = (i8, bool);

struct Account {
    men: [Option<Man>; 64],
    white_to_move: bool,
    castling: [(bool, bool); 2],
    remembered: [[Option<Man>; 64]; 2],
    delta_t: [[f32; 64]; 2],
}

impl Account {
    fn open(placement: &str, white_to_move: bool, castling: [(bool, bool); 2]) -> Account {
        let mut men = [None; 64];
        for (row, text) in placement.split('/').enumerate() {
            let mut file = 0;
            for letter in text.chars() {
                if let Some(gap) = letter.to_digit(10) {
                    file += gap as usize;
                } else {
                    let kind = 1 + "pnbrqk".find(letter.to_ascii_lowercase()).unwrap() as i8;
                    men[(7 - row) * 8 + file] = Some((kind, letter.is_ascii_uppercase()));
                    file += 1;
                }
            }
        }
        let mut account = Account {
            men,
            white_to_move,
            castling,
            remembered: [[None; 64]; 2],
            delta_t: [[100.0; 64]; 2],
        };
        account.look();
        account
    }

    fn mover(&self) -> usize {
        if self.white_to_move {
            0
        } else {
            1
        }
    }

    fn slide(&self, from: usize, steps: &[(i32, i32)], far: bool, seen: &mut [bool; 64]) {
        for (up, right) in steps {
            let mut rank = from as i32 / 8 + up;
            let mut file = from as i32 % 8 + right;
            while (0..8).contains(&rank) && (0..8).contains(&file) {
                let to = (rank * 8 + file) as usize;
                seen[to] = true;
                if !far || self.men[to].is_some() {
                    break;
                }
                rank += up;
                file += right;
            }
        }
    }

    fn sight(&self, white: bool) -> [bool; 64] {
        let lines = [(1, 0), (-1, 0), (0, 1), (0, -1)];
        let diagonals = [(1, 1), (1, -1), (-1, 1), (-1, -1)];
        let jumps = [(1, 2), (1, -2), (-1, 2), (-1, -2), (2, 1), (2, -1), (-2, 1), (-2, -1)];
        let ahead: i32 = if white { 1 } else { -1 };
        let mut seen = [false; 64];
        for from in 0..64 {
            let kind = match self.men[from] {
                Some((kind, color)) if color == white => kind,
                _ => continue,
            };
            seen[from] = true;
            match kind {
                1 => {
                    self.slide(from, &[(ahead, 1), (ahead, -1)], false, &mut seen);
                    let next = from as i32 + 8 * ahead;
                    if (0..64).contains(&next) {
                        seen[next as usize] = true;
                        let start = if white { 1 } else { 6 };
                        if from / 8 == start && self.men[next as usize].is_none() {
                            seen[(from as i32 + 16 * ahead) as usize] = true;
                        }
                    }
                }
                2 => self.slide(from, &jumps, false, &mut seen),
                3 => self.slide(from, &diagonals, true, &mut seen),
                4 => self.slide(from, &lines, true, &mut seen),
                5 => {
                    self.slide(from, &diagonals, true, &mut seen);
                    self.slide(from, &lines, true, &mut seen);
                }
                _ => {
                    self.slide(from, &diagonals, false, &mut seen);
                    self.slide(from, &lines, false, &mut seen);
                }
            }
        }
        seen
    }

    fn look(&mut self) {
        let seen = self.sight(self.white_to_move);
        let mover = self.mover();
        for square in 0..64 {
            if seen[square] {
                self.remembered[mover][square] = self.men[square];
                self.delta_t[mover][square] = 0.0;
            } else {
                self.delta_t[mover][square] += 1.0;
            }
        }
    }

    fn apply(&mut self, from: usize, to: usize) {
        self.men[to] = self.men[from].take();
        self.white_to_move = !self.white_to_move;
        self.look();
    }

    fn board(&self) -> Vec<Vec<i8>> {
        let mut matrix = Vec::new();
        for rank in (0..8).rev() {
            let mut row = Vec::new();
            for file in 0..8 {
                row.push(match self.men[rank * 8 + file] {
                    Some((kind, true)) => kind,
                    Some((kind, false)) => -kind,
                    None => 0,
                });
            }
            matrix.push(row);
        }
        matrix
    }

    fn plane(&self, man: Man) -> usize {
        man.0 as usize - 1 + if man.1 == self.white_to_move { 0 } else { 6 }
    }

    fn encode(&self, oracle: bool) -> Vec<f32> {
        let mover = self.mover();
        let seen = self.sight(self.white_to_move);
        let mut encoded = vec![0.0_f32; 64 * 35];
        for (place, full) in [8.0_f32, 2.0, 2.0, 2.0, 1.0].iter().enumerate() {
            let enemy = Some((place as i8 + 1, !self.white_to_move));
            let left = self.men.iter().filter(|man| **man == enemy).count() as f32;
            for row in 0..64 {
                encoded[row * 35 + 30 + place] = (full - left) / full;
            }
        }
        for square in 0..64 {
            let row = if self.white_to_move {
                square
            } else {
                (7 - square / 8) * 8 + square % 8
            };
            let base = row * 35;
            let observed = match self.men[square] {
                _ if !oracle && !seen[square] => 13,
                Some(man) => self.plane(man),
                None => 12,
            };
            encoded[base + observed] = 1.0;
            let recalled = match self.remembered[mover][square] {
                Some(man) => self.plane(man),
                None => 12,
            };
            encoded[base + 14 + recalled] = 1.0;
            encoded[base + 27] = 1.0 / (1.0 + self.delta_t[mover][square]);
        }
        encoded[28] = if self.castling[mover].0 { 1.0 } else { 0.0 };
        encoded[35 + 29] = if self.castling[mover].1 { 1.0 } else { 0.0 };
        encoded
    }
}

const START: &str = "rnbqkbnr/pppppppp/8/8/8/8/PPPPPPPP/RNBQKBNR";

fn floats(encoded: Vec<Ratio>) -> Vec<f32> {
    encoded.iter().map(|share| share.num as f32 / share.den as f32).collect()
}

fn plain(source: u8, dest: u8) -> ChessMove {
    ChessMove { source: Square { index: source }, dest: Square { index: dest }, promotion: None }
}

#[test]
fn regression_default_state() {
    let account = Account::open(START, true, [(true, true), (true, true)]);
    let game = SelfPlayGame::new_internal(chess::Board::default());

    assert_eq!(game.side_to_move() == Color::White, account.white_to_move);
    assert!(game.turn());
    assert_eq!(game.board_matrix(), account.board());
    assert_eq!(
        game.board_matrix(),
        vec![
            vec![-4, -2, -3, -5, -6, -3, -2, -4],
            vec![-1; 8],
            vec![0; 8],
            vec![0; 8],
            vec![0; 8],
            vec![0; 8],
            vec![1; 8],
            vec![4, 2, 3, 5, 6, 3, 2, 4],
        ]
    );
    assert_eq!(game.castle_eligible_internal(), (true, true));

    let encoded = floats(game.encode_flat());
    assert_eq!(encoded, account.encode(false));
    assert_eq!(encoded.len(), 2240);
    // e1 holds the own king, e8 lies in the fog, e4 is seen to be empty.
    assert_eq!(encoded[4 * 35 + 5], 1.0);
    assert_eq!(encoded[60 * 35 + 13], 1.0);
    assert_eq!(encoded[60 * 35 + 27], 1.0 / 102.0);
    assert_eq!(encoded[28 * 35 + 12], 1.0);
    assert_eq!(encoded[28 * 35 + 27], 1.0);
    assert_eq!(encoded[28], 1.0);
    assert_eq!(encoded[35 + 29], 1.0);
    assert_eq!(encoded[30..35], [0.0; 5]);

    assert_eq!(game.action_index_internal(plain(12, 28)), Ok(796));
    assert_eq!(game.action_index("e2e4"), Ok(796));
}

#[test]
fn regression_after_moves() {
    let mut account = Account::open(START, true, [(true, true), (true, true)]);
    let mut game = SelfPlayGame::new_internal(chess::Board::default());

    for (uci, from, to) in [("e2e4", 12, 28), ("e7e5", 52, 36), ("g1f3", 6, 21)] {
        account.apply(from, to);
        assert_eq!(game.apply(uci), Ok(()));
    }

    assert_eq!(game.side_to_move() == Color::White, account.white_to_move);
    assert!(!game.turn());
    assert_eq!(game.board_matrix(), account.board());
    assert_eq!(
        game.board_matrix(),
        vec![
            vec![-4, -2, -3, -5, -6, -3, -2, -4],
            vec![-1, -1, -1, -1, 0, -1, -1, -1],
            vec![0; 8],
            vec![0, 0, 0, 0, -1, 0, 0, 0],
            vec![0, 0, 0, 0, 1, 0, 0, 0],
            vec![0, 0, 0, 0, 0, 2, 0, 0],
            vec![1, 1, 1, 1, 0, 1, 1, 1],
            vec![4, 2, 3, 5, 6, 3, 0, 4],
        ]
    );
    assert_eq!(game.castle_eligible_internal(), (true, true));
    assert_eq!(floats(game.encode_flat()), account.encode(false));
    assert_eq!(floats(game.encode_flat_with_oracle(true)), account.encode(true));
}

#[test]
fn regression_promotion_action_index() {
    let fen = "8/P7/8/8/8/8/8/K6k w - - 0 1";
    let game = SelfPlayGame::new_internal(chess::Board::from_str(fen).unwrap());
    let action = ChessMove {
        source: Square { index: 48 },
        dest: Square { index: 56 },
        promotion: Some(Piece::Queen),
    };
    assert_eq!(game.action_index_internal(action), Ok(4288));
    assert_eq!(game.action_index("a7a8q"), Ok(4288));

    let account = Account::open("8/P7/8/8/8/8/8/K6k", true, [(false, false); 2]);
    assert_eq!(floats(game.encode_flat()), account.encode(false));
}

#[test]
fn a_longer_game_matches_move_by_move() {
    let mut account = Account::open(START, true, [(true, true), (true, true)]);
    let mut game = SelfPlayGame::new(None).unwrap();
    // Captures on both sides, and a queen that sees far.
    let moves = [
        ("e2e4", 12, 28),
        ("d7d5", 51, 35),
        ("e4d5", 28, 35),
        ("d8d5", 59, 35),
        ("b1c3", 1, 18),
        ("d5e5", 35, 36),
        ("f1e2", 5, 12),
        ("c8g4", 58, 30),
        ("d2d4", 11, 27),
        ("g4e2", 30, 12),
        ("g1e2", 6, 12),
        ("e5e2", 36, 12),
    ];
    for (uci, from, to) in moves {
        account.apply(from, to);
        assert_eq!(game.apply(uci), Ok(()));
        assert_eq!(game.board(), account.board());
        assert_eq!(game.current_player(), account.white_to_move);
        assert_eq!(floats(game.encode_flat()), account.encode(false), "after {}", uci);
        assert_eq!(floats(game.encode_flat_with_oracle(true)), account.encode(true));
    }
    // White has lost a pawn, a knight and a bishop.
    let shares = game.captured_piece_vector(Color::Black);
    assert_eq!(shares[0], Ratio { num: 1, den: 8 });
    assert_eq!(shares[1], Ratio { num: 1, den: 2 });
    assert_eq!(shares[2], Ratio { num: 1, den: 2 });
    assert_eq!(shares[3], Ratio { num: 0, den: 2 });
    assert_eq!(shares[4], Ratio { num: 0, den: 1 });
}

#[test]
fn the_rows_of_an_encoding_are_cut_from_the_flat_one() {
    let mut game = SelfPlayGame::new(None).unwrap();
    assert_eq!(game.apply("b1c3"), Ok(()));
    for oracle in [false, true] {
        let flat = game.encode_flat_with_oracle(oracle);
        let rows = game.encode(oracle);
        assert_eq!(rows.len(), 64);
        for (row, features) in rows.iter().enumerate() {
            assert_eq!(features.as_slice(), &flat[row * 35..row * 35 + 35]);
        }
    }
}

#[test]
fn surplus_pieces_make_a_share_negative() {
    // Black has three queens.
    let game = SelfPlayGame::new(Some("qqqk4/8/8/8/8/8/8/7K w - - 0 1")).unwrap();
    assert_eq!(game.captured_piece_vector(Color::White)[4], Ratio { num: -2, den: 1 });
    assert_eq!(floats(game.encode_flat())[34], -2.0);
}

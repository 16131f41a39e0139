//! Which men have a move, counted as the list of legal moves has room for them.
//!
//! The `chess` crate gathers the moves of a board in a list of eighteen entries, one for each man
//! with a move and one for each pawn that takes another in passing. It does not look at the length
//! of that list, so it is looked at here.

use vstd::prelude::*;
use crate::{bitboard, board_laws, geometry, order, pieces, sight_laws, squares, visibility};
use crate::bitboard::{count_squares, has_square};
use crate::engine::{
    get_bishop_moves, get_king_moves, get_knight_moves, get_pawn_attacks, get_rook_moves,
};
use crate::geometry::{is_between, is_on_line};
use crate::pieces::{Color, Piece, opposite_color};
use crate::position::{BoardState, CastleSides, Position};
use crate::squares::BOARD_SQUARES;
use crate::visibility::piece_attacks;

verus! {

/// How many entries the list of legal moves has room for.
pub const LIST_ENTRIES: u32 = 18;

/// A king of the player's stands on the square, and on no square before it.
pub open spec fn is_first_king(position: Position, player: Color, square: int) -> bool {
    &&& squares::on_board(square)
    &&& position.king_at(player, square)
    &&& forall|s: int| 0 <= s < square ==> !#[trigger] position.king_at(player, s)
}

/// The square of the player's king, the first one where there are more.
pub open spec fn first_king(position: Position, player: Color) -> int {
    choose|square: int| is_first_king(position, player, square)
}

/// A pawn of the player's on `from` goes to `to`: it captures what stands there, or advances over
/// empty squares.
pub open spec fn pawn_goes(position: Position, player: Color, from: int, to: int) -> bool {
    let next = from + 8 * geometry::forward(player);
    let after = from + 16 * geometry::forward(player);
    ||| geometry::pawn_captures(player, from, to) && bitboard::holds(position.occupied, to)
    ||| {
        &&& squares::on_board(next)
        &&& !bitboard::holds(position.occupied, next)
        &&& !bitboard::holds(position.occupied, to)
        &&& to == next || squares::rank_of(from) == visibility::pawn_start(player) && to == after
    }
}

/// A piece of the player to move goes from one square to another that no own man holds.
pub open spec fn goes(position: Position, piece: Piece, from: int, to: int) -> bool {
    &&& !bitboard::holds(position.men(position.side_to_move), to)
    &&& match piece {
        Piece::Pawn => pawn_goes(position, position.side_to_move, from, to),
        _ => geometry::attacks(piece, position.side_to_move, position.occupied, from, to),
    }
}

/// A rook, bishop or queen of the player's on `from` looks at a square among the given pieces.
pub open spec fn slider_sees(
    position: Position,
    player: Color,
    blockers: u64,
    at: int,
    from: int,
) -> bool {
    &&& bitboard::holds(position.men(player), from)
    &&& {
        ||| geometry::rook_reaches(blockers, at, from) && (bitboard::holds(position.rooks, from)
            || bitboard::holds(position.queens, from))
        ||| geometry::bishop_reaches(blockers, at, from) && (bitboard::holds(
            position.bishops,
            from,
        ) || bitboard::holds(position.queens, from))
    }
}

/// Some rook, bishop or queen of the player's looks at a square among the given pieces.
pub open spec fn sliders_see(position: Position, player: Color, blockers: u64, at: int) -> bool {
    exists|from: int|
        squares::on_board(from) && #[trigger] slider_sees(position, player, blockers, at, from)
}

/// A man of the player's on `from` looks at a square of the opponent's king among the given
/// pieces.
pub open spec fn guards(
    position: Position,
    player: Color,
    blockers: u64,
    at: int,
    from: int,
) -> bool {
    ||| slider_sees(position, player, blockers, at, from)
    ||| bitboard::holds(position.men(player), from) && {
        ||| geometry::knight_reaches(at, from) && bitboard::holds(position.knights, from)
        ||| geometry::king_reaches(at, from) && bitboard::holds(position.kings, from)
        ||| geometry::pawn_captures(pieces::other(player), at, from) && bitboard::holds(
            position.pawns,
            from,
        )
    }
}

/// No man of the opponent's looks at the square once the king of the player to move is there.
pub open spec fn unguarded(position: Position, to: int) -> bool {
    let side = position.side_to_move;
    let blockers = position.occupied ^ (position.kings & position.men(side)) | (1u64 << to);
    forall|from: int|
        squares::on_board(from) ==> !#[trigger] guards(
            position,
            pieces::other(side),
            blockers,
            to,
            from,
        )
}

/// The king of the player to move may step to the square.
pub open spec fn king_steps(position: Position, king: int, to: int) -> bool {
    &&& geometry::king_reaches(king, to)
    &&& !bitboard::holds(position.men(position.side_to_move), to)
    &&& unguarded(position, to)
}

/// The square so many files to the right on the same rank, or to the left where the number is
/// below zero. Past the edge the files go on from the other side.
pub open spec fn beside(square: int, files: int) -> int {
    squares::rank_of(square) * 8 + (squares::file_of(square) + files) % 8
}

impl BoardState {
    /// The square lies between the king and a piece that gives check.
    pub open spec fn shields(self, king: int, to: int) -> bool {
        exists|checker: int|
            squares::on_board(checker) && bitboard::holds(self.checkers, checker)
                && #[trigger] geometry::between(checker, king, to)
    }

    /// A move of a man other than a king does not leave the king in check: a pinned man stays on
    /// its line, and a check is met by taking the piece that gives it or by going between.
    pub open spec fn allows(self, piece: Piece, from: int, to: int) -> bool {
        let king = first_king(self.position, self.position.side_to_move);
        if bitboard::size(self.checkers) == 0 {
            bitboard::holds(self.pinned, from) ==> piece != Piece::Knight && geometry::on_line(
                from,
                king,
                to,
            )
        } else {
            &&& bitboard::size(self.checkers) == 1
            &&& !bitboard::holds(self.pinned, from)
            &&& bitboard::holds(self.checkers, to) || self.shields(king, to)
        }
    }

    /// A man other than a king may go from one square to another.
    pub open spec fn may_go(self, piece: Piece, from: int, to: int) -> bool {
        goes(self.position, piece, from, to) && self.allows(piece, from, to)
    }

    /// A man of the given kind of the player to move, other than a king, has a move.
    pub open spec fn has_move(self, piece: Piece, from: int) -> bool {
        &&& bitboard::holds(self.position.pieces(piece), from)
        &&& bitboard::holds(self.position.men(self.position.side_to_move), from)
        &&& exists|to: int| squares::on_board(to) && #[trigger] self.may_go(piece, from, to)
    }

    /// A pawn of the player to move may take another in passing.
    pub open spec fn takes_in_passing(self, from: int) -> bool {
        let side = self.position.side_to_move;
        &&& self.position.en_passant matches Some(pawn)
        &&& bitboard::size(self.checkers) <= 1
        &&& bitboard::holds(self.position.pawns, from)
        &&& bitboard::holds(self.position.men(side), from)
        &&& geometry::ranks_up(from, pawn.index as int) == 0
        &&& geometry::magnitude(geometry::files_right(from, pawn.index as int)) == 1
        &&& !sliders_see(
            self.position,
            pieces::other(side),
            self.position.occupied ^ (1u64 << pawn.index) ^ (1u64 << from) ^ (1u64 << (pawn.index
                + 8 * geometry::forward(side))),
            first_king(self.position, side),
        )
    }

    /// The king of the player to move may castle on the king's side: it is not in check, the squares
    /// between the homes of king and rook are empty, and neither of the next two squares is looked
    /// at.
    pub open spec fn castles_kingside(self) -> bool {
        let side = self.position.side_to_move;
        let king = first_king(self.position, side);
        let home = order::king_home(side);
        &&& self.position.castling(side).kingside
        &&& bitboard::size(self.checkers) == 0
        &&& !bitboard::holds(self.position.occupied, home + 1)
        &&& !bitboard::holds(self.position.occupied, home + 2)
        &&& unguarded(self.position, beside(king, 1))
        &&& unguarded(self.position, beside(king, 2))
    }

    /// The king of the player to move may castle on the queen's side.
    pub open spec fn castles_queenside(self) -> bool {
        let side = self.position.side_to_move;
        let king = first_king(self.position, side);
        let home = order::king_home(side);
        &&& self.position.castling(side).queenside
        &&& bitboard::size(self.checkers) == 0
        &&& !bitboard::holds(self.position.occupied, home - 1)
        &&& !bitboard::holds(self.position.occupied, home - 2)
        &&& !bitboard::holds(self.position.occupied, home - 3)
        &&& unguarded(self.position, beside(king, -1))
        &&& unguarded(self.position, beside(king, -2))
    }

    /// The king of the player to move has a move.
    pub open spec fn king_moves(self) -> bool {
        let king = first_king(self.position, self.position.side_to_move);
        ||| exists|to: int| squares::on_board(to) && #[trigger] king_steps(self.position, king, to)
        ||| self.castles_kingside()
        ||| self.castles_queenside()
    }

    /// The men of one kind that have a move.
    pub open spec fn movers(self, piece: Piece) -> Set<int> {
        Set::new(|from: int| squares::on_board(from) && self.has_move(piece, from))
    }

    /// The pawns that may take another in passing.
    pub open spec fn takers(self) -> Set<int> {
        Set::new(|from: int| squares::on_board(from) && self.takes_in_passing(from))
    }

    /// How many entries the list of legal moves has.
    pub open spec fn entries(self) -> nat {
        self.movers(Piece::Pawn).len() + self.takers().len() + self.movers(Piece::Knight).len()
            + self.movers(Piece::Bishop).len() + self.movers(Piece::Rook).len() + self.movers(
            Piece::Queen,
        ).len() + if self.king_moves() {
            1nat
        } else {
            0nat
        }
    }

    /// The legal moves can be listed: the player to move has a king, and the list has room.
    pub open spec fn listable(self) -> bool {
        &&& self.position.has_king(self.position.side_to_move)
        &&& self.entries() <= LIST_ENTRIES
    }
}

/// The men of one kind that a player has.
proof fn lemma_movers_are_men(board: BoardState, piece: Piece)
    ensures
        board.movers(piece).finite(),
        board.movers(piece).len() <= board.position.count(piece, board.position.side_to_move),
{
    let side = board.position.side_to_move;
    let mask = board.position.pieces(piece) & board.position.men(side);
    bitboard::lemma_size(mask);
    assert forall|from: int| board.movers(piece).contains(from) implies bitboard::squares_of(
        mask,
    ).contains(from) by {
        bitboard::lemma_and(board.position.pieces(piece), board.position.men(side), from);
    }
    vstd::set_lib::lemma_len_subset(board.movers(piece), bitboard::squares_of(mask));
}

/// At most the two neighbours of a pawn take it in passing, and none where there is no such pawn.
proof fn lemma_takers_are_neighbours(board: BoardState)
    requires
        board.position.wf(),
    ensures
        board.takers().finite(),
        board.takers().len() <= 2,
        board.position.en_passant is None ==> board.takers().len() == 0,
{
    match board.position.en_passant {
        Some(pawn) => {
            let left = pawn.index - 1;
            let right = pawn.index + 1;
            let both = Set::empty().insert(left).insert(right);
            assert forall|from: int| board.takers().contains(from) implies both.contains(from) by {
                assert(from / 8 == pawn.index as int / 8);
            }
            vstd::set_lib::lemma_len_subset(board.takers(), both);
        },
        None => {
            assert(board.takers() =~= Set::empty());
        },
    }
}

/// The squares of a player's men of one kind.
spec fn men_of(position: Position, player: Color, piece: Piece) -> Set<int> {
    bitboard::squares_of(position.pieces(piece) & position.men(player))
}

/// Where the masks fit together, the men of two kinds stand on different squares.
proof fn lemma_kinds_are_apart(position: Position, player: Color, one: Piece, two: Piece)
    requires
        position.tidy(),
        one != two,
    ensures
        men_of(position, player, one).finite(),
        men_of(position, player, one).disjoint(men_of(position, player, two)),
        men_of(position, player, one).subset_of(bitboard::squares_of(position.men(player))),
{
    bitboard::lemma_size(position.pieces(one) & position.men(player));
    assert forall|square: int| #[trigger] men_of(position, player, one).contains(
        square,
    ) implies !men_of(position, player, two).contains(square) && bitboard::holds(
        position.men(player),
        square,
    ) by {
        bitboard::lemma_and(position.pieces(one), position.men(player), square);
        bitboard::lemma_and(position.pieces(two), position.men(player), square);
        assert(bitboard::holds(position.occupied, square) ==> position.tidy_at(square));
        assert(position.tidy_at(square));
    }
}

/// Where the masks fit together, the men of the six kinds are no more than all men.
proof fn lemma_kinds_are_men(position: Position, player: Color)
    requires
        position.tidy(),
    ensures
        position.count(Piece::Pawn, player) + position.count(Piece::Knight, player)
            + position.count(Piece::Bishop, player) + position.count(Piece::Rook, player)
            + position.count(Piece::Queen, player) + position.count(Piece::King, player)
            <= bitboard::size(position.men(player)),
{
    let kinds = seq![
        Piece::Pawn,
        Piece::Knight,
        Piece::Bishop,
        Piece::Rook,
        Piece::Queen,
        Piece::King,
    ];
    assert forall|i: int, j: int| 0 <= i < 6 && 0 <= j < 6 && i != j implies {
        &&& men_of(position, player, #[trigger] kinds[i]).finite()
        &&& men_of(position, player, kinds[i]).disjoint(
            men_of(position, player, #[trigger] kinds[j]),
        )
        &&& men_of(position, player, kinds[i]).subset_of(
            bitboard::squares_of(position.men(player)),
        )
    } by {
        lemma_kinds_are_apart(position, player, kinds[i], kinds[j]);
    }
    let p = men_of(position, player, kinds[0]);
    let n = men_of(position, player, kinds[1]);
    let b = men_of(position, player, kinds[2]);
    let r = men_of(position, player, kinds[3]);
    let q = men_of(position, player, kinds[4]);
    let k = men_of(position, player, kinds[5]);
    vstd::set_lib::lemma_set_disjoint_lens(p, n);
    vstd::set_lib::lemma_set_disjoint_lens(p + n, b);
    vstd::set_lib::lemma_set_disjoint_lens(p + n + b, r);
    vstd::set_lib::lemma_set_disjoint_lens(p + n + b + r, q);
    vstd::set_lib::lemma_set_disjoint_lens(p + n + b + r + q, k);
    bitboard::lemma_size(position.men(player));
    vstd::set_lib::lemma_len_subset(
        p + n + b + r + q + k,
        bitboard::squares_of(position.men(player)),
    );
}

/// The moves of a board of legal play can be listed: fifteen men and the king have an entry each
/// at most, and two pawns one more.
pub proof fn lawful_boards_are_listable(board: BoardState)
    requires
        board.position.wf(),
        board.lawful(),
    ensures
        board.listable(),
{
    let side = board.position.side_to_move;
    lemma_kinds_are_men(board.position, side);
    lemma_takers_are_neighbours(board);
    lemma_movers_are_men(board, Piece::Pawn);
    lemma_movers_are_men(board, Piece::Knight);
    lemma_movers_are_men(board, Piece::Bishop);
    lemma_movers_are_men(board, Piece::Rook);
    lemma_movers_are_men(board, Piece::Queen);
}

/// Finds the square of the player's king, the first one where there are more.
pub fn king_square(position: &Position, player: Color) -> (square: usize)
    requires
        position.has_king(player),
    ensures
        square < BOARD_SQUARES,
        square == first_king(*position, player),
{
    let men: u64 = position.color_mask(player);
    let mut square: usize = 0;
    let ghost witness = choose|s: int|
        squares::on_board(s) && #[trigger] position.king_at(player, s);
    while square < BOARD_SQUARES && !(has_square(position.kings, square) && has_square(men, square))
        invariant
            square <= 64,
            men == position.men(player),
            0 <= witness < 64,
            position.king_at(player, witness),
            forall|s: int| 0 <= s < square ==> !#[trigger] position.king_at(player, s),
        decreases BOARD_SQUARES - square,
    {
        square = square + 1;
    }
    proof {
        assert(is_first_king(*position, player, square as int));
        let first = first_king(*position, player);
        assert(is_first_king(*position, player, first));
        assert(first >= square && square >= first);
    }
    square
}

/// Tells whether some rook, bishop or queen of the player's looks at a square among the given
/// pieces.
fn is_seen_by_sliders(position: &Position, player: Color, blockers: u64, at: usize) -> (seen: bool)
    requires
        at < BOARD_SQUARES,
    ensures
        seen == sliders_see(*position, player, blockers, at as int),
{
    let men: u64 = position.color_mask(player);
    let lines: u64 = get_rook_moves(at, blockers);
    let diagonals: u64 = get_bishop_moves(at, blockers);
    let mut from: usize = 0;
    while from < BOARD_SQUARES
        invariant
            from <= 64,
            at < 64,
            men == position.men(player),
            forall|to: int| #![trigger bitboard::holds(lines, to)]
                0 <= to < 64 ==> bitboard::holds(lines, to) == geometry::rook_reaches(
                    blockers,
                    at as int,
                    to,
                ),
            forall|to: int| #![trigger bitboard::holds(diagonals, to)]
                0 <= to < 64 ==> bitboard::holds(diagonals, to) == geometry::bishop_reaches(
                    blockers,
                    at as int,
                    to,
                ),
            forall|s: int|
                0 <= s < from ==> !#[trigger] slider_sees(
                    *position,
                    player,
                    blockers,
                    at as int,
                    s,
                ),
        decreases BOARD_SQUARES - from,
    {
        if has_square(men, from) {
            let queen: bool = has_square(position.queens, from);
            if has_square(lines, from) && (queen || has_square(position.rooks, from)) || has_square(
                diagonals,
                from,
            ) && (queen || has_square(position.bishops, from)) {
                assert(slider_sees(*position, player, blockers, at as int, from as int));
                return true;
            }
        }
        from = from + 1;
    }
    false
}

/// Tells whether some man of the player's looks at a square of the opponent's king among the given
/// pieces.
fn is_guarded(position: &Position, player: Color, blockers: u64, at: usize) -> (guarded: bool)
    requires
        at < BOARD_SQUARES,
    ensures
        guarded == exists|from: int|
            squares::on_board(from) && #[trigger] guards(
                *position,
                player,
                blockers,
                at as int,
                from,
            ),
{
    if is_seen_by_sliders(position, player, blockers, at) {
        proof {
            let from = choose|from: int|
                squares::on_board(from) && #[trigger] slider_sees(
                    *position,
                    player,
                    blockers,
                    at as int,
                    from,
                );
            assert(guards(*position, player, blockers, at as int, from));
        }
        return true;
    }
    let men: u64 = position.color_mask(player);
    let jumps: u64 = get_knight_moves(at);
    let near: u64 = get_king_moves(at);
    let captures: u64 = get_pawn_attacks(at, opposite_color(player), position.pawns);
    let mut from: usize = 0;
    while from < BOARD_SQUARES
        invariant
            from <= 64,
            at < 64,
            men == position.men(player),
            !sliders_see(*position, player, blockers, at as int),
            forall|to: int| #![trigger bitboard::holds(jumps, to)]
                0 <= to < 64 ==> bitboard::holds(jumps, to) == geometry::knight_reaches(
                    at as int,
                    to,
                ),
            forall|to: int| #![trigger bitboard::holds(near, to)]
                0 <= to < 64 ==> bitboard::holds(near, to) == geometry::king_reaches(
                    at as int,
                    to,
                ),
            forall|to: int| #![trigger bitboard::holds(captures, to)]
                0 <= to < 64 ==> bitboard::holds(captures, to) == (geometry::pawn_captures(
                    pieces::other(player),
                    at as int,
                    to,
                ) && bitboard::holds(position.pawns, to)),
            forall|s: int|
                0 <= s < from ==> !#[trigger] guards(*position, player, blockers, at as int, s),
        decreases BOARD_SQUARES - from,
    {
        assert(!slider_sees(*position, player, blockers, at as int, from as int));
        if has_square(men, from) && (has_square(captures, from) || has_square(jumps, from)
            && has_square(position.knights, from) || has_square(near, from) && has_square(
            position.kings,
            from,
        )) {
            assert(guards(*position, player, blockers, at as int, from as int));
            return true;
        }
        from = from + 1;
    }
    false
}

/// Tells whether a pawn of the player's goes from one square to another.
fn does_pawn_go(position: &Position, player: Color, from: usize, to: usize) -> (found: bool)
    requires
        from < BOARD_SQUARES,
        to < BOARD_SQUARES,
    ensures
        found == pawn_goes(*position, player, from as int, to as int),
{
    let captures: u64 = get_pawn_attacks(from, player, position.occupied);
    if has_square(captures, to) {
        return true;
    }
    let way: i32 = if player == Color::White {
        8
    } else {
        -8
    };
    let start: usize = if player == Color::White {
        1
    } else {
        6
    };
    let next: i32 = from as i32 + way;
    if next < 0 || next >= 64 || has_square(position.occupied, next as usize) || has_square(
        position.occupied,
        to,
    ) {
        return false;
    }
    to as i32 == next || from / 8 == start && to as i32 == next + way
}

/// Tells whether a square lies between the king and a piece that gives check.
fn does_shield(board: &BoardState, king: usize, to: usize) -> (found: bool)
    requires
        king < BOARD_SQUARES,
        to < BOARD_SQUARES,
    ensures
        found == board.shields(king as int, to as int),
{
    let mut checker: usize = 0;
    while checker < BOARD_SQUARES
        invariant
            checker <= 64,
            king < 64,
            to < 64,
            forall|s: int|
                0 <= s < checker && bitboard::holds(board.checkers, s)
                    ==> !#[trigger] geometry::between(s, king as int, to as int),
        decreases BOARD_SQUARES - checker,
    {
        if has_square(board.checkers, checker) && is_between(checker, king, to) {
            return true;
        }
        checker = checker + 1;
    }
    false
}

/// Tells whether a move of a man other than a king does not leave the king in check.
fn is_allowed(board: &BoardState, king: usize, piece: Piece, from: usize, to: usize) -> (allowed:
    bool)
    requires
        king == first_king(board.position, board.position.side_to_move),
        king < BOARD_SQUARES,
        from < BOARD_SQUARES,
        to < BOARD_SQUARES,
    ensures
        allowed == board.allows(piece, from as int, to as int),
{
    let checks: u32 = count_squares(board.checkers);
    let pinned: bool = has_square(board.pinned, from);
    if checks == 0 {
        !pinned || piece != Piece::Knight && is_on_line(from, king, to)
    } else {
        checks == 1 && !pinned && (has_square(board.checkers, to) || does_shield(board, king, to))
    }
}

/// Tells whether a man of the given kind of the player to move, other than a king, has a move.
fn can_move(board: &BoardState, king: usize, piece: Piece, from: usize) -> (found: bool)
    requires
        king == first_king(board.position, board.position.side_to_move),
        king < BOARD_SQUARES,
        from < BOARD_SQUARES,
    ensures
        found == board.has_move(piece, from as int),
{
    let position: Position = board.position;
    let side: Color = position.side_to_move;
    let men: u64 = position.color_mask(side);
    if !has_square(position.piece_mask(piece), from) || !has_square(men, from) {
        return false;
    }
    let attacked: u64 = piece_attacks(&position, from, piece, side);
    let mut to: usize = 0;
    while to < BOARD_SQUARES
        invariant
            to <= 64,
            from < 64,
            king < 64,
            king == first_king(board.position, board.position.side_to_move),
            position == board.position,
            side == position.side_to_move,
            men == position.men(side),
            bitboard::holds(position.pieces(piece), from as int),
            bitboard::holds(men, from as int),
            forall|t: int| #![trigger bitboard::holds(attacked, t)]
                0 <= t < 64 ==> bitboard::holds(attacked, t) == geometry::attacks(
                    piece,
                    side,
                    position.occupied,
                    from as int,
                    t,
                ),
            forall|t: int| 0 <= t < to ==> !#[trigger] board.may_go(piece, from as int, t),
        decreases BOARD_SQUARES - to,
    {
        let reached: bool = if piece == Piece::Pawn {
            does_pawn_go(&position, side, from, to)
        } else {
            has_square(attacked, to)
        };
        if reached && !has_square(men, to) && is_allowed(board, king, piece, from, to) {
            assert(board.may_go(piece, from as int, to as int));
            return true;
        }
        to = to + 1;
    }
    false
}

/// Counts the men of one kind that have a move.
fn count_movers(board: &BoardState, king: usize, piece: Piece) -> (count: u32)
    requires
        king == first_king(board.position, board.position.side_to_move),
        king < BOARD_SQUARES,
    ensures
        count == board.movers(piece).len(),
        count <= 64,
{
    let mut count: u32 = 0;
    let mut from: usize = 0;
    let ghost mut seen: Set<int> = Set::empty();
    while from < BOARD_SQUARES
        invariant
            from <= 64,
            king < 64,
            king == first_king(board.position, board.position.side_to_move),
            count <= from,
            count == seen.len(),
            seen.finite(),
            forall|i: int| seen.contains(i) <==> 0 <= i < from && board.has_move(piece, i),
        decreases BOARD_SQUARES - from,
    {
        if can_move(board, king, piece, from) {
            count = count + 1;
            proof {
                seen = seen.insert(from as int);
            }
        }
        from = from + 1;
    }
    assert(seen =~= board.movers(piece));
    count
}

/// Tells whether a pawn of the player to move may take another in passing.
fn can_take_in_passing(board: &BoardState, king: usize, from: usize) -> (found: bool)
    requires
        board.position.wf(),
        king == first_king(board.position, board.position.side_to_move),
        king < BOARD_SQUARES,
        from < BOARD_SQUARES,
    ensures
        found == board.takes_in_passing(from as int),
{
    let position: Position = board.position;
    let side: Color = position.side_to_move;
    match position.en_passant {
        Some(pawn) => {
            let taken: usize = pawn.index as usize;
            let behind: u8 = if side == Color::White {
                pawn.index + 8
            } else {
                pawn.index - 8
            };
            let files: i32 = geometry::count_files_right(from, taken);
            if count_squares(board.checkers) > 1 || !has_square(position.pawns, from)
                || !has_square(position.color_mask(side), from) || geometry::count_ranks_up(
                from,
                taken,
            ) != 0 || (files != 1 && files != -1) {
                return false;
            }
            let blockers: u64 = position.occupied ^ (1u64 << pawn.index) ^ (1u64 << from) ^ (1u64
                << behind);
            !is_seen_by_sliders(&position, opposite_color(side), blockers, king)
        },
        None => false,
    }
}

/// Counts the pawns that may take another in passing.
fn count_takers(board: &BoardState, king: usize) -> (count: u32)
    requires
        board.position.wf(),
        king == first_king(board.position, board.position.side_to_move),
        king < BOARD_SQUARES,
    ensures
        count == board.takers().len(),
        count <= 64,
{
    let mut count: u32 = 0;
    let mut from: usize = 0;
    let ghost mut seen: Set<int> = Set::empty();
    while from < BOARD_SQUARES
        invariant
            from <= 64,
            king < 64,
            board.position.wf(),
            king == first_king(board.position, board.position.side_to_move),
            count <= from,
            count == seen.len(),
            seen.finite(),
            forall|i: int| seen.contains(i) <==> 0 <= i < from && board.takes_in_passing(i),
        decreases BOARD_SQUARES - from,
    {
        if can_take_in_passing(board, king, from) {
            count = count + 1;
            proof {
                seen = seen.insert(from as int);
            }
        }
        from = from + 1;
    }
    assert(seen =~= board.takers());
    count
}

/// Tells whether no man of the opponent's looks at the square once the king of the player to move
/// is there.
fn is_unguarded(position: &Position, to: usize) -> (free: bool)
    requires
        to < BOARD_SQUARES,
    ensures
        free == unguarded(*position, to as int),
{
    let side: Color = position.side_to_move;
    let blockers: u64 = position.occupied ^ (position.kings & position.color_mask(side)) | (1u64
        << to);
    !is_guarded(position, opposite_color(side), blockers, to)
}

/// Tells whether the king of the player to move may castle.
fn can_castle(board: &BoardState, king: usize) -> (found: bool)
    requires
        king == first_king(board.position, board.position.side_to_move),
        king < BOARD_SQUARES,
    ensures
        found == (board.castles_kingside() || board.castles_queenside()),
{
    let position: Position = board.position;
    let side: Color = position.side_to_move;
    let sides: CastleSides = match side {
        Color::White => position.white_castling,
        Color::Black => position.black_castling,
    };
    let home: usize = match side {
        Color::White => 4,
        Color::Black => 60,
    };
    if count_squares(board.checkers) != 0 {
        return false;
    }
    let rank: usize = king / 8 * 8;
    let file: usize = king % 8;
    if sides.kingside && !has_square(position.occupied, home + 1) && !has_square(
        position.occupied,
        home + 2,
    ) && is_unguarded(&position, rank + (file + 1) % 8) && is_unguarded(
        &position,
        rank + (file + 2) % 8,
    ) {
        return true;
    }
    sides.queenside && !has_square(position.occupied, home - 1) && !has_square(
        position.occupied,
        home - 2,
    ) && !has_square(position.occupied, home - 3) && is_unguarded(
        &position,
        rank + (file + 7) % 8,
    ) && is_unguarded(&position, rank + (file + 6) % 8)
}

/// Tells whether the king of the player to move has a move.
fn can_king_move(board: &BoardState, king: usize) -> (found: bool)
    requires
        king == first_king(board.position, board.position.side_to_move),
        king < BOARD_SQUARES,
    ensures
        found == board.king_moves(),
{
    let position: Position = board.position;
    let men: u64 = position.color_mask(position.side_to_move);
    let near: u64 = get_king_moves(king);
    let mut to: usize = 0;
    while to < BOARD_SQUARES
        invariant
            to <= 64,
            king < 64,
            position == board.position,
            men == position.men(position.side_to_move),
            forall|t: int| #![trigger bitboard::holds(near, t)]
                0 <= t < 64 ==> bitboard::holds(near, t) == geometry::king_reaches(
                    king as int,
                    t,
                ),
            king == first_king(position, position.side_to_move),
            forall|t: int| 0 <= t < to ==> !#[trigger] king_steps(position, king as int, t),
        decreases BOARD_SQUARES - to,
    {
        if has_square(near, to) && !has_square(men, to) && is_unguarded(&position, to) {
            assert(king_steps(position, king as int, to as int));
            return true;
        }
        to = to + 1;
    }
    can_castle(board, king)
}

impl BoardState {
    /// Counts the entries of the list of legal moves.
    pub fn count_entries(&self) -> (count: u32)
        requires
            self.position.wf(),
            self.position.has_king(self.position.side_to_move),
        ensures
            count == self.entries(),
    {
        let king: usize = king_square(&self.position, self.position.side_to_move);
        let men: u32 = count_movers(self, king, Piece::Pawn) + count_takers(self, king)
            + count_movers(self, king, Piece::Knight) + count_movers(self, king, Piece::Bishop)
            + count_movers(self, king, Piece::Rook) + count_movers(self, king, Piece::Queen);
        if can_king_move(self, king) {
            men + 1
        } else {
            men
        }
    }

    /// Tells whether the legal moves can be listed.
    pub fn is_listable(&self) -> (listable: bool)
        requires
            self.position.wf(),
        ensures
            listable == self.listable(),
    {
        self.position.king_present(self.position.side_to_move) && self.count_entries()
            <= LIST_ENTRIES
    }
}

/// A player who has a king and no more than fifteen other men can list the moves, wherever the men
/// stand. Without a king there is no list.
pub proof fn few_men_can_be_listed(board: BoardState)
    requires
        board.position.wf(),
    ensures
        ({
            let position = board.position;
            let men = match position.side_to_move {
                Color::White => position.white,
                Color::Black => position.black,
            };
            &&& position.kings & men != 0 && bitboard::size(position.pawns & men) + bitboard::size(
                position.knights & men,
            ) + bitboard::size(position.bishops & men) + bitboard::size(position.rooks & men)
                + bitboard::size(position.queens & men) <= 15 ==> board.listable()
            &&& position.kings & men == 0 ==> !board.listable()
        }),
{
    board_laws::games_are_decided_by_kings(board.position);
    lemma_takers_are_neighbours(board);
    lemma_movers_are_men(board, Piece::Pawn);
    lemma_movers_are_men(board, Piece::Knight);
    lemma_movers_are_men(board, Piece::Bishop);
    lemma_movers_are_men(board, Piece::Rook);
    lemma_movers_are_men(board, Piece::Queen);
}

/// A man of the player's guards a square exactly where a man of its kind on that square could
/// strike at it. For a pawn it is one of the other colour.
pub proof fn men_guard_what_they_strike_at(
    position: Position,
    player: Color,
    blockers: u64,
    at: int,
    from: int,
)
    requires
        squares::on_board(at),
        squares::on_board(from),
    ensures
        guards(position, player, blockers, at, from) <==> bitboard::holds(
            match player {
                Color::White => position.white,
                Color::Black => position.black,
            },
            from,
        ) && exists|piece: Piece|
            bitboard::holds(#[trigger] position.pieces(piece), from) && sight_laws::strikes(
                piece,
                match player {
                    Color::White => Color::Black,
                    Color::Black => Color::White,
                },
                blockers,
                at,
                from,
            ),
{
    let rival = match player {
        Color::White => Color::Black,
        Color::Black => Color::White,
    };
    sight_laws::men_attack_as_they_strike(Piece::Pawn, rival, blockers, at, from);
    sight_laws::men_attack_as_they_strike(Piece::Knight, rival, blockers, at, from);
    sight_laws::men_attack_as_they_strike(Piece::Bishop, rival, blockers, at, from);
    sight_laws::men_attack_as_they_strike(Piece::Rook, rival, blockers, at, from);
    sight_laws::men_attack_as_they_strike(Piece::Queen, rival, blockers, at, from);
    sight_laws::men_attack_as_they_strike(Piece::King, rival, blockers, at, from);
    assert(position.pieces(Piece::Pawn) == position.pawns);
    assert(position.pieces(Piece::Knight) == position.knights);
    assert(position.pieces(Piece::Bishop) == position.bishops);
    assert(position.pieces(Piece::Rook) == position.rooks);
    assert(position.pieces(Piece::Queen) == position.queens);
    assert(position.pieces(Piece::King) == position.kings);
}

/// A pawn of the given colour goes from one square to another: it takes what it strikes at, or
/// goes ahead over empty squares.
pub open spec fn pawn_advances(occupied: u64, color: Color, from: int, to: int) -> bool {
    ||| sight_laws::strikes(Piece::Pawn, color, occupied, from, to) && bitboard::holds(occupied, to)
    ||| sight_laws::looks_ahead(occupied, color, from, to) && !bitboard::holds(occupied, to) && (
    if color == Color::White {
        !bitboard::holds(occupied, from + 8)
    } else {
        !bitboard::holds(occupied, from - 8)
    })
}

/// A man that is not pinned has a move out of check exactly where it can go to a square without an
/// own man. A pinned knight has none. In check from two sides no man but the king has one.
pub proof fn men_move_as_they_strike(board: BoardState, piece: Piece, from: int)
    requires
        squares::on_board(from),
    ensures
        ({
            let position = board.position;
            let men = position.men(position.side_to_move);
            let free = exists|to: int|
                squares::on_board(to) && #[trigger] freely_goes(position, men, piece, from, to);
            let checks = bitboard::size(board.checkers);
            let pinned = bitboard::holds(board.pinned, from);
            &&& board.has_move(piece, from) ==> bitboard::holds(position.pieces(piece), from)
                && bitboard::holds(men, from) && free
            &&& checks == 0 && !pinned ==> (board.has_move(piece, from) <==> bitboard::holds(
                position.pieces(piece),
                from,
            ) && bitboard::holds(men, from) && free)
            &&& pinned && (checks > 0 || piece == Piece::Knight) ==> !board.has_move(piece, from)
            &&& checks > 1 ==> !board.has_move(piece, from)
        }),
{
    let position = board.position;
    let side = position.side_to_move;
    let men = position.men(side);
    assert forall|to: int| squares::on_board(to) implies goes(position, piece, from, to)
        == #[trigger] freely_goes(position, men, piece, from, to) by {
        sight_laws::men_attack_as_they_strike(piece, side, position.occupied, from, to);
        sight_laws::men_attack_as_they_strike(Piece::Pawn, side, position.occupied, from, to);
    }
    if board.has_move(piece, from) {
        let to = choose|to: int|
            squares::on_board(to) && #[trigger] board.may_go(piece, from, to);
        assert(freely_goes(position, men, piece, from, to));
    }
    if exists|to: int|
        squares::on_board(to) && #[trigger] freely_goes(position, men, piece, from, to) {
        let to = choose|to: int|
            squares::on_board(to) && #[trigger] freely_goes(position, men, piece, from, to);
        assert(goes(position, piece, from, to));
        assert(board.may_go(piece, from, to) == board.allows(piece, from, to));
    }
}

/// A man can go to a square without an own man, checks and pins aside.
pub open spec fn freely_goes(
    position: Position,
    men: u64,
    piece: Piece,
    from: int,
    to: int,
) -> bool {
    &&& !bitboard::holds(men, to)
    &&& if piece == Piece::Pawn {
        pawn_advances(position.occupied, position.side_to_move, from, to)
    } else {
        sight_laws::strikes(piece, position.side_to_move, position.occupied, from, to)
    }
}

/// A pinned man other than a knight has a move only along the line to the king. In check from one
/// side, a move takes the piece that gives it or goes between it and the king. The king is the
/// first of the player's on the board.
pub proof fn kings_are_kept_out_of_check(board: BoardState, piece: Piece, from: int, to: int)
    requires
        board.position.has_king(board.position.side_to_move),
        squares::on_board(from),
        squares::on_board(to),
    ensures
        ({
            let side = board.position.side_to_move;
            let king = first_king(board.position, side);
            let checks = bitboard::size(board.checkers);
            let pinned = bitboard::holds(board.pinned, from);
            &&& squares::on_board(king)
            &&& board.position.king_at(side, king)
            &&& forall|s: int| 0 <= s < king ==> !#[trigger] board.position.king_at(side, s)
            &&& checks == 0 && pinned && piece != Piece::Knight ==> (board.allows(piece, from, to)
                <==> exists|up: int, right: int, k: int, j: int| #[trigger]
                sight_laws::leads(from, king, to, up, right, k, j))
            &&& checks == 1 && !pinned && bitboard::holds(board.checkers, to) ==> board.allows(
                piece,
                from,
                to,
            )
            &&& checks == 1 && !pinned && !bitboard::holds(board.checkers, to) ==> (board.allows(
                piece,
                from,
                to,
            ) <==> exists|checker: int, up: int, right: int, k: int, j: int|
                squares::on_board(checker) && bitboard::holds(board.checkers, checker) && 0 < j < k
                    && #[trigger] sight_laws::leads(checker, king, to, up, right, k, j))
        }),
{
    let side = board.position.side_to_move;
    let position = board.position;
    let some = choose|s: int| squares::on_board(s) && #[trigger] position.king_at(side, s);
    lemma_first_king(position, side, some);
    let king = first_king(position, side);
    sight_laws::ways_pass_over_what_lies_between(from, king, to);
    if board.shields(king, to) {
        let checker = choose|checker: int|
            squares::on_board(checker) && bitboard::holds(board.checkers, checker)
                && #[trigger] geometry::between(checker, king, to);
        sight_laws::ways_pass_over_what_lies_between(checker, king, to);
        let (up, right, k, j) = choose|up: int, right: int, k: int, j: int|
            0 < j < k && #[trigger] sight_laws::leads(checker, king, to, up, right, k, j);
        assert(sight_laws::leads(checker, king, to, up, right, k, j));
    }
    assert forall|checker: int, up: int, right: int, k: int, j: int|
        squares::on_board(checker) && bitboard::holds(board.checkers, checker) && 0 < j < k
            && #[trigger] sight_laws::leads(
            checker,
            king,
            to,
            up,
            right,
            k,
            j,
        ) implies board.shields(king, to) by {
        sight_laws::ways_pass_over_what_lies_between(checker, king, to);
        assert(geometry::between(checker, king, to));
    }
}

/// There is a first king where there is one.
proof fn lemma_first_king(position: Position, player: Color, square: int)
    requires
        squares::on_board(square),
        position.king_at(player, square),
    ensures
        is_first_king(position, player, first_king(position, player)),
    decreases square,
{
    if forall|s: int| 0 <= s < square ==> !#[trigger] position.king_at(player, s) {
        assert(is_first_king(position, player, square));
    } else {
        let lower = choose|s: int| 0 <= s < square && #[trigger] position.king_at(player, s);
        lemma_first_king(position, player, lower);
    }
}

/// A pawn takes another in passing exactly where it stands next to it, no more than one piece
/// gives check, and no rook, bishop or queen of the opponent's strikes at the king once both pawns
/// have left their squares and the taking pawn stands behind the other.
pub proof fn pawns_are_taken_in_passing(board: BoardState, from: int)
    requires
        squares::on_board(from),
        board.position.wf(),
    ensures
        board.position.en_passant is None ==> !board.takes_in_passing(from),
        board.position.en_passant matches Some(pawn) ==> ({
            let position = board.position;
            let side = position.side_to_move;
            let behind = if side == Color::White {
                pawn.index + 8
            } else {
                pawn.index - 8
            };
            let occupied = position.occupied ^ (1u64 << pawn.index as int) ^ (1u64 << from) ^ (1u64
                << behind);
            board.takes_in_passing(from) <==> {
                &&& bitboard::size(board.checkers) <= 1
                &&& bitboard::holds(position.pawns, from)
                &&& bitboard::holds(position.men(side), from)
                &&& from / 8 == pawn.index as int / 8
                &&& from == pawn.index + 1 || from == pawn.index - 1
                &&& !sliders_see(
                    position,
                    pieces::other(side),
                    occupied,
                    first_king(position, side),
                )
            }
        }),
{
}

} // verus!

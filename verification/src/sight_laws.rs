//! What sight means, told from the moves of the men: lines that run until they meet a piece, jumps
//! and steps.

use vstd::prelude::*;
use crate::{bitboard, geometry, mirrored, squares, visibility};
use crate::pieces::{Color, Piece};
use crate::position::Position;

verus! {

/// The square `k` times so many ranks up and files to the right.
pub open spec fn way(from: int, up: int, right: int, k: int) -> int {
    (squares::rank_of(from) + k * up) * 8 + (squares::file_of(from) + k * right)
}

/// That square lies on the board.
pub open spec fn stays(from: int, up: int, right: int, k: int) -> bool {
    0 <= squares::rank_of(from) + k * up < 8 && 0 <= squares::file_of(from) + k * right < 8
}

/// No square is taken on the way to it.
pub open spec fn open_way(occupied: u64, from: int, up: int, right: int, k: int) -> bool {
    forall|j: int| 0 < j < k ==> !bitboard::holds(occupied, #[trigger] way(from, up, right, j))
}

/// A straight or a slanted way of `k` steps leads over empty squares from one square to another.
pub open spec fn slides(occupied: u64, from: int, to: int, up: int, right: int, k: int) -> bool {
    &&& -1 <= up <= 1
    &&& -1 <= right <= 1
    &&& up != 0 || right != 0
    &&& 0 < k
    &&& stays(from, up, right, k)
    &&& to == way(from, up, right, k)
    &&& open_way(occupied, from, up, right, k)
}

/// One jump leads from one square to another.
pub open spec fn jumps(from: int, to: int, up: int, right: int) -> bool {
    stays(from, up, right, 1) && to == way(from, up, right, 1)
}

/// The numbers are those of a knight's jump.
pub open spec fn is_knights_jump(up: int, right: int) -> bool {
    ||| (up == 1 || up == -1) && (right == 2 || right == -2)
    ||| (up == 2 || up == -2) && (right == 1 || right == -1)
}

/// A man on `from` can strike at `to`, by the rules of chess.
pub open spec fn strikes(piece: Piece, color: Color, occupied: u64, from: int, to: int) -> bool {
    match piece {
        Piece::Pawn => exists|up: int, right: int|
            (right == 1 || right == -1) && up == (if color == Color::White {
                1int
            } else {
                -1
            }) && #[trigger] jumps(from, to, up, right),
        Piece::Knight => exists|up: int, right: int|
            is_knights_jump(up, right) && #[trigger] jumps(from, to, up, right),
        Piece::Bishop => exists|up: int, right: int, k: int|
            up != 0 && right != 0 && #[trigger] slides(occupied, from, to, up, right, k),
        Piece::Rook => exists|up: int, right: int, k: int|
            (up == 0 || right == 0) && #[trigger] slides(occupied, from, to, up, right, k),
        Piece::Queen => exists|up: int, right: int, k: int| #[trigger]
            slides(occupied, from, to, up, right, k),
        Piece::King => exists|up: int, right: int| #[trigger]
            slides(occupied, from, to, up, right, 1),
    }
}

/// How far apart two squares are where a way leads from one to the other.
proof fn lemma_way(from: int, to: int, up: int, right: int, k: int)
    requires
        squares::on_board(from),
        -1 <= up <= 1,
        -1 <= right <= 1,
        up != 0 || right != 0,
        0 < k,
        stays(from, up, right, k),
        to == way(from, up, right, k),
    ensures
        squares::on_board(to),
        from != to,
        geometry::direction(geometry::ranks_up(from, to)) == up,
        geometry::direction(geometry::files_right(from, to)) == right,
        geometry::steps(from, to) == k,
        up == 0 <==> geometry::ranks_up(from, to) == 0,
        right == 0 <==> geometry::files_right(from, to) == 0,
        up != 0 && right != 0 ==> geometry::magnitude(geometry::ranks_up(from, to))
            == geometry::magnitude(geometry::files_right(from, to)),
{
    mirrored::lemma_scaled(k, up);
    mirrored::lemma_scaled(k, right);
    mirrored::lemma_square_at(squares::rank_of(from) + k * up, squares::file_of(from) + k * right);
}

/// A way leads between two squares on one line.
proof fn lemma_line(from: int, to: int)
    requires
        squares::on_board(from),
        squares::on_board(to),
        geometry::aligned(from, to),
    ensures
        ({
            let up = geometry::direction(geometry::ranks_up(from, to));
            let right = geometry::direction(geometry::files_right(from, to));
            let k = geometry::steps(from, to);
            &&& up != 0 || right != 0
            &&& 0 < k
            &&& stays(from, up, right, k)
            &&& to == way(from, up, right, k)
        }),
{
    let up = geometry::direction(geometry::ranks_up(from, to));
    let right = geometry::direction(geometry::files_right(from, to));
    let k = geometry::steps(from, to);
    mirrored::lemma_scaled(k, up);
    mirrored::lemma_scaled(k, right);
}

/// Nothing stands in the way exactly where every square of it is empty.
proof fn lemma_open(occupied: u64, from: int, to: int)
    ensures
        geometry::path_is_clear(occupied, from, to) == open_way(
            occupied,
            from,
            geometry::direction(geometry::ranks_up(from, to)),
            geometry::direction(geometry::files_right(from, to)),
            geometry::steps(from, to),
        ),
{
    let up = geometry::direction(geometry::ranks_up(from, to));
    let right = geometry::direction(geometry::files_right(from, to));
    let k = geometry::steps(from, to);
    assert forall|j: int| geometry::towards(from, to, j) == way(from, up, right, j) by {}
    if geometry::path_is_clear(occupied, from, to) {
        assert forall|j: int| 0 < j < k implies !bitboard::holds(
            occupied,
            #[trigger] way(from, up, right, j),
        ) by {
            assert(!bitboard::holds(occupied, geometry::towards(from, to, j)));
        }
    }
    if open_way(occupied, from, up, right, k) {
        assert forall|j: int| 0 < j < k implies !bitboard::holds(
            occupied,
            #[trigger] geometry::towards(from, to, j),
        ) by {
            assert(!bitboard::holds(occupied, way(from, up, right, j)));
        }
    }
}

/// A rook goes along ranks and files until it meets a piece.
proof fn lemma_rooks_slide(occupied: u64, from: int, to: int)
    requires
        squares::on_board(from),
        squares::on_board(to),
    ensures
        geometry::rook_reaches(occupied, from, to) <==> exists|up: int, right: int, k: int|
            (up == 0 || right == 0) && #[trigger] slides(occupied, from, to, up, right, k),
{
    let up = geometry::direction(geometry::ranks_up(from, to));
    let right = geometry::direction(geometry::files_right(from, to));
    let k = geometry::steps(from, to);
    lemma_open(occupied, from, to);
    if geometry::rook_reaches(occupied, from, to) {
        lemma_line(from, to);
        assert(slides(occupied, from, to, up, right, k));
    }
    if exists|up: int, right: int, k: int|
        (up == 0 || right == 0) && #[trigger] slides(occupied, from, to, up, right, k) {
        let (u, r, n) = choose|u: int, r: int, n: int|
            (u == 0 || r == 0) && #[trigger] slides(occupied, from, to, u, r, n);
        lemma_way(from, to, u, r, n);
    }
}

/// A bishop goes along diagonals until it meets a piece.
proof fn lemma_bishops_slide(occupied: u64, from: int, to: int)
    requires
        squares::on_board(from),
        squares::on_board(to),
    ensures
        geometry::bishop_reaches(occupied, from, to) <==> exists|up: int, right: int, k: int|
            up != 0 && right != 0 && #[trigger] slides(occupied, from, to, up, right, k),
{
    let up = geometry::direction(geometry::ranks_up(from, to));
    let right = geometry::direction(geometry::files_right(from, to));
    let k = geometry::steps(from, to);
    lemma_open(occupied, from, to);
    if geometry::bishop_reaches(occupied, from, to) {
        lemma_line(from, to);
        assert(slides(occupied, from, to, up, right, k));
    }
    if exists|up: int, right: int, k: int|
        up != 0 && right != 0 && #[trigger] slides(occupied, from, to, up, right, k) {
        let (u, r, n) = choose|u: int, r: int, n: int|
            u != 0 && r != 0 && #[trigger] slides(occupied, from, to, u, r, n);
        lemma_way(from, to, u, r, n);
    }
}

/// A jump leads to the square so many ranks up and files to the right.
proof fn lemma_jumps(from: int, to: int)
    requires
        squares::on_board(from),
        squares::on_board(to),
    ensures
        forall|up: int, right: int| #[trigger] jumps(from, to, up, right) <==> up
            == geometry::ranks_up(from, to) && right == geometry::files_right(from, to),
{
    assert forall|up: int, right: int| #[trigger] jumps(from, to, up, right) <==> up
        == geometry::ranks_up(from, to) && right == geometry::files_right(from, to) by {
        if jumps(from, to, up, right) {
            mirrored::lemma_square_at(
                squares::rank_of(from) + up,
                squares::file_of(from) + right,
            );
        }
    }
}

/// A man attacks exactly the squares that it can strike at by the rules of chess.
pub proof fn men_attack_as_they_strike(
    piece: Piece,
    color: Color,
    occupied: u64,
    from: int,
    to: int,
)
    requires
        squares::on_board(from),
        squares::on_board(to),
    ensures
        geometry::attacks(piece, color, occupied, from, to) == strikes(
            piece,
            color,
            occupied,
            from,
            to,
        ),
{
    let up = geometry::ranks_up(from, to);
    let right = geometry::files_right(from, to);
    lemma_rooks_slide(occupied, from, to);
    lemma_bishops_slide(occupied, from, to);
    lemma_jumps(from, to);
    match piece {
        Piece::Pawn => {
            let forward = if color == Color::White {
                1int
            } else {
                -1
            };
            if geometry::pawn_captures(color, from, to) {
                assert(jumps(from, to, forward, right));
            }
        },
        Piece::Knight => {
            if geometry::knight_reaches(from, to) {
                assert(jumps(from, to, up, right));
            }
        },
        Piece::Queen => {
            if strikes(piece, color, occupied, from, to) {
                let (u, r, n) = choose|u: int, r: int, n: int| #[trigger]
                    slides(occupied, from, to, u, r, n);
                assert(slides(occupied, from, to, u, r, n));
            }
        },
        Piece::King => {
            if geometry::king_reaches(from, to) {
                lemma_line(from, to);
                assert(slides(
                    occupied,
                    from,
                    to,
                    geometry::direction(up),
                    geometry::direction(right),
                    1,
                ));
            }
            if strikes(piece, color, occupied, from, to) {
                let (u, r) = choose|u: int, r: int| #[trigger] slides(occupied, from, to, u, r, 1);
                lemma_way(from, to, u, r, 1);
            }
        },
        _ => {},
    }
}

/// A pawn looks at the square ahead of it, and from its first rank at the one after that if
/// nothing stands between.
pub open spec fn looks_ahead(occupied: u64, color: Color, from: int, to: int) -> bool {
    match color {
        Color::White => {
            ||| from < 56 && to == from + 8
            ||| 8 <= from < 16 && to == from + 16 && !bitboard::holds(occupied, from + 8)
        },
        Color::Black => {
            ||| 8 <= from && to == from - 8
            ||| 48 <= from < 56 && to == from - 16 && !bitboard::holds(occupied, from - 8)
        },
    }
}

/// The man on `from` is the player's. A square that both colours hold is white's.
pub open spec fn is_own_man(position: Position, player: Color, from: int) -> bool {
    &&& bitboard::holds(position.occupied, from)
    &&& match player {
        Color::White => bitboard::holds(position.white, from),
        Color::Black => bitboard::holds(position.black, from) && !bitboard::holds(
            position.white,
            from,
        ),
    }
}

/// The player's man on `from` lets the player see `to`: it stands there, it can strike at it, or
/// it is a pawn and looks at it ahead.
pub open spec fn man_sees(position: Position, player: Color, from: int, to: int) -> bool {
    &&& is_own_man(position, player, from)
    &&& position.piece_at(from) matches Some(piece)
    &&& {
        ||| to == from
        ||| strikes(piece, player, position.occupied, from, to)
        ||| piece == Piece::Pawn && looks_ahead(position.occupied, player, from, to)
    }
}

/// A player sees a square exactly where one of the player's men sees it.
pub proof fn players_see_what_their_men_see(position: Position, player: Color, to: int)
    requires
        squares::on_board(to),
    ensures
        visibility::visible(position, player, to) <==> exists|from: int|
            squares::on_board(from) && #[trigger] man_sees(position, player, from, to),
{
    assert forall|from: int| squares::on_board(from) implies visibility::shows(
        position,
        player,
        from,
        to,
    ) == #[trigger] man_sees(position, player, from, to) by {
        if let Some(piece) = position.piece_at(from) {
            men_attack_as_they_strike(piece, player, position.occupied, from, to);
        }
    }
    if visibility::visible(position, player, to) {
        let from = choose|from: int|
            squares::on_board(from) && #[trigger] visibility::shows(position, player, from, to);
        assert(man_sees(position, player, from, to));
    }
    if exists|from: int|
        squares::on_board(from) && #[trigger] man_sees(position, player, from, to) {
        let from = choose|from: int|
            squares::on_board(from) && #[trigger] man_sees(position, player, from, to);
        assert(visibility::shows(position, player, from, to));
    }
}

/// Rooks, bishops and queens see to the end of every open line, and with it the first piece that
/// ends it.
pub proof fn open_lines_are_seen(
    position: Position,
    player: Color,
    from: int,
    up: int,
    right: int,
    k: int,
)
    requires
        squares::on_board(from),
        is_own_man(position, player, from),
        -1 <= up <= 1,
        -1 <= right <= 1,
        up != 0 || right != 0,
        0 < k,
        stays(from, up, right, k),
        open_way(position.occupied, from, up, right, k),
        position.piece_at(from) == Some(Piece::Queen) || (up == 0 || right == 0)
            && position.piece_at(from) == Some(Piece::Rook) || up != 0 && right != 0
            && position.piece_at(from) == Some(Piece::Bishop),
    ensures
        visibility::visible(position, player, way(from, up, right, k)),
{
    let to = way(from, up, right, k);
    lemma_way(from, to, up, right, k);
    assert(slides(position.occupied, from, to, up, right, k));
    assert(man_sees(position, player, from, to));
    players_see_what_their_men_see(position, player, to);
}

/// A straight or slanted way leads from `a` in `k` steps to `b`, and in `j` steps, forward or
/// back, to the square.
pub open spec fn leads(a: int, b: int, square: int, up: int, right: int, k: int, j: int) -> bool {
    &&& -1 <= up <= 1
    &&& -1 <= right <= 1
    &&& up != 0 || right != 0
    &&& 0 < k
    &&& stays(a, up, right, k)
    &&& b == way(a, up, right, k)
    &&& stays(a, up, right, j)
    &&& square == way(a, up, right, j)
}

/// A square lies between two others exactly where a way from one to the other passes over it.
pub proof fn ways_pass_over_what_lies_between(a: int, b: int, square: int)
    requires
        squares::on_board(a),
        squares::on_board(b),
        squares::on_board(square),
    ensures
        geometry::between(a, b, square) <==> exists|up: int, right: int, k: int, j: int|
            0 < j < k && #[trigger] leads(a, b, square, up, right, k, j),
        geometry::on_line(a, b, square) <==> exists|up: int, right: int, k: int, j: int| #[trigger]
            leads(a, b, square, up, right, k, j),
{
    if geometry::on_line(a, b, square) {
        let up = geometry::direction(geometry::ranks_up(a, b));
        let right = geometry::direction(geometry::files_right(a, b));
        let k = geometry::steps(a, b);
        let j = if up != 0 {
            if geometry::direction(geometry::ranks_up(a, square)) == up {
                geometry::steps(a, square)
            } else {
                -geometry::steps(a, square)
            }
        } else if geometry::direction(geometry::files_right(a, square)) == right {
            geometry::steps(a, square)
        } else {
            -geometry::steps(a, square)
        };
        lemma_line(a, b);
        mirrored::lemma_scaled(k, up);
        mirrored::lemma_scaled(k, right);
        mirrored::lemma_scaled(j, up);
        mirrored::lemma_scaled(j, right);
        assert(leads(a, b, square, up, right, k, j));
    }
    assert forall|up: int, right: int, k: int, j: int| #[trigger]
        leads(a, b, square, up, right, k, j) implies geometry::on_line(a, b, square) && (
    geometry::between(a, b, square) <==> 0 < j < k) by {
        lemma_way(a, b, up, right, k);
        mirrored::lemma_scaled(k, up);
        mirrored::lemma_scaled(k, right);
        mirrored::lemma_scaled(j, up);
        mirrored::lemma_scaled(j, right);
        mirrored::lemma_square_at(
            squares::rank_of(a) + j * up,
            squares::file_of(a) + j * right,
        );
    }
}

} // verus!

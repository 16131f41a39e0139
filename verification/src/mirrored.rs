//! The two players are alike: what one sees, encodes and numbers, the other does in the mirrored
//! situation.

use vstd::prelude::*;
use crate::{actions, bitboard, encoding, geometry, pieces, squares, visibility};
use crate::memory::Recollection;
use crate::pieces::{Color, Piece, SeenPiece};
use crate::position::Position;

verus! {

/// One set of squares holds the mirror images of the other.
pub open spec fn mirrored_masks(a: u64, b: u64) -> bool {
    forall|square: int| #![trigger bitboard::holds(a, square)]
        squares::on_board(square) ==> bitboard::holds(b, squares::mirror(square))
            == bitboard::holds(a, square)
}

/// No occupied square belongs to both colours.
pub open spec fn colors_apart(position: Position) -> bool {
    forall|square: int| #![trigger bitboard::holds(position.white, square)]
        squares::on_board(square) && bitboard::holds(position.occupied, square) ==> !(
        bitboard::holds(position.white, square) && bitboard::holds(position.black, square))
}

/// One position is the other with the ranks counted from the other side and the colours swapped.
pub open spec fn mirrored_positions(a: Position, b: Position) -> bool {
    &&& mirrored_masks(a.pawns, b.pawns)
    &&& mirrored_masks(a.knights, b.knights)
    &&& mirrored_masks(a.bishops, b.bishops)
    &&& mirrored_masks(a.rooks, b.rooks)
    &&& mirrored_masks(a.queens, b.queens)
    &&& mirrored_masks(a.kings, b.kings)
    &&& mirrored_masks(a.occupied, b.occupied)
    &&& mirrored_masks(a.white, b.black)
    &&& mirrored_masks(a.black, b.white)
    &&& b.side_to_move == pieces::other(a.side_to_move)
    &&& b.white_castling == a.black_castling
    &&& b.black_castling == a.white_castling
}

/// A piece seen, with its colour swapped.
pub open spec fn swapped(seen: Option<SeenPiece>) -> Option<SeenPiece> {
    match seen {
        Some(seen) => Some(SeenPiece { piece: seen.piece, color: pieces::other(seen.color) }),
        None => None,
    }
}

/// One player remembers the mirror image of what the other remembers.
pub open spec fn mirrored_memories(a: Recollection, b: Recollection) -> bool {
    forall|square: int| #![trigger squares::mirror(square)]
        squares::on_board(square) ==> {
            &&& b.pieces[squares::mirror(square)] == swapped(a.pieces[square])
            &&& b.delta_t[squares::mirror(square)] == a.delta_t[square]
        }
}

pub proof fn lemma_mirrored_pieces(a: Position, b: Position, square: int)
    requires
        mirrored_positions(a, b),
        colors_apart(a),
        squares::on_board(square),
    ensures
        b.piece_at(squares::mirror(square)) == a.piece_at(square),
        a.piece_at(square) is Some ==> b.color_at(squares::mirror(square)) == match a.color_at(
            square,
        ) {
            Some(color) => Some(pieces::other(color)),
            None => None,
        },
{
    let there = squares::mirror(square);
    squares::mirror_is_an_involution(square);
    bitboard::lemma_xor(a.pawns, a.knights, square);
    bitboard::lemma_xor(a.pawns ^ a.knights, a.bishops, square);
    bitboard::lemma_xor(b.pawns, b.knights, there);
    bitboard::lemma_xor(b.pawns ^ b.knights, b.bishops, there);
    assert(bitboard::holds(a.pawns, square) == bitboard::holds(b.pawns, there));
    assert(bitboard::holds(a.knights, square) == bitboard::holds(b.knights, there));
    assert(bitboard::holds(a.bishops, square) == bitboard::holds(b.bishops, there));
    assert(bitboard::holds(a.rooks, square) == bitboard::holds(b.rooks, there));
    assert(bitboard::holds(a.queens, square) == bitboard::holds(b.queens, there));
    assert(bitboard::holds(a.occupied, square) == bitboard::holds(b.occupied, there));
    assert(bitboard::holds(a.white, square) == bitboard::holds(b.black, there));
    assert(bitboard::holds(a.black, square) == bitboard::holds(b.white, there));
}

proof fn lemma_mirrored_offsets(from: int, to: int)
    requires
        squares::on_board(from),
        squares::on_board(to),
    ensures
        geometry::ranks_up(squares::mirror(from), squares::mirror(to)) == -geometry::ranks_up(
            from,
            to,
        ),
        geometry::files_right(squares::mirror(from), squares::mirror(to)) == geometry::files_right(
            from,
            to,
        ),
        squares::mirror(from) == squares::mirror(to) <==> from == to,
{
    squares::mirror_is_an_involution(from);
    squares::mirror_is_an_involution(to);
}

/// The squares between two squares on one line lie on the board, and mirroring takes them to the
/// squares between the mirror images.
proof fn lemma_mirrored_path(from: int, to: int, k: int)
    requires
        squares::on_board(from),
        squares::on_board(to),
        geometry::ranks_up(from, to) == 0 || geometry::files_right(from, to) == 0
            || geometry::magnitude(geometry::ranks_up(from, to)) == geometry::magnitude(
            geometry::files_right(from, to),
        ),
        0 < k < geometry::steps(from, to),
    ensures
        squares::on_board(geometry::towards(from, to, k)),
        geometry::towards(squares::mirror(from), squares::mirror(to), k) == squares::mirror(
            geometry::towards(from, to, k),
        ),
{
    let up = geometry::direction(geometry::ranks_up(from, to));
    let right = geometry::direction(geometry::files_right(from, to));
    let rank = squares::rank_of(from) + k * up;
    let file = squares::file_of(from) + k * right;
    lemma_scaled(k, up);
    lemma_scaled(k, right);
    lemma_scaled(k, -up);
    lemma_mirrored_offsets(from, to);
    squares::mirror_is_an_involution(from);
    lemma_square_at(rank, file);
}

/// A multiple of a direction.
pub proof fn lemma_scaled(k: int, way: int)
    requires
        way == -1 || way == 0 || way == 1,
    ensures
        k * way == if way == 0 {
            0
        } else if way == 1 {
            k
        } else {
            -k
        },
{
    assert(k * 0 == 0 && k * 1 == k && k * (-1) == -k) by (nonlinear_arith);
}

/// A rank and a file make a square, whose mirror image has the rank from the other side.
pub proof fn lemma_square_at(rank: int, file: int)
    requires
        0 <= rank < 8,
        0 <= file < 8,
    ensures
        squares::on_board(rank * 8 + file),
        squares::rank_of(rank * 8 + file) == rank,
        squares::file_of(rank * 8 + file) == file,
        squares::mirror(rank * 8 + file) == (7 - rank) * 8 + file,
{
}

proof fn lemma_mirrored_clearance(a: u64, b: u64, from: int, to: int)
    requires
        mirrored_masks(a, b),
        squares::on_board(from),
        squares::on_board(to),
        geometry::ranks_up(from, to) == 0 || geometry::files_right(from, to) == 0
            || geometry::magnitude(geometry::ranks_up(from, to)) == geometry::magnitude(
            geometry::files_right(from, to),
        ),
    ensures
        geometry::path_is_clear(b, squares::mirror(from), squares::mirror(to))
            == geometry::path_is_clear(a, from, to),
{
    let from2 = squares::mirror(from);
    let to2 = squares::mirror(to);
    lemma_mirrored_offsets(from, to);
    assert(geometry::steps(from2, to2) == geometry::steps(from, to));
    assert forall|k: int| 0 < k < geometry::steps(from, to) implies bitboard::holds(
        b,
        #[trigger] geometry::towards(from2, to2, k),
    ) == bitboard::holds(a, geometry::towards(from, to, k)) by {
        lemma_mirrored_path(from, to, k);
        let between = geometry::towards(from, to, k);
        assert(bitboard::holds(b, squares::mirror(between)) == bitboard::holds(a, between));
    }
    if geometry::path_is_clear(a, from, to) {
        assert forall|k: int| 0 < k < geometry::steps(from2, to2) implies !bitboard::holds(
            b,
            #[trigger] geometry::towards(from2, to2, k),
        ) by {
            assert(!bitboard::holds(a, geometry::towards(from, to, k)));
        }
    }
    if geometry::path_is_clear(b, from2, to2) {
        assert forall|k: int| 0 < k < geometry::steps(from, to) implies !bitboard::holds(
            a,
            #[trigger] geometry::towards(from, to, k),
        ) by {
            assert(!bitboard::holds(b, geometry::towards(from2, to2, k)));
        }
    }
}

proof fn lemma_mirrored_attacks(
    a: u64,
    b: u64,
    piece: Piece,
    color: Color,
    from: int,
    to: int,
)
    requires
        mirrored_masks(a, b),
        squares::on_board(from),
        squares::on_board(to),
    ensures
        geometry::attacks(
            piece,
            pieces::other(color),
            b,
            squares::mirror(from),
            squares::mirror(to),
        ) == geometry::attacks(piece, color, a, from, to),
{
    lemma_mirrored_offsets(from, to);
    if geometry::ranks_up(from, to) == 0 || geometry::files_right(from, to) == 0
        || geometry::magnitude(geometry::ranks_up(from, to)) == geometry::magnitude(
        geometry::files_right(from, to),
    ) {
        lemma_mirrored_clearance(a, b, from, to);
    }
}

proof fn lemma_mirrored_looks_ahead(a: Position, b: Position, player: Color, from: int, to: int)
    requires
        mirrored_positions(a, b),
        colors_apart(a),
        squares::on_board(from),
        squares::on_board(to),
    ensures
        visibility::pawn_looks_ahead(
            b,
            pieces::other(player),
            squares::mirror(from),
            squares::mirror(to),
        ) == visibility::pawn_looks_ahead(a, player, from, to),
{
    let next = from + 8 * geometry::forward(player);
    let after = from + 16 * geometry::forward(player);
    lemma_mirrored_steps(from, to, geometry::forward(player));
    if squares::on_board(next) {
        lemma_mirrored_pieces(a, b, next);
    }
}

/// Steps along a file are mirrored.
proof fn lemma_mirrored_steps(from: int, to: int, way: int)
    requires
        squares::on_board(from),
        squares::on_board(to),
        way == 1 || way == -1,
    ensures
        squares::on_board(from + 8 * way) == squares::on_board(squares::mirror(from) - 8 * way),
        squares::on_board(from + 16 * way) == squares::on_board(squares::mirror(from) - 16 * way),
        squares::on_board(from + 8 * way) ==> squares::mirror(from + 8 * way) == squares::mirror(
            from,
        ) - 8 * way,
        to == from + 8 * way <==> squares::mirror(to) == squares::mirror(from) - 8 * way,
        to == from + 16 * way <==> squares::mirror(to) == squares::mirror(from) - 16 * way,
        squares::rank_of(squares::mirror(from)) == 7 - squares::rank_of(from),
{
    let rank = squares::rank_of(from);
    let file = squares::file_of(from);
    let to_rank = squares::rank_of(to);
    let to_file = squares::file_of(to);
    assert(from == rank * 8 + file && 0 <= rank < 8 && 0 <= file < 8);
    assert(to == to_rank * 8 + to_file && 0 <= to_rank < 8 && 0 <= to_file < 8);
    assert(squares::mirror(from) == 56 - rank * 8 + file);
    assert(squares::mirror(to) == 56 - to_rank * 8 + to_file);
    squares::mirror_is_an_involution(from);
    if way == 1 {
        if rank + 1 < 8 {
            lemma_square_at(rank + 1, file);
        }
    } else {
        if rank - 1 >= 0 {
            lemma_square_at(rank - 1, file);
        }
    }
}

proof fn lemma_mirrored_shows(a: Position, b: Position, player: Color, from: int, to: int)
    requires
        mirrored_positions(a, b),
        colors_apart(a),
        squares::on_board(from),
        squares::on_board(to),
    ensures
        visibility::shows(b, pieces::other(player), squares::mirror(from), squares::mirror(to))
            == visibility::shows(a, player, from, to),
{
    lemma_mirrored_pieces(a, b, from);
    lemma_mirrored_offsets(from, to);
    lemma_mirrored_looks_ahead(a, b, player, from, to);
    if let Some(piece) = a.piece_at(from) {
        lemma_mirrored_attacks(a.occupied, b.occupied, piece, player, from, to);
    }
}

/// A player sees a square exactly where the other one sees its mirror image in the mirrored
/// position.
pub proof fn sight_is_mirrored(a: Position, b: Position, player: Color, square: int)
    requires
        mirrored_positions(a, b),
        colors_apart(a),
        squares::on_board(square),
    ensures
        visibility::visible(b, pieces::other(player), squares::mirror(square))
            == visibility::visible(a, player, square),
{
    let there = squares::mirror(square);
    let rival = pieces::other(player);
    if visibility::visible(a, player, square) {
        let from = choose|from: int|
            squares::on_board(from) && #[trigger] visibility::shows(a, player, from, square);
        squares::mirror_is_an_involution(from);
        lemma_mirrored_shows(a, b, player, from, square);
        assert(visibility::shows(b, rival, squares::mirror(from), there));
    }
    if visibility::visible(b, rival, there) {
        let from = choose|from: int|
            squares::on_board(from) && #[trigger] visibility::shows(b, rival, from, there);
        squares::mirror_is_an_involution(from);
        lemma_mirrored_shows(a, b, player, squares::mirror(from), square);
        assert(visibility::shows(a, player, squares::mirror(from), square));
    }
}

proof fn lemma_mirrored_size(a: u64, b: u64)
    requires
        mirrored_masks(a, b),
    ensures
        bitboard::size(b) == bitboard::size(a),
{
    let x = bitboard::squares_of(a);
    let y = bitboard::squares_of(b);
    let f = |square: int| squares::mirror(square);
    bitboard::lemma_size(a);
    assert forall|s: int, t: int| x.contains(s) && x.contains(t) && #[trigger] f(s)
        == #[trigger] f(t) implies s == t by {
        squares::mirror_is_an_involution(s);
        squares::mirror_is_an_involution(t);
    }
    assert forall|square: int| x.map(f).contains(square) == y.contains(square) by {
        if x.map(f).contains(square) {
            let s = choose|s: int| x.contains(s) && f(s) == square;
            squares::mirror_is_an_involution(s);
            assert(bitboard::holds(b, squares::mirror(s)) == bitboard::holds(a, s));
        }
        if y.contains(square) {
            squares::mirror_is_an_involution(square);
            let s = squares::mirror(square);
            assert(bitboard::holds(b, squares::mirror(s)) == bitboard::holds(a, s));
            assert(x.contains(s) && f(s) == square);
        }
    }
    assert(x.map(f) =~= y);
    vstd::set_lib::lemma_map_size(x, y, f);
}

proof fn lemma_mirrored_count(a: Position, b: Position, piece: Piece, color: Color)
    requires
        mirrored_positions(a, b),
    ensures
        b.count(piece, pieces::other(color)) == a.count(piece, color),
{
    let x = a.pieces(piece) & a.men(color);
    let y = b.pieces(piece) & b.men(pieces::other(color));
    assert(mirrored_masks(a.pieces(piece), b.pieces(piece)));
    assert(mirrored_masks(a.men(color), b.men(pieces::other(color))));
    assert forall|square: int| #![trigger squares::mirror(square)]
        squares::on_board(square) implies bitboard::holds(y, squares::mirror(square))
        == bitboard::holds(x, square) by {
        squares::mirror_is_an_involution(square);
        bitboard::lemma_and(a.pieces(piece), a.men(color), square);
        bitboard::lemma_and(
            b.pieces(piece),
            b.men(pieces::other(color)),
            squares::mirror(square),
        );
    }
    assert(mirrored_masks(x, y)) by {
        assert forall|square: int| #![trigger bitboard::holds(x, square)]
            squares::on_board(square) implies bitboard::holds(y, squares::mirror(square))
            == bitboard::holds(x, square) by {}
    }
    lemma_mirrored_size(x, y);
}

/// The two players encode mirrored situations alike: a network need not know which colour it
/// plays.
pub proof fn encodings_are_mirrored(
    a: Position,
    b: Position,
    memory_a: Recollection,
    memory_b: Recollection,
    oracle: bool,
)
    requires
        mirrored_positions(a, b),
        colors_apart(a),
        mirrored_memories(memory_a, memory_b),
    ensures
        encoding::features(a, memory_a, oracle) == encoding::features(b, memory_b, oracle),
{
    let player = a.side_to_move;
    assert forall|i: int| 0 <= i < 2240 implies encoding::features(a, memory_a, oracle)[i]
        == encoding::features(b, memory_b, oracle)[i] by {
        let row = i / 35;
        let channel = i % 35;
        let square = actions::own_view(player, row);
        squares::mirror_is_an_involution(row);
        assert(actions::own_view(b.side_to_move, row) == squares::mirror(square));
        sight_is_mirrored(a, b, player, square);
        lemma_mirrored_pieces(a, b, square);
        lemma_mirrored_count(
            a,
            b,
            encoding::counted_piece(channel - 30),
            pieces::other(player),
        );
    }
    assert(encoding::features(a, memory_a, oracle) =~= encoding::features(b, memory_b, oracle));
}

/// Two players who look at mirrored boards with mirrored memories remember mirror images.
pub proof fn looking_is_mirrored(
    a: Position,
    b: Position,
    memory_a: Recollection,
    memory_b: Recollection,
    player: Color,
)
    requires
        mirrored_positions(a, b),
        colors_apart(a),
        mirrored_memories(memory_a, memory_b),
    ensures
        mirrored_memories(
            memory_a.after_looking(a, player),
            memory_b.after_looking(b, pieces::other(player)),
        ),
{
    let later_a = memory_a.after_looking(a, player);
    let later_b = memory_b.after_looking(b, pieces::other(player));
    assert forall|square: int| #![trigger squares::mirror(square)]
        squares::on_board(square) implies {
        &&& later_b.pieces[squares::mirror(square)] == swapped(later_a.pieces[square])
        &&& later_b.delta_t[squares::mirror(square)] == later_a.delta_t[square]
    } by {
        squares::mirror_is_an_involution(square);
        sight_is_mirrored(a, b, player, square);
        lemma_mirrored_pieces(a, b, square);
    }
}

} // verus!

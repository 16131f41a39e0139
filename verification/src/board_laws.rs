//! What the board shows, told from its masks.

use vstd::prelude::*;
use crate::{bitboard, encoding, mirrored, pieces, squares};
use crate::actions::ChessMove;
use crate::pieces::{Color, Piece, SeenPiece};
use crate::position::Position;

verus! {

/// The mask of one square holds that square and no other.
pub proof fn a_square_holds_itself(square: int, other: int)
    requires
        squares::on_board(square),
        squares::on_board(other),
    ensures
        bitboard::holds(1u64 << square, other) == (square == other),
        !bitboard::holds(0, other),
{
    let s: u64 = square as u64;
    let t: u64 = other as u64;
    assert(((1u64 << s) & (1u64 << t) != 0) == (s == t)) by (bit_vector)
        requires
            s < 64,
            t < 64,
    ;
    assert(0u64 & (1u64 << t) == 0) by (bit_vector);
}

/// The empty set has no squares, and each square put into a set that lacks it makes it larger by
/// one.
pub proof fn sizes_count_squares(mask: u64, square: int)
    requires
        squares::on_board(square),
        !bitboard::holds(mask, square),
    ensures
        bitboard::size(0) == 0,
        bitboard::size(mask | (1u64 << square)) == bitboard::size(mask) + 1,
{
    assert forall|s: int| !bitboard::squares_of(0).contains(s) by {
        if squares::on_board(s) {
            a_square_holds_itself(square, s);
        }
    }
    assert(bitboard::squares_of(0) =~= Set::empty());
    bitboard::lemma_size(mask);
    assert forall|s: int| bitboard::squares_of(mask | (1u64 << square)).contains(s)
        == bitboard::squares_of(mask).insert(square).contains(s) by {
        if squares::on_board(s) {
            a_square_holds_itself(square, s);
            bitboard::lemma_or(mask, 1u64 << square, s);
        }
    }
    assert(bitboard::squares_of(mask | (1u64 << square)) =~= bitboard::squares_of(mask).insert(
        square,
    ));
}

/// Which of the masks of the six kinds hold a square.
pub open spec fn kinds_at(position: Position, square: int) -> (bool, bool, bool, bool, bool, bool) {
    (
        bitboard::holds(position.pawns, square),
        bitboard::holds(position.knights, square),
        bitboard::holds(position.bishops, square),
        bitboard::holds(position.rooks, square),
        bitboard::holds(position.queens, square),
        bitboard::holds(position.kings, square),
    )
}

/// A man of one kind, and of no other, is on the square.
pub open spec fn alone(position: Position, piece: Piece, square: int) -> bool {
    &&& bitboard::holds(position.occupied, square)
    &&& kinds_at(position, square) == match piece {
        Piece::Pawn => (true, false, false, false, false, false),
        Piece::Knight => (false, true, false, false, false, false),
        Piece::Bishop => (false, false, true, false, false, false),
        Piece::Rook => (false, false, false, true, false, false),
        Piece::Queen => (false, false, false, false, true, false),
        Piece::King => (false, false, false, false, false, true),
    }
}

/// A board reports no piece exactly on squares that are not occupied, and elsewhere the kind whose
/// mask holds the square where there is one such kind. Where masks overlap, a pawn, a knight or a
/// bishop is reported where an odd number of those three hold the square, and a rook, a queen or a
/// king elsewhere, the first that holds it.
pub proof fn pieces_are_where_their_masks_are(position: Position, piece: Piece, square: int)
    requires
        squares::on_board(square),
    ensures
        position.piece_at(square) is None <==> !bitboard::holds(position.occupied, square),
        alone(position, piece, square) ==> position.piece_at(square) == Some(piece),
        ({
            let (pawn, knight, bishop, rook, queen, king) = kinds_at(position, square);
            let odd = (pawn != knight) != bishop;
            position.piece_at(square) matches Some(found) ==> {
                &&& found == Piece::Pawn <==> odd && pawn
                &&& found == Piece::Knight <==> odd && !pawn && knight
                &&& found == Piece::Bishop <==> odd && !pawn && !knight
                &&& found == Piece::Rook <==> !odd && rook
                &&& found == Piece::Queen <==> !odd && !rook && queen
                &&& found == Piece::King <==> !odd && !rook && !queen
            }
        }),
        position.pieces(Piece::Pawn) == position.pawns,
        position.pieces(Piece::Knight) == position.knights,
        position.pieces(Piece::Bishop) == position.bishops,
        position.pieces(Piece::Rook) == position.rooks,
        position.pieces(Piece::Queen) == position.queens,
        position.pieces(Piece::King) == position.kings,
{
    bitboard::lemma_xor(position.pawns, position.knights, square);
    bitboard::lemma_xor(position.pawns ^ position.knights, position.bishops, square);
}

/// A board reports the colour whose mask holds the square, white before black.
pub proof fn colors_are_where_their_masks_are(position: Position, square: int)
    requires
        squares::on_board(square),
    ensures
        position.color_at(square) == Some(Color::White) <==> bitboard::holds(
            position.white,
            square,
        ),
        position.color_at(square) == Some(Color::Black) <==> bitboard::holds(
            position.black,
            square,
        ) && !bitboard::holds(position.white, square),
        position.men(Color::White) == position.white,
        position.men(Color::Black) == position.black,
{
}

/// Somebody who sees a square sees the man whose kind and colour hold it, and nothing on a square
/// that is not occupied.
pub proof fn sight_shows_the_man(position: Position, piece: Piece, square: int)
    requires
        squares::on_board(square),
    ensures
        !bitboard::holds(position.occupied, square) ==> position.seen_at(square) is None,
        position.seen_at(square) is Some <==> position.piece_at(square) is Some
            && position.color_at(square) is Some,
        position.seen_at(square) matches Some(man) ==> Some(man.piece) == position.piece_at(square)
            && Some(man.color) == position.color_at(square),
        alone(position, piece, square) && bitboard::holds(position.white, square)
            ==> position.seen_at(square) == Some(SeenPiece { piece, color: Color::White }),
        alone(position, piece, square) && !bitboard::holds(position.white, square)
            && bitboard::holds(position.black, square) ==> position.seen_at(square) == Some(
            SeenPiece { piece, color: Color::Black },
        ),
        position.wf() ==> (position.seen_at(square) is Some <==> bitboard::holds(
            position.occupied,
            square,
        )),
{
    pieces_are_where_their_masks_are(position, piece, square);
    bitboard::lemma_xor(position.white, position.black, square);
}

/// The size of an entry of the board matrix.
pub open spec fn entry_size(piece: Piece) -> int {
    match piece {
        Piece::Pawn => 1,
        Piece::Knight => 2,
        Piece::Bishop => 3,
        Piece::Rook => 4,
        Piece::Queen => 5,
        Piece::King => 6,
    }
}

/// An entry of the board matrix is zero exactly where the square is not occupied, and negative
/// exactly where it is and only black holds it. Its size is that of the man on it. The first row
/// is the eighth rank.
pub proof fn matrices_show_the_board(
    matrix: Seq<Vec<i8>>,
    position: Position,
    piece: Piece,
    rank: int,
    file: int,
)
    requires
        crate::position::is_matrix_of(matrix, position),
        0 <= rank < 8,
        0 <= file < 8,
    ensures
        matrix.len() == 8,
        matrix[7 - rank]@.len() == 8,
        ({
            let entry = matrix[7 - rank]@[file];
            let square = rank * 8 + file;
            let occupied = bitboard::holds(position.occupied, square);
            let black = bitboard::holds(position.black, square) && !bitboard::holds(
                position.white,
                square,
            );
            &&& entry == 0 <==> !occupied
            &&& entry < 0 <==> occupied && black
            &&& entry > 0 <==> occupied && !black
            &&& alone(position, piece, square) || position.piece_at(square) == Some(piece)
                ==> entry == if black {
                -entry_size(piece)
            } else {
                entry_size(piece)
            }
        }),
{
    let square = rank * 8 + file;
    assert(matrix[7 - rank]@[file] == position.matrix_value((7 - (7 - rank)) * 8 + file));
    pieces_are_where_their_masks_are(position, piece, square);
}

/// The matrix of the mirrored position is the matrix upside down with its signs changed.
pub proof fn matrices_are_mirrored(
    a: Position,
    b: Position,
    of_a: Seq<Vec<i8>>,
    of_b: Seq<Vec<i8>>,
    row: int,
    file: int,
)
    requires
        mirrored::mirrored_positions(a, b),
        mirrored::colors_apart(a),
        a.wf(),
        crate::position::is_matrix_of(of_a, a),
        crate::position::is_matrix_of(of_b, b),
        0 <= row < 8,
        0 <= file < 8,
    ensures
        of_b[7 - row]@[file] == -of_a[row]@[file],
{
    let square = (7 - row) * 8 + file;
    mirrored::lemma_square_at(7 - row, file);
    mirrored::lemma_mirrored_pieces(a, b, square);
    bitboard::lemma_xor(a.white, a.black, square);
    assert(of_a[row]@[file] == a.matrix_value(square));
    assert(of_b[7 - row]@[file] == b.matrix_value((7 - (7 - row)) * 8 + file));
    assert((7 - (7 - row)) * 8 + file == squares::mirror(square));
}

/// The castling rights of a player are those of that player.
pub proof fn castling_rights_have_their_owner(position: Position)
    ensures
        position.castling(Color::White) == position.white_castling,
        position.castling(Color::Black) == position.black_castling,
{
}

/// A player has a king exactly where the masks of kings and of that player's men meet, and a
/// player whose king is gone has lost. Where both kings are gone, white has.
pub proof fn games_are_decided_by_kings(position: Position)
    ensures
        position.has_king(Color::White) <==> position.kings & position.white != 0,
        position.has_king(Color::Black) <==> position.kings & position.black != 0,
        position.kings & position.white == 0 ==> position.outcome(Color::White) == -1
            && position.outcome(Color::Black) == 1,
        position.kings & position.white != 0 && position.kings & position.black == 0
            ==> position.outcome(Color::White) == 1 && position.outcome(Color::Black) == -1,
        position.kings & position.white != 0 && position.kings & position.black != 0
            ==> position.outcome(Color::White) == 0 && position.outcome(Color::Black) == 0,
{
    lemma_kings(position, Color::White, position.white);
    lemma_kings(position, Color::Black, position.black);
}

proof fn lemma_kings(position: Position, player: Color, men: u64)
    requires
        men == position.men(player),
    ensures
        position.has_king(player) <==> position.kings & men != 0,
{
    let kings = position.kings & men;
    bitboard::lemma_nonempty(kings);
    if kings != 0 {
        let square = choose|square: int| 0 <= square < 64 && bitboard::holds(kings, square);
        bitboard::lemma_and(position.kings, men, square);
        assert(position.king_at(player, square));
    }
    if position.has_king(player) {
        let square = choose|square: int|
            squares::on_board(square) && #[trigger] position.king_at(player, square);
        bitboard::lemma_and(position.kings, men, square);
        assert(bitboard::holds(kings, square));
    }
}

/// The share of the opponent's pieces that is gone counts those that the masks show.
pub proof fn captures_are_counted(position: Position)
    ensures
        ({
            let white = |place: int| encoding::captured_share(position, Color::White, place);
            let black = |place: int| encoding::captured_share(position, Color::Black, place);
            &&& white(0).num == 8 - bitboard::size(position.pawns & position.black)
            &&& white(1).num == 2 - bitboard::size(position.knights & position.black)
            &&& white(2).num == 2 - bitboard::size(position.bishops & position.black)
            &&& white(3).num == 2 - bitboard::size(position.rooks & position.black)
            &&& white(4).num == 1 - bitboard::size(position.queens & position.black)
            &&& black(0).num == 8 - bitboard::size(position.pawns & position.white)
            &&& black(1).num == 2 - bitboard::size(position.knights & position.white)
            &&& black(2).num == 2 - bitboard::size(position.bishops & position.white)
            &&& black(3).num == 2 - bitboard::size(position.rooks & position.white)
            &&& black(4).num == 1 - bitboard::size(position.queens & position.white)
            &&& white(0).den == 8 && black(0).den == 8
            &&& white(1).den == 2 && black(1).den == 2
            &&& white(2).den == 2 && black(2).den == 2
            &&& white(3).den == 2 && black(3).den == 2
            &&& white(4).den == 1 && black(4).den == 1
        }),
{
    bitboard::lemma_size(position.pawns & position.black);
    bitboard::lemma_size(position.knights & position.black);
    bitboard::lemma_size(position.bishops & position.black);
    bitboard::lemma_size(position.rooks & position.black);
    bitboard::lemma_size(position.queens & position.black);
    bitboard::lemma_size(position.pawns & position.white);
    bitboard::lemma_size(position.knights & position.white);
    bitboard::lemma_size(position.bishops & position.white);
    bitboard::lemma_size(position.rooks & position.white);
    bitboard::lemma_size(position.queens & position.white);
}

/// Where the masks fit together, a move by a man to a square without an own man can be carried
/// out exactly where a king of the opponent's stands on another square than its destination.
pub proof fn moves_may_not_take_the_last_king(position: Position, action: ChessMove)
    requires
        position.tidy(),
        action.wf(),
        !bitboard::holds(
            position.men(position.side_to_move),
            action.dest.index as int,
        ),
        bitboard::holds(position.men(position.side_to_move), action.source.index as int),
    ensures
        position.playable(action) <==> exists|king: int|
            squares::on_board(king) && king != action.dest.index && #[trigger] position.king_at(
                pieces::other(position.side_to_move),
                king,
            ),
{
    let source = action.source.index as int;
    let dest = action.dest.index as int;
    let rival = pieces::other(position.side_to_move);
    let men = position.men(rival);
    let left = (position.kings ^ position.king_flips(action)) & (men ^ position.capture_flips(
        action,
    ));
    assert(bitboard::holds(position.occupied, source) && position.tidy_at(source));
    assert(bitboard::holds(position.occupied, dest) ==> position.tidy_at(dest));
    assert(position.tidy_at(dest));
    pieces_are_where_their_masks_are(position, Piece::King, source);
    pieces_are_where_their_masks_are(position, Piece::King, dest);
    assert forall|s: int| squares::on_board(s) implies #[trigger] bitboard::holds(left, s) == (s
        != dest && position.king_at(rival, s)) by {
        lemma_left(position, action, s);
    }
    bitboard::lemma_nonempty(left);
    if left != 0 {
        let king = choose|s: int| 0 <= s < 64 && bitboard::holds(left, s);
        assert(position.king_at(rival, king));
    }
    if exists|king: int|
        squares::on_board(king) && king != dest && #[trigger] position.king_at(rival, king) {
        let king = choose|king: int|
            squares::on_board(king) && king != dest && #[trigger] position.king_at(rival, king);
        assert(bitboard::holds(left, king));
    }
}

/// Where the kings of the opponent's are once a move has been carried out.
proof fn lemma_left(position: Position, action: ChessMove, s: int)
    requires
        position.tidy(),
        action.wf(),
        squares::on_board(s),
        bitboard::holds(position.occupied, action.source.index as int),
        !bitboard::holds(
            position.men(position.side_to_move),
            action.dest.index as int,
        ),
        bitboard::holds(position.men(position.side_to_move), action.source.index as int),
    ensures
        ({
            let rival = pieces::other(position.side_to_move);
            bitboard::holds(
                (position.kings ^ position.king_flips(action)) & (position.men(rival)
                    ^ position.capture_flips(action)),
                s,
            ) == (s != action.dest.index && position.king_at(rival, s))
        }),
{
    let source = action.source.index as int;
    let dest = action.dest.index as int;
    let rival = pieces::other(position.side_to_move);
    let men = position.men(rival);
    let flips = position.king_flips(action);
    let capture = position.capture_flips(action);
    let source_mask = crate::position::square_mask(action.source);
    let dest_mask = crate::position::square_mask(action.dest);
    assert(source_mask == 1u64 << source && dest_mask == 1u64 << dest);
    let moved = if position.piece_at(source) == Some(Piece::King) {
        source_mask ^ dest_mask
    } else {
        0
    };
    let taken = if position.piece_at(dest) == Some(Piece::King) {
        dest_mask
    } else {
        0
    };
    a_square_holds_itself(source, s);
    a_square_holds_itself(dest, s);
    bitboard::lemma_xor(source_mask, dest_mask, s);
    bitboard::lemma_xor(moved, taken, s);
    assert(flips == moved ^ taken);
    bitboard::lemma_xor(position.kings, flips, s);
    bitboard::lemma_xor(men, capture, s);
    bitboard::lemma_and(position.kings ^ flips, men ^ capture, s);
    assert(bitboard::holds(position.occupied, s) || !bitboard::holds(position.occupied, s));
    assert(position.tidy_at(s));
    assert(position.tidy_at(source));
}

/// A move can be carried out exactly where its source is occupied and the opponent has a king
/// afterwards: a king that leaves the source arrives at the destination, a king on the destination
/// is gone, and so is any man of the opponent's there. An own man that is taken counts as the
/// opponent's from then on.
pub proof fn moves_leave_the_opponent_a_king(position: Position, action: ChessMove)
    requires
        action.wf(),
    ensures
        position.playable(action) <==> bitboard::holds(
            position.occupied,
            action.source.index as int,
        ) && exists|s: int| squares::on_board(s) && #[trigger] king_after(position, action, s),
{
    let rivals = match position.side_to_move {
        Color::White => position.black,
        Color::Black => position.white,
    };
    let flips = position.king_flips(action);
    let capture = position.capture_flips(action);
    let left = (position.kings ^ flips) & (rivals ^ capture);
    let source_mask = crate::position::square_mask(action.source);
    let dest_mask = crate::position::square_mask(action.dest);
    let source = action.source.index as int;
    let dest = action.dest.index as int;
    assert(source_mask == 1u64 << source && dest_mask == 1u64 << dest);
    let moved = if position.piece_at(source) == Some(Piece::King) {
        source_mask ^ dest_mask
    } else {
        0
    };
    let taken = if position.piece_at(dest) == Some(Piece::King) {
        dest_mask
    } else {
        0
    };
    assert(flips == moved ^ taken);
    assert forall|s: int| squares::on_board(s) implies #[trigger] bitboard::holds(left, s)
        == king_after(position, action, s) by {
        a_square_holds_itself(source, s);
        a_square_holds_itself(dest, s);
        bitboard::lemma_xor(source_mask, dest_mask, s);
        bitboard::lemma_xor(moved, taken, s);
        bitboard::lemma_xor(position.kings, flips, s);
        bitboard::lemma_xor(rivals, capture, s);
        bitboard::lemma_and(position.kings ^ flips, rivals ^ capture, s);
    }
    bitboard::lemma_nonempty(left);
    if left != 0 {
        let s = choose|s: int| 0 <= s < 64 && bitboard::holds(left, s);
        assert(king_after(position, action, s));
    }
    if exists|s: int| squares::on_board(s) && #[trigger] king_after(position, action, s) {
        let s = choose|s: int| squares::on_board(s) && #[trigger] king_after(position, action, s);
        assert(bitboard::holds(left, s));
    }
}

/// After a move a king of the opponent's is on the square.
pub open spec fn king_after(position: Position, action: ChessMove, s: int) -> bool {
    let source = action.source.index as int;
    let dest = action.dest.index as int;
    let rival = match position.side_to_move {
        Color::White => bitboard::holds(position.black, s),
        Color::Black => bitboard::holds(position.white, s),
    };
    let leaves = position.piece_at(source) == Some(Piece::King) && s == source;
    let arrives = position.piece_at(source) == Some(Piece::King) && s == dest;
    let taken = position.piece_at(dest) == Some(Piece::King) && s == dest;
    let captured = bitboard::holds(position.occupied, dest) && s == dest;
    &&& bitboard::holds(position.kings, s) != ((leaves != arrives) != taken)
    &&& rival != captured
}

} // verus!

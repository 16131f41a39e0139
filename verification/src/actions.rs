//! Moves, their text in the UCI notation, and their numbers in the policy.

use vstd::prelude::*;
use crate::{pieces, squares};
use crate::pieces::{Color, Piece, promotion_index};
use crate::squares::{BOARD_SQUARES, Square, mirror_square, square_index};

verus! {

/// The first number given to promotions; the numbers below it are those of the other moves.
pub const PROMOTION_BASE: usize = 4096;

/// A move from one square to another, with the piece that a pawn becomes.
#[derive(Clone, Copy, PartialEq, Eq, Structural, Debug, Hash)]
pub struct ChessMove {
    pub source: Square,
    pub dest: Square,
    pub promotion: Option<Piece>,
}

impl ChessMove {
    /// Both squares lie on the board.
    pub open spec fn wf(self) -> bool {
        self.source.wf() && self.dest.wf()
    }
}

/// The file letter of a square.
pub open spec fn file_letter(square: Square) -> char {
    ('a' as int + squares::file_of(square.index as int)) as char
}

/// The rank digit of a square.
pub open spec fn rank_digit(square: Square) -> char {
    ('1' as int + squares::rank_of(square.index as int)) as char
}

/// The letter of a piece in the UCI notation.
pub open spec fn piece_letter(piece: Piece) -> char {
    match piece {
        Piece::Pawn => 'p',
        Piece::Knight => 'n',
        Piece::Bishop => 'b',
        Piece::Rook => 'r',
        Piece::Queen => 'q',
        Piece::King => 'k',
    }
}

/// The text of a move: the two squares, then the letter of the promotion piece.
pub open spec fn uci_text(action: ChessMove) -> Seq<char> {
    let squares = seq![
        file_letter(action.source),
        rank_digit(action.source),
        file_letter(action.dest),
        rank_digit(action.dest),
    ];
    match action.promotion {
        Some(piece) => squares.push(piece_letter(piece)),
        None => squares,
    }
}

/// The square that a file letter and a rank digit name.
pub open spec fn named_square(file: char, rank: char) -> Option<Square> {
    if 'a' <= file <= 'h' && '1' <= rank <= '8' {
        Some(Square { index: ((rank as int - '1' as int) * 8 + (file as int - 'a' as int)) as u8 })
    } else {
        None
    }
}

/// The promotion piece that a letter stands for in a move's text.
pub open spec fn promotion_letter(letter: char) -> Option<Piece> {
    if letter == 'q' {
        Some(Piece::Queen)
    } else if letter == 'r' {
        Some(Piece::Rook)
    } else if letter == 'n' {
        Some(Piece::Knight)
    } else if letter == 'b' {
        Some(Piece::Bishop)
    } else {
        None
    }
}

/// The move that a text stands for. Four characters name the two squares. A text of exactly five
/// bytes must end in a promotion letter; what follows the squares in a longer text is passed over.
pub open spec fn uci_move(text: Seq<char>) -> Option<ChessMove> {
    if text.len() < 4 {
        None
    } else {
        match (named_square(text[0], text[1]), named_square(text[2], text[3])) {
            (Some(source), Some(dest)) => if text.len() == 5 && (text[4] as int) < 128 {
                match promotion_letter(text[4]) {
                    Some(piece) => Some(ChessMove { source, dest, promotion: Some(piece) }),
                    None => None,
                }
            } else {
                Some(ChessMove { source, dest, promotion: None })
            },
            _ => None,
        }
    }
}

/// A square as the player to move counts it: the ranks start on that player's own side.
pub open spec fn own_view(mover: Color, square: int) -> int {
    match mover {
        Color::White => square,
        Color::Black => squares::mirror(square),
    }
}

/// The number of a move for the player who makes it. A move that is no promotion is numbered by
/// its two squares, a promotion by its source and its piece. `None` where a pawn would become a
/// pawn or a king.
pub open spec fn action_number(mover: Color, action: ChessMove) -> Option<int> {
    let from = own_view(mover, action.source.index as int);
    let to = own_view(mover, action.dest.index as int);
    match action.promotion {
        None => Some(from * 64 + to),
        Some(piece) => match pieces::promotion_rank(piece) {
            Some(place) => Some(4096 + from * 4 + place),
            None => None,
        },
    }
}

/// What is said of a promotion to the given piece where none is possible.
pub open spec fn unsupported_promotion(piece: Piece) -> Seq<char> {
    match piece {
        Piece::Pawn => "Unsupported promotion piece: Pawn"@,
        Piece::Knight => "Unsupported promotion piece: Knight"@,
        Piece::Bishop => "Unsupported promotion piece: Bishop"@,
        Piece::Rook => "Unsupported promotion piece: Rook"@,
        Piece::Queen => "Unsupported promotion piece: Queen"@,
        Piece::King => "Unsupported promotion piece: King"@,
    }
}

/// Says that no pawn becomes the given piece.
fn unsupported_promotion_message(piece: Piece) -> (message: String)
    ensures
        message@ == unsupported_promotion(piece),
{
    match piece {
        Piece::Pawn => "Unsupported promotion piece: Pawn".to_owned(),
        Piece::Knight => "Unsupported promotion piece: Knight".to_owned(),
        Piece::Bishop => "Unsupported promotion piece: Bishop".to_owned(),
        Piece::Rook => "Unsupported promotion piece: Rook".to_owned(),
        Piece::Queen => "Unsupported promotion piece: Queen".to_owned(),
        Piece::King => "Unsupported promotion piece: King".to_owned(),
    }
}

/// Numbers a move for the player who makes it.
pub fn number_action(mover: Color, action: ChessMove) -> (number: Result<usize, String>)
    requires
        action.wf(),
    ensures
        match number {
            Ok(n) => action_number(mover, action) == Some(n as int),
            Err(message) => {
                &&& action_number(mover, action) is None
                &&& message@ == unsupported_promotion(action.promotion->0)
            },
        },
{
    let mut from_sq: Square = action.source;
    let mut to_sq: Square = action.dest;
    if mover == Color::Black {
        from_sq = mirror_square(from_sq);
        to_sq = mirror_square(to_sq);
    }
    if let Some(promotion) = action.promotion {
        return match promotion_index(promotion) {
            Some(place) => Ok(PROMOTION_BASE + square_index(from_sq) * 4 + place),
            None => Err(unsupported_promotion_message(promotion)),
        };
    }
    Ok(square_index(from_sq) * BOARD_SQUARES + square_index(to_sq))
}

/// A move's text stands for that move, whatever its squares, unless it makes a pawn a pawn or a
/// king.
pub proof fn uci_text_round_trip(action: ChessMove)
    requires
        action.wf(),
        action.promotion matches Some(piece) ==> pieces::promotion_rank(piece) is Some,
    ensures
        uci_move(uci_text(action)) == Some(action),
{
    let text = uci_text(action);
    assert(named_square(text[0], text[1]) == Some(action.source));
    assert(named_square(text[2], text[3]) == Some(action.dest));
}

/// Every number lies in the policy: 4096 pairs of squares, then four promotions for each source.
pub proof fn action_numbers_fit_the_policy(mover: Color, action: ChessMove)
    requires
        action.wf(),
        action_number(mover, action) is Some,
    ensures
        0 <= action_number(mover, action)->0 < 4352,
        action.promotion is None <==> action_number(mover, action)->0 < 4096,
{
}

/// Two moves of one player share a number only where they are one move, or promotions of a pawn
/// on one square to one piece: the number of a promotion does not tell where it goes.
pub proof fn action_numbers_tell_moves_apart(mover: Color, a: ChessMove, b: ChessMove)
    requires
        a.wf(),
        b.wf(),
        action_number(mover, a) is Some,
        action_number(mover, b) is Some,
    ensures
        action_number(mover, a) == action_number(mover, b) <==> {
            &&& a.source == b.source
            &&& a.promotion == b.promotion
            &&& a.promotion is None ==> a.dest == b.dest
        },
{
    squares::mirror_is_an_involution(a.source.index as int);
    squares::mirror_is_an_involution(b.source.index as int);
    squares::mirror_is_an_involution(a.dest.index as int);
    squares::mirror_is_an_involution(b.dest.index as int);
}

/// The two players number mirrored moves alike.
pub proof fn action_numbers_are_mirrored(action: ChessMove, mirrored: ChessMove)
    requires
        action.wf(),
        mirrored.wf(),
        mirrored.source.index == squares::mirror(action.source.index as int),
        mirrored.dest.index == squares::mirror(action.dest.index as int),
        mirrored.promotion == action.promotion,
    ensures
        action_number(Color::White, action) == action_number(Color::Black, mirrored),
{
    squares::mirror_is_an_involution(action.source.index as int);
    squares::mirror_is_an_involution(action.dest.index as int);
}

/// The number of a square as white counts, rank by rank from the first, or as black counts, from
/// the eighth.
pub open spec fn counted_from_home(mover: Color, square: Square) -> int {
    if mover == Color::White {
        square.index as int
    } else {
        (7 - square.index as int / 8) * 8 + square.index as int % 8
    }
}

/// The number of a move can be taken apart: divided by 64 it gives the source and leaves the
/// destination, as the mover counts squares. What the number of a promotion has over 4096, divided
/// by four, gives the source and leaves 0 for a queen, 1 for a rook, 2 for a bishop and 3 for a
/// knight. Only a pawn that would become a pawn or a king has no number.
pub proof fn action_numbers_can_be_taken_apart(mover: Color, action: ChessMove)
    requires
        action.wf(),
    ensures
        ({
            let number = action_number(mover, action);
            let from = counted_from_home(mover, action.source);
            let to = counted_from_home(mover, action.dest);
            match action.promotion {
                None => {
                    &&& number is Some
                    &&& number->0 / 64 == from
                    &&& number->0 % 64 == to
                },
                Some(piece) => {
                    &&& number is None <==> piece == Piece::Pawn || piece == Piece::King
                    &&& number matches Some(n) ==> {
                        &&& n >= 4096
                        &&& (n - 4096) / 4 == from
                        &&& (n - 4096) % 4 == 0 <==> piece == Piece::Queen
                        &&& (n - 4096) % 4 == 1 <==> piece == Piece::Rook
                        &&& (n - 4096) % 4 == 2 <==> piece == Piece::Bishop
                        &&& (n - 4096) % 4 == 3 <==> piece == Piece::Knight
                    }
                },
            }
        }),
{
    squares::mirror_is_an_involution(action.source.index as int);
    squares::mirror_is_an_involution(action.dest.index as int);
}

/// The text of a move names the file and the rank of its source, then those of its destination,
/// and the letter of the piece that a pawn becomes.
pub proof fn uci_texts_name_squares(action: ChessMove)
    requires
        action.wf(),
    ensures
        ({
            let text = uci_text(action);
            &&& text[0] as int - 'a' as int == action.source.index as int % 8
            &&& text[1] as int - '1' as int == action.source.index as int / 8
            &&& text[2] as int - 'a' as int == action.dest.index as int % 8
            &&& text[3] as int - '1' as int == action.dest.index as int / 8
            &&& action.promotion is None ==> text.len() == 4
            &&& action.promotion is Some ==> text.len() == 5
            &&& action.promotion == Some(Piece::Queen) ==> text[4] == 'q'
            &&& action.promotion == Some(Piece::Rook) ==> text[4] == 'r'
            &&& action.promotion == Some(Piece::Bishop) ==> text[4] == 'b'
            &&& action.promotion == Some(Piece::Knight) ==> text[4] == 'n'
        }),
{
}

} // verus!

//! The game as plain functions, and how it is held against another account of the same game.

use vstd::prelude::*;
use vstd::multiset::Multiset;
use crate::{actions, engine, pieces, tables};
use crate::actions::ChessMove;
use crate::encoding::Ratio;
use crate::game::{GameView, SelfPlayGame, texts_of};
use crate::pieces::Color;

verus! {

/// How many moves one input plays at most.
pub const MAX_STEPS: usize = 64;

/// A game on the usual board.
pub fn new_default_game() -> (game: SelfPlayGame)
    ensures
        game@ == GameView::opened(crate::position::initial_state()),
        game@.wf(),
        game@.board.lawful(),
{
    proof {
        crate::order::the_initial_board_is_lawful();
    }
    SelfPlayGame::new_internal(engine::default_board())
}

/// Carries out a move.
pub fn apply(game: &mut SelfPlayGame, action: ChessMove)
    requires
        action.wf(),
        old(game)@.board.position.playable(action),
    ensures
        final(game)@ == old(game)@.after(action),
        final(game)@.board == engine::state_after(old(game)@.board, action),
        final(game)@.wf(),
        final(game)@.mover() == pieces::other(old(game)@.mover()),
        old(game)@.board.lawful() && engine::legal_moves(old(game)@.board).contains(action)
            ==> final(game)@.board.lawful(),
{
    game.apply_internal(action);
}

/// The legal moves.
pub fn legal_actions(game: &SelfPlayGame) -> (moves: Vec<ChessMove>)
    requires
        game@.board.listable(),
    ensures
        moves@ == engine::legal_moves(game@.board),
        forall|i: int| #![trigger moves@[i]]
            0 <= i < moves@.len() ==> {
                &&& moves@[i].wf()
                &&& actions::action_number(game@.mover(), moves@[i]) is Some
                &&& game@.board.position.sane() ==> game@.board.position.playable(moves@[i])
            },
{
    game.legal_actions_internal()
}

/// The board as eight rows of numbers, the eighth rank first.
pub fn board_matrix(game: &SelfPlayGame) -> (matrix: Vec<Vec<i8>>)
    ensures
        crate::position::is_matrix_of(matrix@, game@.board.position),
{
    game.board_matrix()
}

/// Whether the player to move may still castle on the king's and on the queen's side.
pub fn castle_eligible(game: &SelfPlayGame) -> (sides: (bool, bool))
    ensures
        sides.0 == game@.board.position.castling(game@.mover()).kingside,
        sides.1 == game@.board.position.castling(game@.mover()).queenside,
{
    game.castle_eligible_internal()
}

/// The features of the game for the player to move.
pub fn encode_flat(game: &SelfPlayGame) -> (encoded: Vec<Ratio>)
    ensures
        encoded@ == game@.encoded(false),
{
    game.encode_flat()
}

/// The number of a move for the player to move.
pub fn action_index(game: &SelfPlayGame, action: ChessMove) -> (number: Result<usize, String>)
    requires
        action.wf(),
    ensures
        match number {
            Ok(n) => actions::action_number(game@.mover(), action) == Some(n as int),
            Err(message) => {
                &&& actions::action_number(game@.mover(), action) is None
                &&& message@ == actions::unsupported_promotion(action.promotion->0)
            },
        },
{
    game.action_index_internal(action)
}

/// It is white's turn.
pub fn is_white_to_move(game: &SelfPlayGame) -> (white: bool)
    ensures
        white == (game@.mover() == Color::White),
        white == (game@.board.position.side_to_move == Color::White),
{
    game.side_to_move() == Color::White
}

/// What somebody says of the state of a game.
pub struct StateReport {
    pub turn: bool,
    pub board: Vec<Vec<i8>>,
    pub castle: (bool, bool),
    pub actions: Vec<String>,
}

/// Where two accounts of a game first differ.
#[derive(Clone, Copy, PartialEq, Eq, Structural, Debug)]
pub enum Mismatch {
    Turn,
    Board,
    Castling,
    Encoding,
    LegalActions,
}

/// What is said of a difference.
pub open spec fn mismatch_text(mismatch: Mismatch) -> Seq<char> {
    match mismatch {
        Mismatch::Turn => "turn mismatch"@,
        Mismatch::Board => "board mismatch"@,
        Mismatch::Castling => "castling mismatch"@,
        Mismatch::Encoding => "encode mismatch"@,
        Mismatch::LegalActions => "legal actions mismatch"@,
    }
}

impl Mismatch {
    /// Says what differs.
    pub fn message(&self) -> (message: String)
        ensures
            message@ == mismatch_text(*self),
    {
        match self {
            Mismatch::Turn => "turn mismatch".to_owned(),
            Mismatch::Board => "board mismatch".to_owned(),
            Mismatch::Castling => "castling mismatch".to_owned(),
            Mismatch::Encoding => "encode mismatch".to_owned(),
            Mismatch::LegalActions => "legal actions mismatch".to_owned(),
        }
    }
}

/// The texts of a list in any order, each as often as it occurs.
pub open spec fn unordered(texts: Seq<String>) -> Multiset<Seq<char>> {
    texts.map_values(|text: String| text@).to_multiset()
}

/// The first difference between two accounts, in the order turn, board, castling rights, encoding
/// and legal moves. In what order the legal moves are listed does not matter.
pub open spec fn first_mismatch(
    ours: StateReport,
    theirs: StateReport,
    encodings_agree: bool,
) -> Option<Mismatch> {
    if ours.turn != theirs.turn {
        Some(Mismatch::Turn)
    } else if tables::rows_of(ours.board@) != tables::rows_of(theirs.board@) {
        Some(Mismatch::Board)
    } else if ours.castle != theirs.castle {
        Some(Mismatch::Castling)
    } else if !encodings_agree {
        Some(Mismatch::Encoding)
    } else if unordered(ours.actions@) != unordered(theirs.actions@) {
        Some(Mismatch::LegalActions)
    } else {
        None
    }
}

/// The two tables hold the same rows.
fn same_rows(a: &Vec<Vec<i8>>, b: &Vec<Vec<i8>>) -> (same: bool)
    ensures
        same == (tables::rows_of(a@) == tables::rows_of(b@)),
{
    if a.len() != b.len() {
        assert(tables::rows_of(a@).len() != tables::rows_of(b@).len());
        return false;
    }
    let mut row: usize = 0;
    while row < a.len()
        invariant
            row <= a@.len() == b@.len(),
            forall|i: int| #![trigger a@[i]] 0 <= i < row ==> a@[i]@ == b@[i]@,
        decreases a.len() - row,
    {
        assert(tables::rows_of(a@)[row as int] == a@[row as int]@);
        assert(tables::rows_of(b@)[row as int] == b@[row as int]@);
        if a[row].len() != b[row].len() {
            return false;
        }
        let mut column: usize = 0;
        while column < a[row].len()
            invariant
                row < a@.len() == b@.len(),
                a@[row as int]@.len() == b@[row as int]@.len(),
                column <= a@[row as int]@.len(),
                tables::rows_of(a@)[row as int] == a@[row as int]@,
                tables::rows_of(b@)[row as int] == b@[row as int]@,
                forall|i: int|
                    0 <= i < column ==> a@[row as int]@[i] == b@[row as int]@[i],
            decreases a@[row as int]@.len() - column,
        {
            if a[row][column] != b[row][column] {
                return false;
            }
            column = column + 1;
        }
        assert(a@[row as int]@ =~= b@[row as int]@);
        row = row + 1;
    }
    assert(tables::rows_of(a@) =~= tables::rows_of(b@));
    true
}

/// The two lists hold the same texts equally often.
fn same_texts(a: &Vec<String>, b: &Vec<String>) -> (same: bool)
    ensures
        same == (unordered(a@) == unordered(b@)),
{
    broadcast use vstd::seq_lib::group_to_multiset_ensures;

    let ghost left = a@.map_values(|text: String| text@);
    let ghost right = b@.map_values(|text: String| text@);
    if a.len() != b.len() {
        assert(left.to_multiset().len() != right.to_multiset().len());
        return false;
    }
    let mut rest: Vec<String> = copy_texts(b);
    let mut done: usize = 0;
    assert(left.take(0).to_multiset() =~= Multiset::empty());
    assert(rest@.map_values(|text: String| text@) =~= right);
    assert(left.take(0).to_multiset().add(unordered(rest@)) =~= right.to_multiset());
    while done < a.len()
        invariant
            done <= a@.len() == b@.len(),
            rest@.len() == b@.len() - done,
            left == a@.map_values(|text: String| text@),
            right == b@.map_values(|text: String| text@),
            left.take(done as int).to_multiset().add(unordered(rest@)) == right.to_multiset(),
        decreases a.len() - done,
    {
        broadcast use vstd::seq_lib::group_to_multiset_ensures;

        let ghost word = left[done as int];
        let ghost open_words = rest@.map_values(|text: String| text@);
        proof {
            assert(left.take(done + 1) =~= left.take(done as int).push(word));
        }
        match position_of(&rest, &a[done]) {
            Some(at) => {
                rest.remove(at);
                proof {
                    assert(rest@.map_values(|text: String| text@) =~= open_words.remove(
                        at as int,
                    ));
                    assert(open_words[at as int] == word);
                    assert(left.take(done + 1).to_multiset().add(unordered(rest@)) =~= left.take(
                        done as int,
                    ).to_multiset().add(open_words.to_multiset()));
                }
            },
            None => {
                proof {
                    assert(!open_words.contains(word)) by {
                        if open_words.contains(word) {
                            let i = choose|i: int|
                                0 <= i < open_words.len() && open_words[i] == word;
                            assert(rest@[i]@ == word);
                        }
                    }
                    assert(open_words.to_multiset().count(word) == 0);
                    assert(left =~= left.take(done + 1) + left.skip(done + 1));
                    vstd::seq_lib::lemma_multiset_commutative(
                        left.take(done + 1),
                        left.skip(done + 1),
                    );
                    assert(left.to_multiset().count(word) > right.to_multiset().count(word));
                }
                return false;
            },
        }
        done = done + 1;
    }
    proof {
        assert(left.take(done as int) =~= left);
        assert(rest@.map_values(|text: String| text@) =~= Seq::empty());
        assert(left.to_multiset().add(unordered(rest@)) =~= left.to_multiset());
    }
    true
}

/// A copy of a list of texts.
fn copy_texts(texts: &Vec<String>) -> (copy: Vec<String>)
    ensures
        copy@.len() == texts@.len(),
        forall|i: int| #![trigger copy@[i]] 0 <= i < texts@.len() ==> copy@[i]@ == texts@[i]@,
{
    let mut copy: Vec<String> = Vec::new();
    let mut done: usize = 0;
    while done < texts.len()
        invariant
            done <= texts@.len(),
            copy@.len() == done,
            forall|i: int| #![trigger copy@[i]] 0 <= i < done ==> copy@[i]@ == texts@[i]@,
        decreases texts.len() - done,
    {
        copy.push(texts[done].clone());
        done = done + 1;
    }
    copy
}

/// Where a text stands in a list, if it does.
fn position_of(texts: &Vec<String>, text: &String) -> (at: Option<usize>)
    ensures
        match at {
            Some(i) => i < texts@.len() && texts@[i as int]@ == text@,
            None => forall|i: int| #![trigger texts@[i]]
                0 <= i < texts@.len() ==> texts@[i]@ != text@,
        },
{
    let mut i: usize = 0;
    while i < texts.len()
        invariant
            i <= texts@.len(),
            forall|j: int| #![trigger texts@[j]] 0 <= j < i ==> texts@[j]@ != text@,
        decreases texts.len() - i,
    {
        if texts[i] == *text {
            return Some(i);
        }
        i = i + 1;
    }
    None
}

/// Holds two accounts of a game against each other.
pub fn compare_reports(ours: &StateReport, theirs: &StateReport, encodings_agree: bool) -> (outcome:
    Result<(), Mismatch>)
    ensures
        match outcome {
            Ok(_) => first_mismatch(*ours, *theirs, encodings_agree) is None,
            Err(mismatch) => first_mismatch(*ours, *theirs, encodings_agree) == Some(mismatch),
        },
{
    if ours.turn != theirs.turn {
        return Err(Mismatch::Turn);
    }
    if !same_rows(&ours.board, &theirs.board) {
        return Err(Mismatch::Board);
    }
    if ours.castle.0 != theirs.castle.0 || ours.castle.1 != theirs.castle.1 {
        return Err(Mismatch::Castling);
    }
    if !encodings_agree {
        return Err(Mismatch::Encoding);
    }
    if !same_texts(&ours.actions, &theirs.actions) {
        return Err(Mismatch::LegalActions);
    }
    Ok(())
}

/// The first point on which an account of a game is wrong, in the order turn, board, castling
/// rights, encoding and legal moves.
pub open spec fn first_error(
    game: GameView,
    theirs: StateReport,
    encodings_agree: bool,
) -> Option<Mismatch> {
    let position = game.board.position;
    let sides = position.castling(game.mover());
    let texts = engine::legal_moves(game.board).map_values(
        |action: ChessMove| actions::uci_text(action),
    );
    if theirs.turn != (game.mover() == Color::White) {
        Some(Mismatch::Turn)
    } else if !crate::position::is_matrix_of(theirs.board@, position) {
        Some(Mismatch::Board)
    } else if theirs.castle != (sides.kingside, sides.queenside) {
        Some(Mismatch::Castling)
    } else if !encodings_agree {
        Some(Mismatch::Encoding)
    } else if unordered(theirs.actions@) != texts.to_multiset() {
        Some(Mismatch::LegalActions)
    } else {
        None
    }
}

/// Two tables with the same rows are matrices of the same positions.
proof fn lemma_matrices_have_equal_rows(
    ours: Seq<Vec<i8>>,
    theirs: Seq<Vec<i8>>,
    position: crate::position::Position,
)
    requires
        crate::position::is_matrix_of(ours, position),
    ensures
        tables::rows_of(ours) == tables::rows_of(theirs) <==> crate::position::is_matrix_of(
            theirs,
            position,
        ),
{
    if tables::rows_of(ours) == tables::rows_of(theirs) {
        assert(tables::rows_of(ours).len() == tables::rows_of(theirs).len());
        assert forall|row: int| #![trigger theirs[row]] 0 <= row < 8 implies theirs[row]@
            == ours[row]@ by {
            assert(tables::rows_of(ours)[row] == ours[row]@);
            assert(tables::rows_of(theirs)[row] == theirs[row]@);
        }
        assert forall|row: int| #![trigger theirs[row]] 0 <= row < 8 implies {
            &&& theirs[row]@.len() == 8
            &&& forall|file: int| #![trigger theirs[row]@[file]]
                0 <= file < 8 ==> theirs[row]@[file] == position.matrix_value((7 - row) * 8 + file)
        } by {
            assert(theirs[row]@ == ours[row]@);
            assert forall|file: int| #![trigger theirs[row]@[file]] 0 <= file
                < 8 implies theirs[row]@[file] == position.matrix_value((7 - row) * 8 + file) by {
                assert(ours[row]@[file] == position.matrix_value((7 - row) * 8 + file));
            }
        }
    }
    if crate::position::is_matrix_of(theirs, position) {
        assert forall|row: int| 0 <= row < 8 implies tables::rows_of(ours)[row] == tables::rows_of(
            theirs,
        )[row] by {
            assert(ours[row]@.len() == 8 && theirs[row]@.len() == 8);
            assert(ours[row]@ =~= theirs[row]@);
        }
        assert(tables::rows_of(ours) =~= tables::rows_of(theirs));
    }
}

/// Holds an account of a game against the game. Whether the encodings agree is judged elsewhere,
/// in floating point.
pub fn compare_state(game: &SelfPlayGame, theirs: &StateReport, encodings_agree: bool) -> (outcome:
    Result<(), Mismatch>)
    requires
        game@.board.listable(),
    ensures
        match outcome {
            Ok(_) => first_error(game@, *theirs, encodings_agree) is None,
            Err(mismatch) => first_error(game@, *theirs, encodings_agree) == Some(mismatch),
        },
{
    let moves: Vec<ChessMove> = game.legal_actions_internal();
    let ours: StateReport = StateReport {
        turn: game.turn(),
        board: game.board_matrix(),
        castle: game.castle_eligible_internal(),
        actions: texts_of(&moves),
    };
    proof {
        lemma_matrices_have_equal_rows(ours.board@, theirs.board@, game@.board.position);
        assert(ours.actions@.map_values(|text: String| text@) =~= engine::legal_moves(
            game@.board,
        ).map_values(|action: ChessMove| actions::uci_text(action)));
    }
    compare_reports(&ours, theirs, encodings_agree)
}

/// How many moves an input of the given length plays.
pub fn steps_of(length: usize) -> (steps: usize)
    ensures
        steps <= length,
        steps <= MAX_STEPS,
        steps == length || steps == MAX_STEPS,
        steps <= 64,
        steps < length ==> steps == 64,
{
    if length < MAX_STEPS {
        length
    } else {
        MAX_STEPS
    }
}

/// The move that a byte of the input picks; none where there is no move.
pub fn pick_action(moves: &Vec<ChessMove>, byte: u8) -> (choice: Option<ChessMove>)
    ensures
        choice == if moves@.len() == 0 {
            None
        } else {
            Some(moves@[byte as int % moves@.len() as int])
        },
{
    if moves.len() == 0 {
        None
    } else {
        Some(moves[byte as usize % moves.len()])
    }
}

/// A list of texts without their order grows by each text that is added to the list.
pub proof fn unordered_lists_keep_every_text(texts: Seq<String>, text: String)
    ensures
        unordered(Seq::<String>::empty()) == Multiset::<Seq<char>>::empty(),
        unordered(texts.push(text)) == unordered(texts).insert(text@),
{
    broadcast use vstd::seq_lib::group_to_multiset_ensures;

    let words = texts.map_values(|text: String| text@);
    assert(Seq::<String>::empty().map_values(|text: String| text@) =~= Seq::empty());
    assert(Seq::<Seq<char>>::empty().to_multiset() =~= Multiset::empty());
    assert(texts.push(text).map_values(|text: String| text@) =~= words.push(text@));
    assert(unordered(texts.push(text)) =~= unordered(texts).insert(text@));
}

/// An account of a game is right exactly where it tells whose turn it is, shows the board, has the
/// castling rights of the player to move and lists the texts of the legal moves in any order, and
/// where the encodings agree. Else the first of these that is wrong is named.
pub proof fn accounts_are_held_against_the_game(
    game: GameView,
    theirs: StateReport,
    encodings_agree: bool,
)
    ensures
        ({
            let position = game.board.position;
            let error = first_error(game, theirs, encodings_agree);
            let turn = theirs.turn == (position.side_to_move == Color::White);
            let board = crate::position::is_matrix_of(theirs.board@, position);
            let castling = match position.side_to_move {
                Color::White => theirs.castle.0 == position.white_castling.kingside
                    && theirs.castle.1 == position.white_castling.queenside,
                Color::Black => theirs.castle.0 == position.black_castling.kingside
                    && theirs.castle.1 == position.black_castling.queenside,
            };
            let actions = unordered(theirs.actions@) == engine::legal_moves(game.board).map_values(
                |action: ChessMove| actions::uci_text(action),
            ).to_multiset();
            &&& error is None <==> turn && board && castling && encodings_agree && actions
            &&& error == Some(Mismatch::Turn) <==> !turn
            &&& error == Some(Mismatch::Board) <==> turn && !board
            &&& error == Some(Mismatch::Castling) <==> turn && board && !castling
            &&& error == Some(Mismatch::Encoding) <==> turn && board && castling
                && !encodings_agree
            &&& error == Some(Mismatch::LegalActions) <==> turn && board && castling
                && encodings_agree && !actions
        }),
{
}

/// Two accounts agree exactly where all they say is the same, but for the order of the moves.
pub proof fn accounts_are_held_against_each_other(
    ours: StateReport,
    theirs: StateReport,
    encodings_agree: bool,
)
    ensures
        ({
            let error = first_mismatch(ours, theirs, encodings_agree);
            let turn = ours.turn == theirs.turn;
            let board = ours.board@.len() == theirs.board@.len() && forall|row: int|
                #![trigger ours.board@[row]]
                0 <= row < ours.board@.len() ==> ours.board@[row]@ == theirs.board@[row]@;
            let castling = ours.castle == theirs.castle;
            let actions = unordered(ours.actions@) == unordered(theirs.actions@);
            &&& error is None <==> turn && board && castling && encodings_agree && actions
            &&& error == Some(Mismatch::Turn) <==> !turn
            &&& error == Some(Mismatch::Board) <==> turn && !board
            &&& error == Some(Mismatch::Castling) <==> turn && board && !castling
            &&& error == Some(Mismatch::Encoding) <==> turn && board && castling
                && !encodings_agree
            &&& error == Some(Mismatch::LegalActions) <==> turn && board && castling
                && encodings_agree && !actions
        }),
{
    let a = tables::rows_of(ours.board@);
    let b = tables::rows_of(theirs.board@);
    assert(a.len() == ours.board@.len() && b.len() == theirs.board@.len());
    if a == b {
        assert forall|row: int| #![trigger ours.board@[row]]
            0 <= row < ours.board@.len() implies ours.board@[row]@ == theirs.board@[row]@ by {
            assert(a[row] == ours.board@[row]@);
            assert(b[row] == theirs.board@[row]@);
        }
    }
    if ours.board@.len() == theirs.board@.len() && forall|row: int| #![trigger ours.board@[row]]
        0 <= row < ours.board@.len() ==> ours.board@[row]@ == theirs.board@[row]@ {
        assert forall|row: int| 0 <= row < a.len() implies a[row] == b[row] by {
            assert(ours.board@[row]@ == theirs.board@[row]@);
        }
        assert(a =~= b);
    }
}

} // verus!

//! How a text is got from an object that may be the text or may give it.
//!
//! The object itself is out of sight. The one who holds it puts a question to it and reports the
//! answer; here it is decided what to ask next.

use vstd::prelude::*;

verus! {

/// What the text is for.
#[derive(Clone, Copy, PartialEq, Eq, Structural, Debug)]
pub enum Subject {
    /// A position in the Forsyth-Edwards notation.
    Board,
    /// A move in the UCI notation.
    Action,
}

/// A question to the object.
#[derive(Clone, Copy, PartialEq, Eq, Structural, Debug)]
pub enum Query {
    /// Is the object a text?
    ReadObject,
    /// Does it have the attribute?
    FindAttribute,
    /// Can the attribute be called?
    TestCallable,
    /// What text does calling the attribute give?
    CallAttribute,
    /// Is the attribute a text?
    ReadAttribute,
}

/// An answer of the object.
#[derive(Debug)]
pub enum Reply {
    /// The text that was asked for.
    Text(String),
    /// Yes.
    Yes,
    /// No, or no text.
    No,
}

/// What is done next.
#[derive(Debug)]
pub enum Step {
    /// Ask this.
    Ask(Query),
    /// The text has been found.
    Accept(String),
    /// Hand on the error that calling the attribute raised.
    Reraise,
    /// The object is of no use.
    Reject,
}

/// The attribute that gives the text.
pub open spec fn attribute(subject: Subject) -> Seq<char> {
    match subject {
        Subject::Board => "fen"@,
        Subject::Action => "uci"@,
    }
}

/// What is said where the object is of no use.
pub open spec fn rejection(subject: Subject) -> Seq<char> {
    match subject {
        Subject::Board => "board must be a python-chess Board or FEN string"@,
        Subject::Action => "action must be a python-chess Move or UCI string"@,
    }
}

impl Subject {
    /// The attribute that gives the text.
    pub fn attribute_name(&self) -> (name: String)
        ensures
            name@ == attribute(*self),
    {
        match self {
            Subject::Board => "fen".to_owned(),
            Subject::Action => "uci".to_owned(),
        }
    }

    /// Says that the object is of no use.
    pub fn rejection_message(&self) -> (message: String)
        ensures
            message@ == rejection(*self),
    {
        match self {
            Subject::Board => "board must be a python-chess Board or FEN string".to_owned(),
            Subject::Action => "action must be a python-chess Move or UCI string".to_owned(),
        }
    }
}

/// What the answer to a question leads to.
pub open spec fn step_after(query: Query, reply: Reply) -> Step {
    match (query, reply) {
        (Query::ReadObject, Reply::Text(text)) => Step::Accept(text),
        (Query::ReadObject, _) => Step::Ask(Query::FindAttribute),
        (Query::FindAttribute, Reply::Yes) => Step::Ask(Query::TestCallable),
        (Query::FindAttribute, _) => Step::Reject,
        (Query::TestCallable, Reply::Yes) => Step::Ask(Query::CallAttribute),
        (Query::TestCallable, _) => Step::Ask(Query::ReadAttribute),
        (Query::CallAttribute, Reply::Text(text)) => Step::Accept(text),
        (Query::CallAttribute, _) => Step::Reraise,
        (Query::ReadAttribute, Reply::Text(text)) => Step::Accept(text),
        (Query::ReadAttribute, _) => Step::Reject,
    }
}

/// The question that is asked first.
pub fn first_query() -> (query: Query)
    ensures
        query == Query::ReadObject,
{
    Query::ReadObject
}

/// Decides what the answer to a question leads to.
pub fn next_step(query: Query, reply: Reply) -> (step: Step)
    ensures
        step == step_after(query, reply),
{
    match query {
        Query::ReadObject => match reply {
            Reply::Text(text) => Step::Accept(text),
            _ => Step::Ask(Query::FindAttribute),
        },
        Query::FindAttribute => match reply {
            Reply::Yes => Step::Ask(Query::TestCallable),
            _ => Step::Reject,
        },
        Query::TestCallable => match reply {
            Reply::Yes => Step::Ask(Query::CallAttribute),
            _ => Step::Ask(Query::ReadAttribute),
        },
        Query::CallAttribute => match reply {
            Reply::Text(text) => Step::Accept(text),
            _ => Step::Reraise,
        },
        Query::ReadAttribute => match reply {
            Reply::Text(text) => Step::Accept(text),
            _ => Step::Reject,
        },
    }
}

/// An object, as far as the questions reach: its text if it is one, and its attribute if it has
/// it.
pub struct Object {
    pub text: Option<String>,
    pub attribute: Option<Attribute>,
}

/// An attribute: whether it can be called, the text that calling it gives if it gives one, and its
/// text if it is one.
pub struct Attribute {
    pub callable: bool,
    pub called: Option<String>,
    pub text: Option<String>,
}

/// A text, or none.
pub open spec fn text_reply(text: Option<String>) -> Reply {
    match text {
        Some(text) => Reply::Text(text),
        None => Reply::No,
    }
}

/// Yes or no.
pub open spec fn plain_reply(yes: bool) -> Reply {
    if yes {
        Reply::Yes
    } else {
        Reply::No
    }
}

/// What the object answers.
pub open spec fn answer(object: Object, query: Query) -> Reply {
    match (query, object.attribute) {
        (Query::ReadObject, _) => text_reply(object.text),
        (Query::FindAttribute, found) => plain_reply(found is Some),
        (Query::TestCallable, Some(attribute)) => plain_reply(attribute.callable),
        (Query::CallAttribute, Some(attribute)) => text_reply(attribute.called),
        (Query::ReadAttribute, Some(attribute)) => text_reply(attribute.text),
        (_, None) => Reply::No,
    }
}

/// How many questions there can be from one on.
pub open spec fn questions_left(query: Query) -> nat {
    match query {
        Query::ReadObject => 3,
        Query::FindAttribute => 2,
        Query::TestCallable => 1,
        Query::CallAttribute => 0,
        Query::ReadAttribute => 0,
    }
}

/// What comes of asking an object from one question on until nothing is left to ask.
pub open spec fn outcome(object: Object, query: Query) -> Step
    decreases questions_left(query),
{
    match step_after(query, answer(object, query)) {
        Step::Ask(next) => outcome(object, next),
        end => end,
    }
}

/// What comes of asking an object: a text is taken as it is; else the attribute is called if it
/// can be, and what that raises is handed on; else the attribute is taken if it is a text.
/// Whatever else there is is refused.
pub proof fn asking_finds_the_text(object: Object)
    ensures
        outcome(object, Query::ReadObject) == match (object.text, object.attribute) {
            (Some(text), _) => Step::Accept(text),
            (None, None) => Step::Reject,
            (None, Some(attribute)) => if attribute.callable {
                match attribute.called {
                    Some(text) => Step::Accept(text),
                    None => Step::Reraise,
                }
            } else {
                match attribute.text {
                    Some(text) => Step::Accept(text),
                    None => Step::Reject,
                }
            },
        },
{
    reveal_with_fuel(outcome, 5);
}

} // verus!

//! The command: what it is asked for, and what it answers.

use crate::database::{is_whole_database, EmojiDatabase};
use crate::directory::EmojiDirectory;
use crate::record::{to_rows, EmojiRecord, Row};
use crate::scan::{replace, rewritten_text};
use vstd::prelude::*;

verus! {

/// What the command is asked to do.
pub enum Request {
    /// List the whole database.
    List,
    /// Rewrite the shortcodes of a text.
    Rewrite(String),
}

/// What the command answers.
pub enum Outcome {
    /// The database, one row for each emoji.
    Table(Vec<Row>),
    /// The rewritten text.
    Text(String),
}

/// Why the command cannot answer.
#[derive(Clone, Copy, Debug, PartialEq, Eq, Structural)]
pub enum UsageError {
    /// Neither a text nor the wish for the list was given.
    MissingInput,
}

impl UsageError {
    /// What went wrong.
    pub fn message(&self) -> (text: &'static str)
        ensures
            text@ == "requires some input, got None"@,
    {
        "requires some input, got None"
    }

    /// What was expected at the place of the call.
    pub fn label(&self) -> (text: &'static str)
        ensures
            text@ == "Expected something from pipeline"@,
    {
        "Expected something from pipeline"
    }
}

/// The request that the arguments stand for: the list where it is wished
/// for, whatever text comes with it; else the rewriting of the text; and an
/// error where there is neither.
pub open spec fn requested(text: Option<String>, list: bool) -> Result<Request, UsageError> {
    if list {
        Ok(Request::List)
    } else {
        match text {
            Some(t) => Ok(Request::Rewrite(t)),
            None => Err(UsageError::MissingInput),
        }
    }
}

/// Reads the request off the arguments.
pub fn select(text: Option<String>, list: bool) -> (request: Result<Request, UsageError>)
    ensures
        request == requested(text, list),
{
    if list {
        Ok(Request::List)
    } else {
        match text {
            Some(t) => Ok(Request::Rewrite(t)),
            None => Err(UsageError::MissingInput),
        }
    }
}

/// `rows` lists `records`: one row for each, in their order.
pub open spec fn lists(rows: Seq<Row>, records: Seq<EmojiRecord>) -> bool {
    &&& rows.len() == records.len()
    &&& forall|k: int| 0 <= k < records.len() ==> (#[trigger] records[k]).spec_row(rows[k])
}

/// `rows` lists the records of the whole emoji database.
pub open spec fn is_listing(rows: Seq<Row>) -> bool {
    exists|records: Seq<EmojiRecord>| is_whole_database(records) && lists(rows, records)
}

/// `outcome` answers `request`: with the rows that list the emoji database,
/// or with the text rewritten by it.
pub open spec fn answers(outcome: Outcome, request: Request) -> bool {
    match request {
        Request::List => match outcome {
            Outcome::Table(rows) => is_listing(rows@),
            Outcome::Text(_) => false,
        },
        Request::Rewrite(text) => match outcome {
            Outcome::Table(_) => false,
            Outcome::Text(out) => out@ == rewritten_text(text@, EmojiDatabase.entries()),
        },
    }
}

/// Answers a request with the emoji database: the list of its records, or
/// the text with each of its shortcodes replaced.
pub fn answer(request: Request) -> (outcome: Outcome)
    ensures
        answers(outcome, request),
{
    match request {
        Request::List => {
            let records = EmojiDatabase.records();
            let rows = to_rows(&records);
            assert(is_whole_database(records@) && lists(rows@, records@));
            assert(is_listing(rows@));
            Outcome::Table(rows)
        },
        Request::Rewrite(text) => Outcome::Text(replace(text.as_str())),
    }
}

/// Runs the command on its arguments.
pub fn run(text: Option<String>, list: bool) -> (outcome: Result<Outcome, UsageError>)
    ensures
        match requested(text, list) {
            Ok(request) => match outcome {
                Ok(o) => answers(o, request),
                Err(_) => false,
            },
            Err(error) => outcome == Err::<Outcome, UsageError>(error),
        },
{
    match select(text, list) {
        Ok(request) => Ok(answer(request)),
        Err(error) => Err(error),
    }
}

} // verus!

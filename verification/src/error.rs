//! The ways in which the engine fails, and the text that reports each.
use crate::lexer::MalformedInput;
use crate::text::{decimal, push_decimal, push_str, to_text};
use vstd::prelude::*;

verus! {

/// What a server says of a statement that it rejects.
#[derive(Clone, Debug, PartialEq, Eq)]
pub struct Diagnostic {
    /// The five-character condition code.
    pub code: String,
    pub message: String,
    pub detail: Option<String>,
    pub hint: Option<String>,
    /// Where in the server's own processing the failure arose.
    pub location: Option<String>,
}

/// A failure reported through a connection.
#[derive(Clone, Debug, PartialEq, Eq)]
pub enum ServerError {
    /// The server rejected the statement and said why.
    Database(Diagnostic),
    /// Anything else, in the words of the connection.
    Other(String),
}

/// A statement of a script that the server rejected.
#[derive(Clone, Debug, PartialEq, Eq)]
pub struct StatementFailure {
    /// The place of the statement among the statements of the script,
    /// bulk-load statements included, counted from one.
    pub ordinal: usize,
    /// The first characters of the statement.
    pub preview: String,
    pub error: ServerError,
}

/// Where in a bulk load the server rejected it.
#[derive(Clone, Copy, Debug, PartialEq, Eq, Structural)]
pub enum BulkLoadStage {
    /// When the bulk-load statement opened the channel.
    Start,
    /// When a line of data was sent.
    Write,
    /// When the channel was closed, which is when the server checks the
    /// data.
    Finish,
}

/// A failure of the engine.
#[derive(Clone, Debug, PartialEq, Eq)]
pub enum EngineError {
    /// The server cannot be reached, or a pool for it cannot be made.
    ConnectionFailure(String),
    /// The script ends where it must not.
    MalformedInput(MalformedInput),
    /// The server rejected a statement.
    StatementFailure(StatementFailure),
    /// The server rejected a bulk load.
    BulkLoadFailure(BulkLoadStage, ServerError),
    /// No statement is in flight under the execution id.
    NoSuchExecution,
}

/// `text`, or the words for a part that the server left out.
pub open spec fn or_none(text: Option<String>) -> Seq<char> {
    match text {
        Some(t) => t@,
        None => "(none)"@,
    }
}

/// The report of a diagnostic: code and message, then detail, hint and
/// location, each on a line of its own.
pub open spec fn diagnostic_text(d: Diagnostic) -> Seq<char> {
    d.code@ + ": "@ + d.message@ + "\nDetail: "@ + or_none(d.detail) + "\nHint: "@ + or_none(d.hint)
        + "\nWhere: "@ + or_none(d.location)
}

/// The report of a failure reported through a connection.
pub open spec fn server_error_text(e: ServerError) -> Seq<char> {
    match e {
        ServerError::Database(d) => diagnostic_text(d),
        ServerError::Other(text) => text@,
    }
}

/// The report of a malformed script.
pub open spec fn malformed_text(m: MalformedInput) -> Seq<char> {
    match m {
        MalformedInput::UnterminatedQuote => "Quoted text did not terminate"@,
        MalformedInput::UnterminatedComment => "Comment did not terminate"@,
        MalformedInput::UnterminatedDollarQuote => "Dollar-quoted text did not terminate"@,
        MalformedInput::UnterminatedBulkLoad => "COPY data did not terminate with \\."@,
        MalformedInput::MissingBulkData => "COPY statement missing data section"@,
    }
}

/// What the report of a rejected bulk load starts with.
pub open spec fn stage_text(stage: BulkLoadStage) -> Seq<char> {
    match stage {
        BulkLoadStage::Start => "Failed to start COPY: "@,
        BulkLoadStage::Write => "Failed writing COPY data: "@,
        BulkLoadStage::Finish => "Failed to finalize COPY: "@,
    }
}

/// The report of a rejected statement: its place, what the server said, and
/// its first characters.
pub open spec fn statement_failure_text(f: StatementFailure) -> Seq<char> {
    "Failed executing SQL statement "@ + decimal(f.ordinal as nat) + ": "@ + server_error_text(
        f.error,
    ) + "\nStatement preview:\n"@ + f.preview@
}

/// The report of a failure.
pub open spec fn error_text(e: EngineError) -> Seq<char> {
    match e {
        EngineError::ConnectionFailure(text) => "Failed to connect to database: "@ + text@,
        EngineError::MalformedInput(m) => malformed_text(m),
        EngineError::StatementFailure(f) => statement_failure_text(f),
        EngineError::BulkLoadFailure(stage, error) => stage_text(stage) + server_error_text(error),
        EngineError::NoSuchExecution => "No running query for this id"@,
    }
}

fn push_or_none(out: &mut Vec<char>, text: &Option<String>)
    ensures
        final(out)@ == old(out)@ + or_none(*text),
{
    match text {
        Some(t) => push_str(out, t.as_str()),
        None => push_str(out, "(none)"),
    }
}

fn push_server_error(out: &mut Vec<char>, e: &ServerError)
    ensures
        final(out)@ == old(out)@ + server_error_text(*e),
{
    match e {
        ServerError::Database(d) => {
            let ghost start = out@;
            push_str(out, d.code.as_str());
            push_str(out, ": ");
            push_str(out, d.message.as_str());
            push_str(out, "\nDetail: ");
            push_or_none(out, &d.detail);
            push_str(out, "\nHint: ");
            push_or_none(out, &d.hint);
            push_str(out, "\nWhere: ");
            push_or_none(out, &d.location);
            assert(out@ == start + diagnostic_text(*d));
        },
        ServerError::Other(text) => push_str(out, text.as_str()),
    }
}

impl MalformedInput {
    /// The report of this failure: see [`malformed_text`].
    pub fn message(&self) -> (text: String)
        ensures
            text@ == malformed_text(*self),
    {
        match self {
            MalformedInput::UnterminatedQuote => String::from_str("Quoted text did not terminate"),
            MalformedInput::UnterminatedComment => String::from_str("Comment did not terminate"),
            MalformedInput::UnterminatedDollarQuote => String::from_str(
                "Dollar-quoted text did not terminate",
            ),
            MalformedInput::UnterminatedBulkLoad => String::from_str(
                "COPY data did not terminate with \\.",
            ),
            MalformedInput::MissingBulkData => String::from_str(
                "COPY statement missing data section",
            ),
        }
    }
}

impl ServerError {
    /// The report of this failure: see [`server_error_text`].
    pub fn message(&self) -> (text: String)
        ensures
            text@ == server_error_text(*self),
    {
        let mut out: Vec<char> = Vec::new();
        push_server_error(&mut out, self);
        assert(Seq::<char>::empty() + server_error_text(*self) == server_error_text(*self));
        to_text(out.as_slice())
    }
}

impl EngineError {
    /// Whether the caller can go on after this failure. A failure to
    /// cancel is reported and nothing more; every other failure ends the
    /// work that it arose in.
    pub fn is_recoverable(&self) -> (b: bool)
        ensures
            b == (*self is NoSuchExecution),
    {
        match self {
            EngineError::NoSuchExecution => true,
            _ => false,
        }
    }

    /// The report of this failure: see [`error_text`].
    pub fn message(&self) -> (text: String)
        ensures
            text@ == error_text(*self),
    {
        let mut out: Vec<char> = Vec::new();
        match self {
            EngineError::ConnectionFailure(text) => {
                push_str(&mut out, "Failed to connect to database: ");
                push_str(&mut out, text.as_str());
            },
            EngineError::MalformedInput(m) => {
                let text = m.message();
                push_str(&mut out, text.as_str());
            },
            EngineError::StatementFailure(f) => {
                push_str(&mut out, "Failed executing SQL statement ");
                push_decimal(&mut out, f.ordinal);
                push_str(&mut out, ": ");
                push_server_error(&mut out, &f.error);
                push_str(&mut out, "\nStatement preview:\n");
                push_str(&mut out, f.preview.as_str());
            },
            EngineError::BulkLoadFailure(stage, error) => {
                match stage {
                    BulkLoadStage::Start => push_str(&mut out, "Failed to start COPY: "),
                    BulkLoadStage::Write => push_str(&mut out, "Failed writing COPY data: "),
                    BulkLoadStage::Finish => push_str(&mut out, "Failed to finalize COPY: "),
                }
                push_server_error(&mut out, error);
            },
            EngineError::NoSuchExecution => {
                push_str(&mut out, "No running query for this id");
            },
        }
        assert(out@ == error_text(*self));
        to_text(out.as_slice())
    }
}

} // verus!

//! What the engine works out for the shell that drives it: how a script
//! runs statement by statement, what a finished statement reports, and the
//! small decisions around both.
use crate::db::{get_query_history_dedup, search_query_history_dedup};
use crate::error::{EngineError, ServerError, StatementFailure};
use crate::records::QueryHistoryEntry;
use crate::rows::StoreError;
use crate::lexer::{event_view, finish, step, Event, EventView, Lexer, LexerState, MalformedInput};
use crate::sql::SchemaChange;
use crate::text::{
    blank, decimal, is_blank, push_decimal, push_str, slice_of, to_chars, to_text,
};
use vstd::prelude::*;

verus! {

/// `Value` of serde_json: a value of a row as the shell receives it.
#[verifier::external_type_specification]
#[verifier::external_body]
pub struct ExJsonValue(serde_json::Value);

/// The name and declared type of a column of a result.
#[derive(Clone, Debug, PartialEq, Eq)]
pub struct ColumnInfo {
    pub name: String,
    pub type_: Option<String>,
}

/// What is known of a script file before it runs.
#[derive(Clone, Debug, PartialEq, Eq)]
pub struct SqlFileMetadata {
    pub path: String,
    pub name: String,
    pub size_bytes: u64,
    /// When the file was made, in milliseconds since the epoch.
    pub created_at: Option<i64>,
}

/// What a server reports of its activity.
#[derive(Clone, Debug, PartialEq, Eq)]
pub struct DashboardMetrics {
    pub active_connections: i64,
    pub total_transactions: i64,
    pub connections: Vec<DashboardConnection>,
    pub database_name: String,
    /// When the numbers were read, in milliseconds since the epoch.
    pub collected_at: i64,
}

/// One connection to a server, as the server reports it.
#[derive(Clone, Debug, PartialEq, Eq)]
pub struct DashboardConnection {
    pub user: String,
    pub query: String,
}

/// What a statement or a script reports when it is done: the rows of a
/// statement executed for its rows, or the number of rows that a statement
/// changed, never both.
pub struct QueryResult {
    pub columns: Vec<ColumnInfo>,
    /// The rows, each a map from column name to value.
    pub rows: Vec<serde_json::Value>,
    pub rows_affected: Option<usize>,
    pub message: Option<String>,
}

/// The types of values that the engine reads from a row as they are.
/// Every other type is read as text.
#[derive(Clone, Copy, Debug, PartialEq, Eq, Structural)]
pub enum WireType {
    Void,
    Int4,
    Int8,
    Float4,
    Float8,
    Bool,
    Text,
}

/// The type that a column of the type named `name` is read as.
pub open spec fn wire_type_of(name: Seq<char>) -> WireType {
    if name == "void"@ {
        WireType::Void
    } else if name == "int4"@ {
        WireType::Int4
    } else if name == "int8"@ {
        WireType::Int8
    } else if name == "float4"@ {
        WireType::Float4
    } else if name == "float8"@ {
        WireType::Float8
    } else if name == "bool"@ {
        WireType::Bool
    } else {
        WireType::Text
    }
}

fn same(a: &str, b: &str) -> (r: bool)
    ensures
        r == (a@ == b@),
{
    String::from_str(a) == String::from_str(b)
}

/// Computes [`wire_type_of`].
pub fn wire_type(name: &str) -> (t: WireType)
    ensures
        t == wire_type_of(name@),
{
    if same(name, "void") {
        WireType::Void
    } else if same(name, "int4") {
        WireType::Int4
    } else if same(name, "int8") {
        WireType::Int8
    } else if same(name, "float4") {
        WireType::Float4
    } else if same(name, "float8") {
        WireType::Float8
    } else if same(name, "bool") {
        WireType::Bool
    } else {
        WireType::Text
    }
}

/// The time `since_epoch_millis` after the epoch as a count of
/// milliseconds, where it fits; `None` for a time before the epoch, which
/// has no such count, and for one too far ahead.
pub fn system_time_to_epoch_millis(since_epoch_millis: Option<u128>) -> (millis: Option<i64>)
    ensures
        millis == match since_epoch_millis {
            Some(m) => if m <= i64::MAX {
                Some(m as i64)
            } else {
                None
            },
            None => None,
        },
{
    match since_epoch_millis {
        Some(m) => {
            if m <= 0x7fff_ffff_ffff_ffff {
                Some(m as i64)
            } else {
                None
            }
        },
        None => None,
    }
}

/// The database to work in: the one asked for, unless none is named or the
/// name is blank; then the database of the server.
pub fn target_database(database_name: Option<String>, server_database: &str) -> (name: String)
    ensures
        name@ == match database_name {
            Some(asked) => if is_blank(asked@) {
                server_database@
            } else {
                asked@
            },
            None => server_database@,
        },
{
    match database_name {
        Some(asked) => {
            let chars = to_chars(asked.as_str());
            if blank(chars.as_slice()) {
                String::from_str(server_database)
            } else {
                asked
            }
        },
        None => String::from_str(server_database),
    }
}

/// Whether both names are given: a name that is blank is not.
pub fn names_given(schema_name: &str, table_name: &str) -> (b: bool)
    ensures
        b == (!is_blank(schema_name@) && !is_blank(table_name@)),
{
    let schema = to_chars(schema_name);
    let table = to_chars(table_name);
    !blank(schema.as_slice()) && !blank(table.as_slice())
}

/// The number of entries of the history to return where the caller names
/// none.
pub const DEFAULT_HISTORY_LIMIT: usize = 500;

/// The number of entries of the history to return.
pub fn history_limit(limit: Option<usize>) -> (n: usize)
    ensures
        n == match limit {
            Some(n) => n,
            None => DEFAULT_HISTORY_LIMIT,
        },
{
    match limit {
        Some(n) => n,
        None => DEFAULT_HISTORY_LIMIT,
    }
}

/// The statements of the server `server_id` that the history holds once
/// each, the latest first, `limit` of them at most: those in which
/// `search_term` stands, or all of them where `search_term` is blank.
pub fn search_query_history(
    conn: &rusqlite::Connection,
    server_id: &str,
    search_term: &str,
    limit: Option<usize>,
) -> (r: Result<Vec<QueryHistoryEntry>, StoreError>)
    ensures
        r is Err ==> r->Err_0 is Database || r->Err_0 is InvalidRow,
{
    let limit = history_limit(limit);
    let term = to_chars(search_term);
    if blank(term.as_slice()) {
        get_query_history_dedup(conn, server_id, limit)
    } else {
        search_query_history_dedup(conn, server_id, search_term, limit)
    }
}

/// The words that report a change to the schema tree.
pub open spec fn change_text(change: SchemaChange) -> Seq<char> {
    match change {
        SchemaChange::CreateTable => "Table created"@,
        SchemaChange::DropTable => "Table dropped"@,
        SchemaChange::DropDatabase => "Database dropped"@,
        SchemaChange::DropSchema => "Schema dropped"@,
    }
}

/// The message of a statement that is done: what it changed in the schema
/// tree, if anything.
pub fn completion_message(change: Option<SchemaChange>) -> (message: Option<String>)
    ensures
        match change {
            Some(c) => message is Some && message->0@ == change_text(c),
            None => message is None,
        },
{
    match change {
        Some(SchemaChange::CreateTable) => Some(String::from_str("Table created")),
        Some(SchemaChange::DropTable) => Some(String::from_str("Table dropped")),
        Some(SchemaChange::DropDatabase) => Some(String::from_str("Database dropped")),
        Some(SchemaChange::DropSchema) => Some(String::from_str("Schema dropped")),
        None => None,
    }
}

/// Whether the schema tree is to be read again and sent to the shell after
/// a statement that made `change`: after every change.
pub fn refreshes_schema(change: Option<SchemaChange>) -> (b: bool)
    ensures
        b == (change is Some),
{
    change.is_some()
}

/// The result of a statement executed for its rows: the rows and their
/// columns, and no count of rows changed.
pub fn rows_result(
    columns: Vec<ColumnInfo>,
    rows: Vec<serde_json::Value>,
    change: Option<SchemaChange>,
) -> (result: QueryResult)
    ensures
        result.columns == columns,
        result.rows == rows,
        result.rows_affected is None,
        match change {
            Some(c) => result.message is Some && result.message->0@ == change_text(c),
            None => result.message is None,
        },
{
    QueryResult { columns, rows, rows_affected: None, message: completion_message(change) }
}

/// The result of a statement executed for the number of rows it changes:
/// that number, as far as it can be counted here.
pub fn affected_result(affected: u64, change: Option<SchemaChange>) -> (result: QueryResult)
    ensures
        result.columns@.len() == 0,
        result.rows@.len() == 0,
        result.rows_affected == Some(
            if affected <= usize::MAX {
                affected as usize
            } else {
                usize::MAX
            },
        ),
        match change {
            Some(c) => result.message is Some && result.message->0@ == change_text(c),
            None => result.message is None,
        },
{
    let count: usize = if affected <= usize::MAX as u64 {
        affected as usize
    } else {
        usize::MAX
    };
    QueryResult {
        columns: Vec::new(),
        rows: Vec::new(),
        rows_affected: Some(count),
        message: completion_message(change),
    }
}

/// A result that reports `message` and nothing else.
pub fn message_result(message: String) -> (result: QueryResult)
    ensures
        result.columns@.len() == 0,
        result.rows@.len() == 0,
        result.rows_affected is None,
        result.message == Some(message),
{
    QueryResult { columns: Vec::new(), rows: Vec::new(), rows_affected: None, message: Some(message) }
}

/// The summary of a script that ran: its name and how many statements of
/// it were executed.
pub open spec fn summary_text(file_name: Seq<char>, executed: nat) -> Seq<char> {
    "Executed "@ + file_name + " ("@ + decimal(executed) + if executed == 1 {
        " statement)"@
    } else {
        " statements)"@
    }
}

/// Builds [`summary_text`].
pub fn summary(file_name: &str, executed: usize) -> (text: String)
    ensures
        text@ == summary_text(file_name@, executed as nat),
{
    let mut out: Vec<char> = Vec::new();
    push_str(&mut out, "Executed ");
    push_str(&mut out, file_name);
    push_str(&mut out, " (");
    push_decimal(&mut out, executed);
    if executed == 1 {
        push_str(&mut out, " statement)");
    } else {
        push_str(&mut out, " statements)");
    }
    assert(out@ == summary_text(file_name@, executed as nat));
    to_text(out.as_slice())
}

/// The most characters of a statement that a failure shows.
pub const PREVIEW_LENGTH: usize = 500;

/// The first characters of `statement`, at most [`PREVIEW_LENGTH`].
pub open spec fn preview_of(statement: Seq<char>) -> Seq<char> {
    if statement.len() <= PREVIEW_LENGTH {
        statement
    } else {
        statement.take(PREVIEW_LENGTH as int)
    }
}

/// Builds [`preview_of`].
pub fn preview(statement: &str) -> (text: String)
    ensures
        text@ == preview_of(statement@),
{
    let chars = to_chars(statement);
    if chars.len() <= PREVIEW_LENGTH {
        String::from_str(statement)
    } else {
        let head = slice_of(chars.as_slice(), 0, PREVIEW_LENGTH);
        to_text(head.as_slice())
    }
}

/// The place among the statements of a script of the one after `executed`
/// of them, counted from one.
pub open spec fn next_ordinal(executed: usize) -> usize {
    if executed < usize::MAX {
        (executed + 1) as usize
    } else {
        usize::MAX
    }
}

/// Whether `event` hands on a statement of the script: an ordinary
/// statement or a bulk-load statement. The lines of bulk-load data and
/// their end are part of the bulk-load statement.
pub open spec fn is_statement(event: EventView) -> bool {
    event is Statement || event is BulkLoadStart
}

/// How many statements of the script `events` hand on.
pub open spec fn statements_in(events: Seq<EventView>) -> nat
    decreases events.len(),
{
    if events.len() == 0 {
        0
    } else {
        statements_in(events.drop_last()) + if is_statement(events.last()) {
            1nat
        } else {
            0nat
        }
    }
}

/// The count of a run that stood at `start` and has done `events` since,
/// one after the other.
pub open spec fn count_after(start: usize, events: Seq<EventView>) -> usize
    decreases events.len(),
{
    if events.len() == 0 {
        start
    } else if is_statement(events.last()) {
        next_ordinal(count_after(start, events.drop_last()))
    } else {
        count_after(start, events.drop_last())
    }
}

/// The count of a run is the number of statements of the script that it
/// has done, as far as that can be counted: so the place that a rejected
/// statement is reported with is its place among the statements of the
/// script, bulk-load statements included.
pub proof fn lemma_count_is_place(events: Seq<EventView>)
    ensures
        count_after(0, events) == if statements_in(events) <= usize::MAX {
            statements_in(events)
        } else {
            usize::MAX as nat
        },
    decreases events.len(),
{
    if events.len() > 0 {
        lemma_count_is_place(events.drop_last());
    }
}

/// A line of bulk-load data as it is sent through the channel: the line,
/// then one line end.
pub fn data_line(line: &str) -> (text: String)
    ensures
        text@ == line@.push('\n'),
{
    let mut text = String::from_str(line);
    text.push('\n');
    text
}

/// One run of a script: the splitter, and how many statements of the
/// script were done so far.
///
/// The shell feeds the characters of the script in order. It does what
/// each event asks before it feeds the next character, in the order of the
/// events, and stops at the first failure: it executes a statement; it
/// opens the bulk-load channel with a bulk-load statement, sends each line
/// as [`data_line`] gives it, and closes the channel at the end of the
/// data. After each event that it has done it calls
/// [`ScriptRun::event_done`], which counts the statements of the script,
/// ordinary ones and bulk-load statements alike.
pub struct ScriptRun {
    lexer: Lexer,
    executed: usize,
}

impl ScriptRun {
    /// The state of the splitter.
    pub closed spec fn lexer(&self) -> LexerState {
        self.lexer@
    }

    /// How many statements of the script were done.
    pub closed spec fn count(&self) -> usize {
        self.executed
    }

    /// A run before the first character.
    pub fn new() -> (run: ScriptRun)
        ensures
            run.lexer() == crate::lexer::initial(),
            run.count() == 0,
    {
        ScriptRun { lexer: Lexer::new(), executed: 0 }
    }

    /// Takes the next character of the script, and returns what is to be
    /// done before the one after it: see [`step`].
    pub fn feed(&mut self, c: char) -> (event: Option<Event>)
        ensures
            (final(self).lexer(), event_view(event)) == step(old(self).lexer(), c),
            final(self).count() == old(self).count(),
    {
        self.lexer.feed(c)
    }

    /// Records that one more statement of the script was done.
    pub fn statement_done(&mut self)
        ensures
            final(self).lexer() == old(self).lexer(),
            final(self).count() == next_ordinal(old(self).count()),
    {
        if self.executed < usize::MAX {
            self.executed = self.executed + 1;
        }
    }

    /// Records that what `event` asks has been done: a statement of the
    /// script is counted, be it an ordinary one or a bulk-load statement;
    /// a line of bulk-load data and the end of the data are not.
    pub fn event_done(&mut self, event: &Event)
        ensures
            final(self).lexer() == old(self).lexer(),
            final(self).count() == if event@ is Statement || event@ is BulkLoadStart {
                next_ordinal(old(self).count())
            } else {
                old(self).count()
            },
            final(self).count() == count_after(old(self).count(), seq![event@]),
    {
        proof {
            let one = seq![event@];
            assert(one.drop_last() == Seq::<EventView>::empty());
            assert(count_after(self.count(), one.drop_last()) == self.count());
        }
        match event {
            Event::Statement(_) => self.statement_done(),
            Event::BulkLoadStart(_) => self.statement_done(),
            _ => {},
        }
    }

    /// How many statements of the script were done, bulk-load statements
    /// included.
    pub fn executed(&self) -> (n: usize)
        ensures
            n == self.count(),
    {
        self.executed
    }

    /// The failure to report where the server rejects `statement` with
    /// `error`: it names the place of the statement among the statements
    /// of the script, counted from one, and shows its first characters.
    pub fn statement_failed(&self, statement: &str, error: ServerError) -> (e: EngineError)
        ensures
            e is StatementFailure,
            e->StatementFailure_0.ordinal == next_ordinal(self.count()),
            e->StatementFailure_0.preview@ == preview_of(statement@),
            e->StatementFailure_0.error == error,
    {
        let ordinal = if self.executed < usize::MAX {
            self.executed + 1
        } else {
            usize::MAX
        };
        EngineError::StatementFailure(
            StatementFailure { ordinal, preview: preview(statement), error },
        )
    }

    /// What is left to do at the end of the script, or why the script is
    /// malformed: see [`finish`]. A statement that is left is executed and
    /// counted like the others.
    pub fn finish(&self) -> (r: Result<Option<Event>, EngineError>)
        ensures
            match r {
                Ok(event) => finish(self.lexer()) == Ok::<Option<EventView>, MalformedInput>(
                    event_view(event),
                ),
                Err(e) => e is MalformedInput && finish(self.lexer()) == Err::<
                    Option<EventView>,
                    MalformedInput,
                >(e->MalformedInput_0),
            },
    {
        match self.lexer.finish() {
            Ok(event) => Ok(event),
            Err(e) => Err(EngineError::MalformedInput(e)),
        }
    }
}

} // verus!

//! The metadata store: the servers that the user has saved, what was last
//! seen of their schemas, and the history of statements, in one SQLite
//! database.
//!
//! Every function takes the connection to work on. What a query returns
//! depends on what the database holds, so the contracts here say how rows
//! become records and leave the rest to the database.
use crate::records::{
    column_params, columns_from_rows, entries_from_rows, history_from_rows, history_params,
    index_params, indexes_from_rows, is_server_row, schema_params, schemas_from_rows,
    server_from_row, server_matches, server_params, servers_from_rows, table_params,
    tables_from_rows,
};
pub use crate::records::{
    AutocompleteItems, Column, Index, QueryHistory, QueryHistoryEntry, Schema, Server, Table,
};
use crate::rows::{
    holds_integer, holds_text, integer_at, integer_of, str_param, text_at, text_of, SqlParam,
    SqlValue, StoreError,
};
use crate::text::{char_is_space, is_space, push_str, to_chars, to_text};
use vstd::prelude::*;

verus! {

/// `Connection` of rusqlite: a connection to the database of the store.
#[verifier::external_type_specification]
#[verifier::external_body]
pub struct ExConnection(rusqlite::Connection);

/// `Error` of rusqlite.
#[verifier::external_type_specification]
#[verifier::external_body]
pub struct ExSqliteError(rusqlite::Error);

/// `Value` of rusqlite: what a column holds or a parameter binds.
#[verifier::external_type_specification]
#[verifier::external_body]
pub struct ExSqliteValue(rusqlite::types::Value);

/// `Connection::execute_batch` of rusqlite: runs the statements of `sql`,
/// which take no parameters, one after the other.
#[verifier::external_body]
fn execute_batch(conn: &rusqlite::Connection, sql: &str) -> (r: Result<(), rusqlite::Error>) {
    conn.execute_batch(sql)
}

/// A parameter as rusqlite's `Value`.
#[verifier::external_body]
fn bound(param: &SqlParam) -> (value: rusqlite::types::Value) {
    match param {
        SqlParam::Null => rusqlite::types::Value::Null,
        SqlParam::Integer(n) => rusqlite::types::Value::Integer(*n),
        SqlParam::Text(text) => rusqlite::types::Value::Text(text.clone()),
    }
}

/// What rusqlite's `Value` holds.
#[verifier::external_body]
fn held(value: rusqlite::types::Value) -> (v: SqlValue) {
    match value {
        rusqlite::types::Value::Null => SqlValue::Null,
        rusqlite::types::Value::Integer(n) => SqlValue::Integer(n),
        rusqlite::types::Value::Real(x) => SqlValue::Real(x.to_bits()),
        rusqlite::types::Value::Text(text) => SqlValue::Text(text),
        rusqlite::types::Value::Blob(bytes) => SqlValue::Blob(bytes),
    }
}

/// `Statement::execute` of rusqlite on the statement that
/// `Connection::prepare_cached` gives for `sql`, with `params` bound in
/// order: the number of rows changed.
#[verifier::external_body]
fn execute(conn: &rusqlite::Connection, sql: &str, params: &Vec<SqlParam>) -> (r: Result<
    usize,
    rusqlite::Error,
>) {
    let mut statement = conn.prepare_cached(sql)?;
    statement.execute(rusqlite::params_from_iter(params.iter().map(bound)))
}

/// `Statement::query_map` of rusqlite on the statement that
/// `Connection::prepare_cached` gives for `sql`, with `params` bound in
/// order: the rows, each with the values of its columns in order.
#[verifier::external_body]
fn query(conn: &rusqlite::Connection, sql: &str, params: &Vec<SqlParam>) -> (r: Result<
    Vec<Vec<SqlValue>>,
    rusqlite::Error,
>) {
    let mut statement = conn.prepare_cached(sql)?;
    let width = statement.column_count();
    let rows = statement.query_map(
        rusqlite::params_from_iter(params.iter().map(bound)),
        |row| (0..width).map(|at| row.get(at).map(held)).collect(),
    )?;
    rows.collect()
}

/// The words of rusqlite's `Error`.
#[verifier::external_body]
fn error_text(error: &rusqlite::Error) -> (text: String) {
    error.to_string()
}

/// `Uuid::new_v4` of uuid, in its hyphenated form: a fresh random id.
#[verifier::external_body]
pub(crate) fn new_id() -> (id: String) {
    uuid::Uuid::new_v4().to_string()
}

/// `Utc::now` of chrono, in seconds since the epoch. It needs a clock that
/// stands at or after the epoch.
#[verifier::external_body]
fn now_seconds() -> (seconds: i64) {
    chrono::Utc::now().timestamp()
}

fn batch(conn: &rusqlite::Connection, sql: &str) -> (r: Result<(), StoreError>)
    ensures
        r is Err ==> r->Err_0 is Database,
{
    match execute_batch(conn, sql) {
        Ok(()) => Ok(()),
        Err(e) => Err(StoreError::Database(error_text(&e))),
    }
}

fn run(conn: &rusqlite::Connection, sql: &str, params: &Vec<SqlParam>) -> (r: Result<
    (),
    StoreError,
>)
    ensures
        r is Err ==> r->Err_0 is Database,
{
    match execute(conn, sql, params) {
        Ok(_) => Ok(()),
        Err(e) => Err(StoreError::Database(error_text(&e))),
    }
}

fn rows(conn: &rusqlite::Connection, sql: &str, params: &Vec<SqlParam>) -> (r: Result<
    Vec<Vec<SqlValue>>,
    StoreError,
>)
    ensures
        r is Err ==> r->Err_0 is Database,
{
    match query(conn, sql, params) {
        Ok(rows) => Ok(rows),
        Err(e) => Err(StoreError::Database(error_text(&e))),
    }
}

fn one_param(text: &str) -> (params: Vec<SqlParam>)
    ensures
        params@.len() == 1,
        params@[0] is Text && params@[0]->Text_0@ == text@,
{
    let mut params: Vec<SqlParam> = Vec::new();
    params.push(str_param(text));
    params
}

/// Ends the transaction that `outcome` is the work of: commits it where
/// the work succeeded, rolls it back where the work or the commit failed,
/// and returns the first failure.
fn end_transaction(conn: &rusqlite::Connection, outcome: Result<(), StoreError>) -> (r: Result<
    (),
    StoreError,
>)
    ensures
        outcome is Err ==> r == outcome,
        outcome is Ok ==> (r is Err ==> r->Err_0 is Database),
{
    match outcome {
        Ok(()) => match batch(conn, "COMMIT") {
            Ok(()) => Ok(()),
            Err(e) => {
                let _ = batch(conn, "ROLLBACK");
                Err(e)
            },
        },
        Err(e) => {
            let _ = batch(conn, "ROLLBACK");
            Err(e)
        },
    }
}

/// `sql` with each run of white space in it as one space, and none at
/// either end.
pub open spec fn collapse_spaces(sql: Seq<char>) -> Seq<char>
    decreases sql.len(),
{
    if sql.len() == 0 {
        seq![]
    } else {
        let front = collapse_spaces(sql.drop_last());
        let c = sql.last();
        if is_space(c) {
            front
        } else if sql.len() > 1 && is_space(sql[sql.len() - 2]) && front.len() > 0 {
            front.push(' ').push(c)
        } else {
            front.push(c)
        }
    }
}

/// The form of a statement by which the history tells statements apart:
/// see [`collapse_spaces`].
pub fn normalize_sql(sql: &str) -> (normalized: String)
    ensures
        normalized@ == collapse_spaces(sql@),
{
    let chars = to_chars(sql);
    let mut out: Vec<char> = Vec::new();
    let mut after_space = false;
    let mut i: usize = 0;
    assert(chars@.take(0) == Seq::<char>::empty());
    while i < chars.len()
        invariant
            i <= chars.len(),
            out@ == collapse_spaces(chars@.take(i as int)),
            after_space == (i > 0 && is_space(chars@[i - 1])),
        decreases chars.len() - i,
    {
        let c = chars[i];
        assert(chars@.take(i + 1).drop_last() == chars@.take(i as int));
        if char_is_space(c) {
            after_space = true;
        } else {
            if after_space && out.len() > 0 {
                out.push(' ');
            }
            out.push(c);
            after_space = false;
        }
        i += 1;
    }
    assert(chars@.take(chars.len() as int) == chars@);
    to_text(out.as_slice())
}

/// Whether `row` holds one text.
pub open spec fn is_name_row(row: Seq<SqlValue>) -> bool {
    row.len() == 1 && holds_text(row[0])
}

/// Reads a name from each row, in order.
pub fn names_from_rows(rows: &Vec<Vec<SqlValue>>) -> (r: Result<Vec<String>, StoreError>)
    ensures
        match r {
            Ok(names) => names@.len() == rows@.len() && forall|i: int|
                0 <= i < rows@.len() ==> is_name_row(#[trigger] rows@[i]@) && names@[i]@
                    == text_of(rows@[i]@[0]),
            Err(e) => e is InvalidRow && exists|i: int|
                0 <= i < rows@.len() && !is_name_row(#[trigger] rows@[i]@),
        },
{
    let mut names: Vec<String> = Vec::new();
    let mut i: usize = 0;
    while i < rows.len()
        invariant
            i <= rows@.len(),
            names@.len() == i,
            forall|j: int|
                0 <= j < i ==> is_name_row(#[trigger] rows@[j]@) && names@[j]@ == text_of(
                    rows@[j]@[0],
                ),
        decreases rows@.len() - i,
    {
        let row = &rows[i];
        let name = if row.len() == 1 {
            text_at(row, 0)
        } else {
            None
        };
        match name {
            Some(name) => names.push(name),
            None => {
                assert(!is_name_row(rows@[i as int]@));
                return Err(StoreError::InvalidRow);
            },
        }
        i += 1;
    }
    Ok(names)
}

/// Makes the tables and indexes of the store where they are missing.
pub fn init_db(conn: &rusqlite::Connection) -> (r: Result<(), StoreError>)
    ensures
        r is Err ==> r->Err_0 is Database,
{
    batch(
        conn,
        r#"
        CREATE TABLE IF NOT EXISTS servers (
            id TEXT PRIMARY KEY,
            name TEXT NOT NULL,
            host TEXT NOT NULL,
            port INTEGER NOT NULL DEFAULT 5432,
            database TEXT NOT NULL,
            username TEXT NOT NULL,
            credential_key TEXT NOT NULL,
            group_name TEXT,
            last_connected INTEGER
        ) WITHOUT ROWID;

        CREATE INDEX IF NOT EXISTS idx_servers_group ON servers(group_name) WHERE group_name IS NOT NULL;

        CREATE TABLE IF NOT EXISTS schemas (
            id TEXT PRIMARY KEY,
            server_id TEXT NOT NULL,
            name TEXT NOT NULL,
            last_updated INTEGER NOT NULL,
            FOREIGN KEY (server_id) REFERENCES servers(id) ON DELETE CASCADE
        );

        CREATE INDEX IF NOT EXISTS idx_schemas_server_updated ON schemas(server_id, last_updated DESC);

        CREATE TABLE IF NOT EXISTS tables (
            id TEXT PRIMARY KEY,
            schema_id TEXT NOT NULL,
            name TEXT NOT NULL,
            type TEXT NOT NULL,
            FOREIGN KEY (schema_id) REFERENCES schemas(id) ON DELETE CASCADE
        );

        CREATE INDEX IF NOT EXISTS idx_tables_schema_name ON tables(schema_id, name, type);

        CREATE TABLE IF NOT EXISTS columns (
            id TEXT PRIMARY KEY,
            table_id TEXT NOT NULL,
            name TEXT NOT NULL,
            data_type TEXT NOT NULL,
            nullable INTEGER NOT NULL,
            FOREIGN KEY (table_id) REFERENCES tables(id) ON DELETE CASCADE
        );

        CREATE INDEX IF NOT EXISTS idx_columns_table_id ON columns(table_id);

        CREATE TABLE IF NOT EXISTS indexes (
            id TEXT PRIMARY KEY,
            table_id TEXT NOT NULL,
            name TEXT NOT NULL,
            definition TEXT NOT NULL,
            FOREIGN KEY (table_id) REFERENCES tables(id) ON DELETE CASCADE
        );

        CREATE INDEX IF NOT EXISTS idx_indexes_table_id ON indexes(table_id);

        CREATE TABLE IF NOT EXISTS query_history (
            id TEXT PRIMARY KEY,
            server_id TEXT NOT NULL,
            sql TEXT NOT NULL,
            executed_at INTEGER NOT NULL,
            success INTEGER NOT NULL,
            FOREIGN KEY (server_id) REFERENCES servers(id) ON DELETE CASCADE
        );

        CREATE INDEX IF NOT EXISTS idx_query_history_server_exec
            ON query_history(server_id, executed_at DESC)
            WHERE success = 1;

        CREATE TABLE IF NOT EXISTS query_history_dedup (
            id TEXT PRIMARY KEY,
            server_id TEXT NOT NULL,
            sql TEXT NOT NULL,
            normalized_sql TEXT NOT NULL,
            last_executed_at INTEGER NOT NULL,
            execution_count INTEGER NOT NULL DEFAULT 1,
            FOREIGN KEY (server_id) REFERENCES servers(id) ON DELETE CASCADE
        );

        CREATE INDEX IF NOT EXISTS idx_query_history_dedup_server_time
            ON query_history_dedup(server_id, last_executed_at DESC);

        CREATE UNIQUE INDEX IF NOT EXISTS idx_query_history_dedup_normalized
            ON query_history_dedup(server_id, normalized_sql);
        "#,
    )
}

/// The saved servers: the one last connected to first, those never
/// connected to last, by name among equals.
pub fn get_servers(conn: &rusqlite::Connection) -> (r: Result<Vec<Server>, StoreError>)
    ensures
        r is Err ==> r->Err_0 is Database || r->Err_0 is InvalidRow,
{
    let params: Vec<SqlParam> = Vec::new();
    let found = rows(
        conn,
        "SELECT id, name, host, port, database, username, credential_key, group_name, last_connected
         FROM servers
         ORDER BY last_connected DESC NULLS LAST, name",
        &params,
    )?;
    servers_from_rows(&found)
}

/// Reads a [`Server`] from the first of `rows`, if there is one; the rows
/// after it are not looked at.
pub fn first_server_from_rows(rows: &Vec<Vec<SqlValue>>) -> (r: Result<Option<Server>, StoreError>)
    ensures
        match r {
            Ok(Some(server)) => rows@.len() > 0 && is_server_row(rows@[0]@) && server_matches(
                server,
                rows@[0]@,
            ),
            Ok(None) => rows@.len() == 0,
            Err(e) => rows@.len() > 0 && !is_server_row(rows@[0]@) && e is InvalidRow,
        },
{
    if rows.len() == 0 {
        Ok(None)
    } else {
        match server_from_row(&rows[0]) {
            Ok(server) => Ok(Some(server)),
            Err(e) => Err(e),
        }
    }
}

/// The saved server `server_id`, if there is one.
pub fn get_server_by_id(conn: &rusqlite::Connection, server_id: &str) -> (r: Result<
    Option<Server>,
    StoreError,
>)
    ensures
        r is Err ==> r->Err_0 is Database || r->Err_0 is InvalidRow,
{
    let found = rows(
        conn,
        "SELECT id, name, host, port, database, username, credential_key, group_name, last_connected
         FROM servers WHERE id = ?",
        &one_param(server_id),
    )?;
    first_server_from_rows(&found)
}

/// Saves `server`.
pub fn add_server(conn: &rusqlite::Connection, server: &Server) -> (r: Result<(), StoreError>)
    ensures
        r is Err ==> r->Err_0 is Database,
{
    run(
        conn,
        "INSERT INTO servers (id, name, host, port, database, username, credential_key, group_name, last_connected)
         VALUES (?, ?, ?, ?, ?, ?, ?, ?, ?)",
        &server_params(server),
    )
}

/// Records that the server `server_id` was connected to at `timestamp`.
pub fn update_server_last_connected(
    conn: &rusqlite::Connection,
    server_id: &str,
    timestamp: i64,
) -> (r: Result<(), StoreError>)
    ensures
        r is Err ==> r->Err_0 is Database,
{
    let mut params: Vec<SqlParam> = Vec::new();
    params.push(SqlParam::Integer(timestamp));
    params.push(str_param(server_id));
    run(conn, "UPDATE servers SET last_connected = ? WHERE id = ?", &params)
}

/// Forgets the server `server_id`.
pub fn delete_server(conn: &rusqlite::Connection, server_id: &str) -> (r: Result<(), StoreError>)
    ensures
        r is Err ==> r->Err_0 is Database,
{
    run(conn, "DELETE FROM servers WHERE id = ?", &one_param(server_id))
}

/// The schemas of the server `server_id`, by name.
pub fn get_schemas(conn: &rusqlite::Connection, server_id: &str) -> (r: Result<
    Vec<Schema>,
    StoreError,
>)
    ensures
        r is Err ==> r->Err_0 is Database || r->Err_0 is InvalidRow,
{
    let found = rows(
        conn,
        "SELECT id, server_id, name, last_updated
         FROM schemas
         WHERE server_id = ?
         ORDER BY name",
        &one_param(server_id),
    )?;
    schemas_from_rows(&found)
}

/// Adds `schemas`, all or none of them.
pub fn batch_insert_schemas(conn: &rusqlite::Connection, schemas: &[Schema]) -> (r: Result<
    (),
    StoreError,
>)
    ensures
        schemas@.len() == 0 ==> r is Ok,
        r is Err ==> r->Err_0 is Database,
{
    if schemas.len() == 0 {
        return Ok(());
    }
    batch(conn, "BEGIN DEFERRED")?;
    let outcome = insert_schemas(conn, schemas);
    end_transaction(conn, outcome)
}

fn insert_schemas(conn: &rusqlite::Connection, schemas: &[Schema]) -> (r: Result<
    (),
    StoreError,
>)
    ensures
        schemas@.len() == 0 ==> r is Ok,
        r is Err ==> r->Err_0 is Database,
{
    let mut i: usize = 0;
    while i < schemas.len()
        invariant
            i <= schemas@.len(),
        decreases schemas@.len() - i,
    {
        run(
            conn,
            "INSERT INTO schemas (id, server_id, name, last_updated) VALUES (?, ?, ?, ?)",
            &schema_params(&schemas[i]),
        )?;
        i += 1;
    }
    Ok(())
}

/// The tables of the schema `schema_id`, by name.
pub fn get_tables(conn: &rusqlite::Connection, schema_id: &str) -> (r: Result<
    Vec<Table>,
    StoreError,
>)
    ensures
        r is Err ==> r->Err_0 is Database || r->Err_0 is InvalidRow,
{
    let found = rows(
        conn,
        "SELECT id, schema_id, name, type
         FROM tables
         WHERE schema_id = ?
         ORDER BY name",
        &one_param(schema_id),
    )?;
    tables_from_rows(&found)
}

/// Adds `tables`, all or none of them.
pub fn batch_insert_tables(conn: &rusqlite::Connection, tables: &[Table]) -> (r: Result<
    (),
    StoreError,
>)
    ensures
        tables@.len() == 0 ==> r is Ok,
        r is Err ==> r->Err_0 is Database,
{
    if tables.len() == 0 {
        return Ok(());
    }
    batch(conn, "BEGIN DEFERRED")?;
    let outcome = insert_tables(conn, tables);
    end_transaction(conn, outcome)
}

fn insert_tables(conn: &rusqlite::Connection, tables: &[Table]) -> (r: Result<(), StoreError>)
    ensures
        tables@.len() == 0 ==> r is Ok,
        r is Err ==> r->Err_0 is Database,
{
    let mut i: usize = 0;
    while i < tables.len()
        invariant
            i <= tables@.len(),
        decreases tables@.len() - i,
    {
        run(
            conn,
            "INSERT INTO tables (id, schema_id, name, type) VALUES (?, ?, ?, ?)",
            &table_params(&tables[i]),
        )?;
        i += 1;
    }
    Ok(())
}

/// The columns of the table `table_id`, by name.
pub fn get_columns(conn: &rusqlite::Connection, table_id: &str) -> (r: Result<
    Vec<Column>,
    StoreError,
>)
    ensures
        r is Err ==> r->Err_0 is Database || r->Err_0 is InvalidRow,
{
    let found = rows(
        conn,
        "SELECT id, table_id, name, data_type, nullable
         FROM columns
         WHERE table_id = ?
         ORDER BY name",
        &one_param(table_id),
    )?;
    columns_from_rows(&found)
}

/// Whether `row` holds the name of a table, of its schema and of its
/// server.
pub open spec fn is_context_row(row: Seq<SqlValue>) -> bool {
    row.len() == 3 && holds_text(row[0]) && holds_text(row[1]) && holds_text(row[2])
}

/// Reads the name of a table, of its schema and of its server from a row.
pub fn context_from_row(row: &Vec<SqlValue>) -> (r: Result<(String, String, String), StoreError>)
    ensures
        match r {
            Ok(context) => is_context_row(row@) && context.0@ == text_of(row@[0]) && context.1@
                == text_of(row@[1]) && context.2@ == text_of(row@[2]),
            Err(e) => !is_context_row(row@) && e is InvalidRow,
        },
{
    if row.len() != 3 {
        return Err(StoreError::InvalidRow);
    }
    match (text_at(row, 0), text_at(row, 1), text_at(row, 2)) {
        (Some(table), Some(schema), Some(server)) => Ok((table, schema, server)),
        _ => Err(StoreError::InvalidRow),
    }
}

/// Reads the name of a table, of its schema and of its server from the
/// first of `rows`, if there is one; the rows after it are not looked at.
pub fn first_context_from_rows(rows: &Vec<Vec<SqlValue>>) -> (r: Result<
    Option<(String, String, String)>,
    StoreError,
>)
    ensures
        match r {
            Ok(Some(context)) => rows@.len() > 0 && is_context_row(rows@[0]@) && context.0@
                == text_of(rows@[0]@[0]) && context.1@ == text_of(rows@[0]@[1]) && context.2@
                == text_of(rows@[0]@[2]),
            Ok(None) => rows@.len() == 0,
            Err(e) => rows@.len() > 0 && !is_context_row(rows@[0]@) && e is InvalidRow,
        },
{
    if rows.len() == 0 {
        Ok(None)
    } else {
        match context_from_row(&rows[0]) {
            Ok(context) => Ok(Some(context)),
            Err(e) => Err(e),
        }
    }
}

/// The name of the table `table_id`, the name of its schema and the id of
/// its server, if there is such a table.
pub fn get_table_context(conn: &rusqlite::Connection, table_id: &str) -> (r: Result<
    Option<(String, String, String)>,
    StoreError,
>)
    ensures
        r is Err ==> r->Err_0 is Database || r->Err_0 is InvalidRow,
{
    let found = rows(
        conn,
        "SELECT t.name, s.name, s.server_id
         FROM tables t
         JOIN schemas s ON s.id = t.schema_id
         WHERE t.id = ?",
        &one_param(table_id),
    )?;
    first_context_from_rows(&found)
}

/// The indexes of the table `table_id`, by name.
pub fn get_indexes(conn: &rusqlite::Connection, table_id: &str) -> (r: Result<
    Vec<Index>,
    StoreError,
>)
    ensures
        r is Err ==> r->Err_0 is Database || r->Err_0 is InvalidRow,
{
    let found = rows(
        conn,
        "SELECT id, table_id, name, definition
         FROM indexes
         WHERE table_id = ?
         ORDER BY name",
        &one_param(table_id),
    )?;
    indexes_from_rows(&found)
}

/// The names of the tables, columns and indexes of the server
/// `server_id`, each list in order.
pub fn get_autocomplete_items(conn: &rusqlite::Connection, server_id: &str) -> (r: Result<
    AutocompleteItems,
    StoreError,
>)
    ensures
        r is Err ==> r->Err_0 is Database || r->Err_0 is InvalidRow,
{
    let params = one_param(server_id);
    let found = rows(
        conn,
        "SELECT t.name
         FROM tables t
         JOIN schemas s ON s.id = t.schema_id
         WHERE s.server_id = ?
         ORDER BY t.name",
        &params,
    )?;
    let tables = names_from_rows(&found)?;
    let found = rows(
        conn,
        "SELECT c.name
         FROM columns c
         JOIN tables t ON t.id = c.table_id
         JOIN schemas s ON s.id = t.schema_id
         WHERE s.server_id = ?
         ORDER BY c.name",
        &params,
    )?;
    let columns = names_from_rows(&found)?;
    let found = rows(
        conn,
        "SELECT i.name
         FROM indexes i
         JOIN tables t ON t.id = i.table_id
         JOIN schemas s ON s.id = t.schema_id
         WHERE s.server_id = ?
         ORDER BY i.name",
        &params,
    )?;
    let indexes = names_from_rows(&found)?;
    Ok(AutocompleteItems { tables, columns, indexes })
}

fn insert_indexes(conn: &rusqlite::Connection, indexes: &[Index]) -> (r: Result<
    (),
    StoreError,
>)
    ensures
        indexes@.len() == 0 ==> r is Ok,
        r is Err ==> r->Err_0 is Database,
{
    let mut i: usize = 0;
    while i < indexes.len()
        invariant
            i <= indexes@.len(),
        decreases indexes@.len() - i,
    {
        run(
            conn,
            "INSERT INTO indexes (id, table_id, name, definition) VALUES (?, ?, ?, ?)",
            &index_params(&indexes[i]),
        )?;
        i += 1;
    }
    Ok(())
}

fn replace_indexes(conn: &rusqlite::Connection, table_id: &str, indexes: &[Index]) -> (r:
    Result<(), StoreError>)
    ensures
        r is Err ==> r->Err_0 is Database,
{
    run(conn, "DELETE FROM indexes WHERE table_id = ?", &one_param(table_id))?;
    insert_indexes(conn, indexes)
}

/// Puts `indexes` in the place of the indexes of the table `table_id`, or
/// changes nothing.
pub fn replace_indexes_for_table(
    conn: &rusqlite::Connection,
    table_id: &str,
    indexes: &[Index],
) -> (r: Result<(), StoreError>)
    ensures
        r is Err ==> r->Err_0 is Database,
{
    batch(conn, "BEGIN DEFERRED")?;
    let outcome = replace_indexes(conn, table_id, indexes);
    end_transaction(conn, outcome)
}

fn insert_columns(conn: &rusqlite::Connection, columns: &[Column]) -> (r: Result<
    (),
    StoreError,
>)
    ensures
        columns@.len() == 0 ==> r is Ok,
        r is Err ==> r->Err_0 is Database,
{
    let mut i: usize = 0;
    while i < columns.len()
        invariant
            i <= columns@.len(),
        decreases columns@.len() - i,
    {
        run(
            conn,
            "INSERT INTO columns (id, table_id, name, data_type, nullable) VALUES (?, ?, ?, ?, ?)",
            &column_params(&columns[i]),
        )?;
        i += 1;
    }
    Ok(())
}

/// Adds `columns`, all or none of them.
pub fn batch_insert_columns(conn: &rusqlite::Connection, columns: &[Column]) -> (r: Result<
    (),
    StoreError,
>)
    ensures
        columns@.len() == 0 ==> r is Ok,
        r is Err ==> r->Err_0 is Database,
{
    if columns.len() == 0 {
        return Ok(());
    }
    batch(conn, "BEGIN DEFERRED")?;
    let outcome = insert_columns(conn, columns);
    end_transaction(conn, outcome)
}

fn limit_param(limit: usize) -> (param: SqlParam)
    ensures
        param is Integer,
        limit <= i64::MAX ==> param->Integer_0 == limit,
        limit > i64::MAX ==> param->Integer_0 == i64::MAX,
{
    let wide: u64 = limit as u64;
    if wide > 0x7fff_ffff_ffff_ffff {
        SqlParam::Integer(0x7fff_ffff_ffff_ffff)
    } else {
        SqlParam::Integer(wide as i64)
    }
}

/// The last `limit` executions on the server `server_id`, the latest
/// first.
pub fn get_query_history(conn: &rusqlite::Connection, server_id: &str, limit: usize) -> (r: Result<
    Vec<QueryHistory>,
    StoreError,
>)
    ensures
        r is Err ==> r->Err_0 is Database || r->Err_0 is InvalidRow,
{
    let mut params = one_param(server_id);
    params.push(limit_param(limit));
    let found = rows(
        conn,
        "SELECT id, server_id, sql, executed_at, success
         FROM query_history
         WHERE server_id = ?
         ORDER BY executed_at DESC
         LIMIT ?",
        &params,
    )?;
    history_from_rows(&found)
}

/// Records the execution `history`.
pub fn add_query_history(conn: &rusqlite::Connection, history: &QueryHistory) -> (r: Result<
    (),
    StoreError,
>)
    ensures
        r is Err ==> r->Err_0 is Database,
{
    run(
        conn,
        "INSERT INTO query_history (id, server_id, sql, executed_at, success) VALUES (?, ?, ?, ?, ?)",
        &history_params(history),
    )
}

/// What is bound to record once more a statement that the history holds
/// under `id`: its text as executed now, the time, and the id.
pub fn repeat_params(sql: &str, executed_at: i64, id: &String) -> (params: Vec<SqlParam>)
    ensures
        params@.len() == 3,
        params@[0] is Text && params@[0]->Text_0@ == sql@,
        params@[1] == SqlParam::Integer(executed_at),
        params@[2] is Text && params@[2]->Text_0@ == id@,
{
    let mut params: Vec<SqlParam> = Vec::new();
    params.push(str_param(sql));
    params.push(SqlParam::Integer(executed_at));
    params.push(SqlParam::Text(id.clone()));
    params
}

/// What is bound to record a statement that the history does not hold
/// yet: the id of the new entry, the server, the text, its normal form, and
/// the time.
pub fn first_params(id: &String, server_id: &str, sql: &str, executed_at: i64) -> (params: Vec<
    SqlParam,
>)
    ensures
        params@.len() == 5,
        params@[0] is Text && params@[0]->Text_0@ == id@,
        params@[1] is Text && params@[1]->Text_0@ == server_id@,
        params@[2] is Text && params@[2]->Text_0@ == sql@,
        params@[3] is Text && params@[3]->Text_0@ == collapse_spaces(sql@),
        params@[4] == SqlParam::Integer(executed_at),
{
    let mut params: Vec<SqlParam> = Vec::new();
    params.push(SqlParam::Text(id.clone()));
    params.push(str_param(server_id));
    params.push(str_param(sql));
    params.push(SqlParam::Text(normalize_sql(sql)));
    params.push(SqlParam::Integer(executed_at));
    params
}

/// The id in the first of `rows`, each of which must hold one: the entry
/// that the history holds for a statement, if it holds one.
pub fn existing_entry(rows: &Vec<Vec<SqlValue>>) -> (r: Result<Option<String>, StoreError>)
    ensures
        match r {
            Ok(Some(id)) => rows@.len() > 0 && is_name_row(rows@[0]@) && id@ == text_of(
                rows@[0]@[0],
            ),
            Ok(None) => rows@.len() == 0,
            Err(e) => rows@.len() > 0 && !is_name_row(rows@[0]@) && e is InvalidRow,
        },
{
    if rows.len() == 0 {
        return Ok(None);
    }
    let row = &rows[0];
    if row.len() != 1 {
        return Err(StoreError::InvalidRow);
    }
    match text_at(row, 0) {
        Some(id) => Ok(Some(id)),
        None => Err(StoreError::InvalidRow),
    }
}

/// Records that `sql` ran on the server `server_id` at `executed_at`, in
/// the history that holds each statement once: a statement is the same as
/// another where their normal forms are. Where the history holds it, its
/// text and time are renewed and its count goes up by one; else it is added
/// with a count of one.
pub fn upsert_query_history_dedup(
    conn: &rusqlite::Connection,
    server_id: &str,
    sql: &str,
    executed_at: i64,
) -> (r: Result<(), StoreError>)
    ensures
        r is Err ==> r->Err_0 is Database || r->Err_0 is InvalidRow,
{
    let normalized = normalize_sql(sql);
    let mut params = one_param(server_id);
    params.push(SqlParam::Text(normalized));
    let found = rows(
        conn,
        "SELECT id FROM query_history_dedup WHERE server_id = ? AND normalized_sql = ?",
        &params,
    )?;
    match existing_entry(&found)? {
        Some(id) => run(
            conn,
            "UPDATE query_history_dedup 
             SET sql = ?, last_executed_at = ?, execution_count = execution_count + 1
             WHERE id = ?",
            &repeat_params(sql, executed_at, &id),
        ),
        None => {
            let id = new_id();
            run(
                conn,
                "INSERT INTO query_history_dedup (id, server_id, sql, normalized_sql, last_executed_at, execution_count)
             VALUES (?, ?, ?, ?, ?, 1)",
                &first_params(&id, server_id, sql, executed_at),
            )
        },
    }
}

/// The last `limit` statements of the server `server_id`, each once, the
/// latest first.
pub fn get_query_history_dedup(conn: &rusqlite::Connection, server_id: &str, limit: usize) -> (r:
    Result<Vec<QueryHistoryEntry>, StoreError>)
    ensures
        r is Err ==> r->Err_0 is Database || r->Err_0 is InvalidRow,
{
    let mut params = one_param(server_id);
    params.push(limit_param(limit));
    let found = rows(
        conn,
        "SELECT id, server_id, sql, normalized_sql, last_executed_at, execution_count
         FROM query_history_dedup
         WHERE server_id = ?
         ORDER BY last_executed_at DESC
         LIMIT ?",
        &params,
    )?;
    entries_from_rows(&found)
}

/// The pattern that matches the texts in which `search_term` stands.
pub open spec fn search_pattern(search_term: Seq<char>) -> Seq<char> {
    seq!['%'] + search_term + seq!['%']
}

/// Builds [`search_pattern`].
pub fn pattern_for(search_term: &str) -> (pattern: String)
    ensures
        pattern@ == search_pattern(search_term@),
{
    let mut out: Vec<char> = Vec::new();
    out.push('%');
    push_str(&mut out, search_term);
    out.push('%');
    to_text(out.as_slice())
}

/// The last `limit` statements of the server `server_id` in which
/// `search_term` stands, in any case of letters, each once, the latest
/// first.
pub fn search_query_history_dedup(
    conn: &rusqlite::Connection,
    server_id: &str,
    search_term: &str,
    limit: usize,
) -> (r: Result<Vec<QueryHistoryEntry>, StoreError>)
    ensures
        r is Err ==> r->Err_0 is Database || r->Err_0 is InvalidRow,
{
    let mut params = one_param(server_id);
    params.push(SqlParam::Text(pattern_for(search_term)));
    params.push(limit_param(limit));
    let found = rows(
        conn,
        "SELECT id, server_id, sql, normalized_sql, last_executed_at, execution_count
         FROM query_history_dedup
         WHERE server_id = ? AND sql LIKE ? ESCAPE '\\'
         ORDER BY last_executed_at DESC
         LIMIT ?",
        &params,
    )?;
    entries_from_rows(&found)
}

/// Takes the entry `entry_id` out of the history that holds each statement
/// once.
pub fn delete_query_history_entry(conn: &rusqlite::Connection, entry_id: &str) -> (r: Result<
    (),
    StoreError,
>)
    ensures
        r is Err ==> r->Err_0 is Database,
{
    run(conn, "DELETE FROM query_history_dedup WHERE id = ?", &one_param(entry_id))
}

/// Empties the history of the server `server_id` that holds each statement
/// once.
pub fn clear_query_history_dedup(conn: &rusqlite::Connection, server_id: &str) -> (r: Result<
    (),
    StoreError,
>)
    ensures
        r is Err ==> r->Err_0 is Database,
{
    run(conn, "DELETE FROM query_history_dedup WHERE server_id = ?", &one_param(server_id))
}

/// Deletes what the store holds of the schemas of the server `server_id`:
/// indexes and columns first, then tables, then the schemas.
fn delete_schema_data(conn: &rusqlite::Connection, server_id: &str) -> (r: Result<(), StoreError>)
    ensures
        r is Err ==> r->Err_0 is Database,
{
    let params = one_param(server_id);
    run(
        conn,
        "DELETE FROM indexes WHERE table_id IN
         (SELECT id FROM tables WHERE schema_id IN
          (SELECT id FROM schemas WHERE server_id = ?))",
        &params,
    )?;
    run(
        conn,
        "DELETE FROM columns WHERE table_id IN
         (SELECT id FROM tables WHERE schema_id IN
          (SELECT id FROM schemas WHERE server_id = ?))",
        &params,
    )?;
    run(
        conn,
        "DELETE FROM tables WHERE schema_id IN
         (SELECT id FROM schemas WHERE server_id = ?)",
        &params,
    )?;
    run(conn, "DELETE FROM schemas WHERE server_id = ?", &params)
}

/// Forgets the schemas of the server `server_id` with their tables,
/// columns and indexes, or changes nothing.
pub fn clear_server_schema_data(conn: &rusqlite::Connection, server_id: &str) -> (r: Result<
    (),
    StoreError,
>)
    ensures
        r is Err ==> r->Err_0 is Database,
{
    batch(conn, "BEGIN DEFERRED")?;
    let outcome = delete_schema_data(conn, server_id);
    end_transaction(conn, outcome)
}

fn replace_schema_data(
    conn: &rusqlite::Connection,
    server_id: &str,
    schemas: &[Schema],
    tables: &[Table],
    columns: &[Column],
    indexes: &[Index],
) -> (r: Result<(), StoreError>)
    ensures
        r is Err ==> r->Err_0 is Database,
{
    delete_schema_data(conn, server_id)?;
    insert_schemas(conn, schemas)?;
    insert_tables(conn, tables)?;
    insert_columns(conn, columns)?;
    insert_indexes(conn, indexes)
}

/// Puts `schemas`, `tables`, `columns` and `indexes` in the place of what
/// the store holds of the schemas of the server `server_id`, or changes
/// nothing.
pub fn refresh_server_schema(
    conn: &rusqlite::Connection,
    server_id: &str,
    schemas: &[Schema],
    tables: &[Table],
    columns: &[Column],
    indexes: &[Index],
) -> (r: Result<(), StoreError>)
    ensures
        r is Err ==> r->Err_0 is Database,
{
    batch(conn, "BEGIN DEFERRED")?;
    let outcome = replace_schema_data(conn, server_id, schemas, tables, columns, indexes);
    end_transaction(conn, outcome)
}

/// The time before which a schema is stale at `now`, where it is stale
/// after `threshold_seconds`: that much before `now`, or as far back as
/// time is counted.
pub open spec fn stale_before(now: i64, threshold_seconds: i64) -> int {
    if now - threshold_seconds < i64::MIN {
        i64::MIN as int
    } else if now - threshold_seconds > i64::MAX {
        i64::MAX as int
    } else {
        now - threshold_seconds
    }
}

/// Computes [`stale_before`].
pub fn cutoff(now: i64, threshold_seconds: i64) -> (at: i64)
    ensures
        at == stale_before(now, threshold_seconds),
{
    let wide: i128 = now as i128 - threshold_seconds as i128;
    if wide < -0x8000_0000_0000_0000 {
        -0x8000_0000_0000_0000
    } else if wide > 0x7fff_ffff_ffff_ffff {
        0x7fff_ffff_ffff_ffff
    } else {
        wide as i64
    }
}

/// Whether `rows` hold a count above zero in their first row.
pub open spec fn counts_some(rows: Seq<Vec<SqlValue>>) -> bool {
    rows.len() > 0 && rows[0]@.len() == 1 && holds_integer(rows[0]@[0]) && integer_of(rows[0]@[0])
        > 0
}

/// Whether the count that `rows` hold is above zero. The rows must hold
/// one integer in their first row.
pub fn any_counted(rows: &Vec<Vec<SqlValue>>) -> (r: Result<bool, StoreError>)
    ensures
        match r {
            Ok(b) => rows@.len() > 0 && rows@[0]@.len() == 1 && holds_integer(rows@[0]@[0]) && b
                == counts_some(rows@),
            Err(e) => e is InvalidRow && !(rows@.len() > 0 && rows@[0]@.len() == 1
                && holds_integer(rows@[0]@[0])),
        },
{
    if rows.len() == 0 || rows[0].len() != 1 {
        return Err(StoreError::InvalidRow);
    }
    match integer_at(&rows[0], 0) {
        Some(n) => Ok(n > 0),
        None => Err(StoreError::InvalidRow),
    }
}

/// Whether a schema of the server `server_id` was last seen more than
/// `threshold_seconds` ago.
pub fn is_schema_stale(conn: &rusqlite::Connection, server_id: &str, threshold_seconds: i64) -> (r:
    Result<bool, StoreError>)
    ensures
        r is Err ==> r->Err_0 is Database || r->Err_0 is InvalidRow,
{
    let mut params = one_param(server_id);
    params.push(SqlParam::Integer(cutoff(now_seconds(), threshold_seconds)));
    let found = rows(
        conn,
        "SELECT COUNT(*) FROM schemas WHERE server_id = ? AND last_updated < ?",
        &params,
    )?;
    any_counted(&found)
}

} // verus!

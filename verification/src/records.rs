//! The records of the metadata store, and how each is read from a row and
//! bound to a statement.
use crate::rows::{
    binds_optional_integer, binds_optional_text, holds_integer, holds_optional_integer,
    holds_optional_text, holds_small_integer, holds_text, integer_at, integer_of,
    optional_integer_at, optional_integer_matches, optional_integer_param, optional_text_at,
    optional_text_matches, optional_text_param, small_integer_at, text_at, text_of, text_param,
    SqlParam, SqlValue, StoreError,
};
use vstd::prelude::*;

verus! {

/// A server that the user has saved.
#[derive(Clone, Debug, PartialEq, Eq)]
pub struct Server {
    pub id: String,
    pub name: String,
    pub host: String,
    pub port: i32,
    pub database: String,
    pub username: String,
    /// The key of the password in the credential store.
    pub credential_key: String,
    pub group_name: Option<String>,
    pub last_connected: Option<i64>,
}

/// Whether `row` holds what a [`Server`] is read from.
pub open spec fn is_server_row(row: Seq<SqlValue>) -> bool {
    &&& row.len() == 9
    &&& holds_text(row[0])
    &&& holds_text(row[1])
    &&& holds_text(row[2])
    &&& holds_small_integer(row[3])
    &&& holds_text(row[4])
    &&& holds_text(row[5])
    &&& holds_text(row[6])
    &&& holds_optional_text(row[7])
    &&& holds_optional_integer(row[8])
}

/// Whether `server` is what `row` holds.
pub open spec fn server_matches(server: Server, row: Seq<SqlValue>) -> bool {
    &&& server.id@ == text_of(row[0])
    &&& server.name@ == text_of(row[1])
    &&& server.host@ == text_of(row[2])
    &&& server.port == integer_of(row[3])
    &&& server.database@ == text_of(row[4])
    &&& server.username@ == text_of(row[5])
    &&& server.credential_key@ == text_of(row[6])
    &&& optional_text_matches(server.group_name, row[7])
    &&& optional_integer_matches(server.last_connected, row[8])
}

/// Whether `params` are the fields of `server`, in order.
pub open spec fn binds_server(params: Seq<SqlParam>, server: Server) -> bool {
    &&& params.len() == 9
    &&& params[0] is Text && params[0]->Text_0@ == server.id@
    &&& params[1] is Text && params[1]->Text_0@ == server.name@
    &&& params[2] is Text && params[2]->Text_0@ == server.host@
    &&& params[3] == SqlParam::Integer(server.port as i64)
    &&& params[4] is Text && params[4]->Text_0@ == server.database@
    &&& params[5] is Text && params[5]->Text_0@ == server.username@
    &&& params[6] is Text && params[6]->Text_0@ == server.credential_key@
    &&& binds_optional_text(params[7], server.group_name)
    &&& binds_optional_integer(params[8], server.last_connected)
}

/// Reads a [`Server`] from a row, which must hold its fields in order.
pub fn server_from_row(row: &Vec<SqlValue>) -> (r: Result<Server, StoreError>)
    ensures
        match r {
            Ok(server) => is_server_row(row@) && server_matches(server, row@),
            Err(e) => !is_server_row(row@) && e is InvalidRow,
        },
{
    if row.len() != 9 {
        return Err(StoreError::InvalidRow);
    }
    let id = match text_at(row, 0) {
        Some(v) => v,
        None => {
            return Err(StoreError::InvalidRow);
        },
    };
    let name = match text_at(row, 1) {
        Some(v) => v,
        None => {
            return Err(StoreError::InvalidRow);
        },
    };
    let host = match text_at(row, 2) {
        Some(v) => v,
        None => {
            return Err(StoreError::InvalidRow);
        },
    };
    let port = match small_integer_at(row, 3) {
        Some(v) => v,
        None => {
            return Err(StoreError::InvalidRow);
        },
    };
    let database = match text_at(row, 4) {
        Some(v) => v,
        None => {
            return Err(StoreError::InvalidRow);
        },
    };
    let username = match text_at(row, 5) {
        Some(v) => v,
        None => {
            return Err(StoreError::InvalidRow);
        },
    };
    let credential_key = match text_at(row, 6) {
        Some(v) => v,
        None => {
            return Err(StoreError::InvalidRow);
        },
    };
    let group_name = match optional_text_at(row, 7) {
        Some(v) => v,
        None => {
            return Err(StoreError::InvalidRow);
        },
    };
    let last_connected = match optional_integer_at(row, 8) {
        Some(v) => v,
        None => {
            return Err(StoreError::InvalidRow);
        },
    };
    Ok(Server { id, name, host, port, database, username, credential_key, group_name, last_connected })
}

/// Reads a [`Server`] from each row, in order.
pub fn servers_from_rows(rows: &Vec<Vec<SqlValue>>) -> (r: Result<Vec<Server>, StoreError>)
    ensures
        match r {
            Ok(all) => all@.len() == rows@.len() && forall|i: int|
                0 <= i < rows@.len() ==> is_server_row(#[trigger] rows@[i]@) && server_matches(
                    all@[i],
                    rows@[i]@,
                ),
            Err(e) => e is InvalidRow && exists|i: int|
                0 <= i < rows@.len() && !is_server_row(#[trigger] rows@[i]@),
        },
{
    let mut all: Vec<Server> = Vec::new();
    let mut i: usize = 0;
    while i < rows.len()
        invariant
            i <= rows@.len(),
            all@.len() == i,
            forall|j: int|
                0 <= j < i ==> is_server_row(#[trigger] rows@[j]@) && server_matches(
                    all@[j],
                    rows@[j]@,
                ),
        decreases rows@.len() - i,
    {
        match server_from_row(&rows[i]) {
            Ok(server) => all.push(server),
            Err(e) => {
                assert(!is_server_row(rows@[i as int]@));
                return Err(e);
            },
        }
        i += 1;
    }
    Ok(all)
}

/// The fields of `server`, in order, as a statement binds them.
pub fn server_params(server: &Server) -> (params: Vec<SqlParam>)
    ensures
        binds_server(params@, *server),
{
    let mut params: Vec<SqlParam> = Vec::new();
    params.push(text_param(&server.id));
    params.push(text_param(&server.name));
    params.push(text_param(&server.host));
    params.push(SqlParam::Integer(server.port as i64));
    params.push(text_param(&server.database));
    params.push(text_param(&server.username));
    params.push(text_param(&server.credential_key));
    params.push(optional_text_param(&server.group_name));
    params.push(optional_integer_param(server.last_connected));
    params
}

/// A schema of a server, as last seen.
#[derive(Clone, Debug, PartialEq, Eq)]
pub struct Schema {
    pub id: String,
    pub server_id: String,
    pub name: String,
    pub last_updated: i64,
}

/// Whether `row` holds what a [`Schema`] is read from.
pub open spec fn is_schema_row(row: Seq<SqlValue>) -> bool {
    &&& row.len() == 4
    &&& holds_text(row[0])
    &&& holds_text(row[1])
    &&& holds_text(row[2])
    &&& holds_integer(row[3])
}

/// Whether `schema` is what `row` holds.
pub open spec fn schema_matches(schema: Schema, row: Seq<SqlValue>) -> bool {
    &&& schema.id@ == text_of(row[0])
    &&& schema.server_id@ == text_of(row[1])
    &&& schema.name@ == text_of(row[2])
    &&& schema.last_updated == integer_of(row[3])
}

/// Whether `params` are the fields of `schema`, in order.
pub open spec fn binds_schema(params: Seq<SqlParam>, schema: Schema) -> bool {
    &&& params.len() == 4
    &&& params[0] is Text && params[0]->Text_0@ == schema.id@
    &&& params[1] is Text && params[1]->Text_0@ == schema.server_id@
    &&& params[2] is Text && params[2]->Text_0@ == schema.name@
    &&& params[3] == SqlParam::Integer(schema.last_updated)
}

/// Reads a [`Schema`] from a row, which must hold its fields in order.
pub fn schema_from_row(row: &Vec<SqlValue>) -> (r: Result<Schema, StoreError>)
    ensures
        match r {
            Ok(schema) => is_schema_row(row@) && schema_matches(schema, row@),
            Err(e) => !is_schema_row(row@) && e is InvalidRow,
        },
{
    if row.len() != 4 {
        return Err(StoreError::InvalidRow);
    }
    let id = match text_at(row, 0) {
        Some(v) => v,
        None => {
            return Err(StoreError::InvalidRow);
        },
    };
    let server_id = match text_at(row, 1) {
        Some(v) => v,
        None => {
            return Err(StoreError::InvalidRow);
        },
    };
    let name = match text_at(row, 2) {
        Some(v) => v,
        None => {
            return Err(StoreError::InvalidRow);
        },
    };
    let last_updated = match integer_at(row, 3) {
        Some(v) => v,
        None => {
            return Err(StoreError::InvalidRow);
        },
    };
    Ok(Schema { id, server_id, name, last_updated })
}

/// Reads a [`Schema`] from each row, in order.
pub fn schemas_from_rows(rows: &Vec<Vec<SqlValue>>) -> (r: Result<Vec<Schema>, StoreError>)
    ensures
        match r {
            Ok(all) => all@.len() == rows@.len() && forall|i: int|
                0 <= i < rows@.len() ==> is_schema_row(#[trigger] rows@[i]@) && schema_matches(
                    all@[i],
                    rows@[i]@,
                ),
            Err(e) => e is InvalidRow && exists|i: int|
                0 <= i < rows@.len() && !is_schema_row(#[trigger] rows@[i]@),
        },
{
    let mut all: Vec<Schema> = Vec::new();
    let mut i: usize = 0;
    while i < rows.len()
        invariant
            i <= rows@.len(),
            all@.len() == i,
            forall|j: int|
                0 <= j < i ==> is_schema_row(#[trigger] rows@[j]@) && schema_matches(
                    all@[j],
                    rows@[j]@,
                ),
        decreases rows@.len() - i,
    {
        match schema_from_row(&rows[i]) {
            Ok(schema) => all.push(schema),
            Err(e) => {
                assert(!is_schema_row(rows@[i as int]@));
                return Err(e);
            },
        }
        i += 1;
    }
    Ok(all)
}

/// The fields of `schema`, in order, as a statement binds them.
pub fn schema_params(schema: &Schema) -> (params: Vec<SqlParam>)
    ensures
        binds_schema(params@, *schema),
{
    let mut params: Vec<SqlParam> = Vec::new();
    params.push(text_param(&schema.id));
    params.push(text_param(&schema.server_id));
    params.push(text_param(&schema.name));
    params.push(SqlParam::Integer(schema.last_updated));
    params
}

/// A table or view of a schema.
#[derive(Clone, Debug, PartialEq, Eq)]
pub struct Table {
    pub id: String,
    pub schema_id: String,
    pub name: String,
    pub type_: String,
}

/// Whether `row` holds what a [`Table`] is read from.
pub open spec fn is_table_row(row: Seq<SqlValue>) -> bool {
    &&& row.len() == 4
    &&& holds_text(row[0])
    &&& holds_text(row[1])
    &&& holds_text(row[2])
    &&& holds_text(row[3])
}

/// Whether `table` is what `row` holds.
pub open spec fn table_matches(table: Table, row: Seq<SqlValue>) -> bool {
    &&& table.id@ == text_of(row[0])
    &&& table.schema_id@ == text_of(row[1])
    &&& table.name@ == text_of(row[2])
    &&& table.type_@ == text_of(row[3])
}

/// Whether `params` are the fields of `table`, in order.
pub open spec fn binds_table(params: Seq<SqlParam>, table: Table) -> bool {
    &&& params.len() == 4
    &&& params[0] is Text && params[0]->Text_0@ == table.id@
    &&& params[1] is Text && params[1]->Text_0@ == table.schema_id@
    &&& params[2] is Text && params[2]->Text_0@ == table.name@
    &&& params[3] is Text && params[3]->Text_0@ == table.type_@
}

/// Reads a [`Table`] from a row, which must hold its fields in order.
pub fn table_from_row(row: &Vec<SqlValue>) -> (r: Result<Table, StoreError>)
    ensures
        match r {
            Ok(table) => is_table_row(row@) && table_matches(table, row@),
            Err(e) => !is_table_row(row@) && e is InvalidRow,
        },
{
    if row.len() != 4 {
        return Err(StoreError::InvalidRow);
    }
    let id = match text_at(row, 0) {
        Some(v) => v,
        None => {
            return Err(StoreError::InvalidRow);
        },
    };
    let schema_id = match text_at(row, 1) {
        Some(v) => v,
        None => {
            return Err(StoreError::InvalidRow);
        },
    };
    let name = match text_at(row, 2) {
        Some(v) => v,
        None => {
            return Err(StoreError::InvalidRow);
        },
    };
    let type_ = match text_at(row, 3) {
        Some(v) => v,
        None => {
            return Err(StoreError::InvalidRow);
        },
    };
    Ok(Table { id, schema_id, name, type_ })
}

/// Reads a [`Table`] from each row, in order.
pub fn tables_from_rows(rows: &Vec<Vec<SqlValue>>) -> (r: Result<Vec<Table>, StoreError>)
    ensures
        match r {
            Ok(all) => all@.len() == rows@.len() && forall|i: int|
                0 <= i < rows@.len() ==> is_table_row(#[trigger] rows@[i]@) && table_matches(
                    all@[i],
                    rows@[i]@,
                ),
            Err(e) => e is InvalidRow && exists|i: int|
                0 <= i < rows@.len() && !is_table_row(#[trigger] rows@[i]@),
        },
{
    let mut all: Vec<Table> = Vec::new();
    let mut i: usize = 0;
    while i < rows.len()
        invariant
            i <= rows@.len(),
            all@.len() == i,
            forall|j: int|
                0 <= j < i ==> is_table_row(#[trigger] rows@[j]@) && table_matches(
                    all@[j],
                    rows@[j]@,
                ),
        decreases rows@.len() - i,
    {
        match table_from_row(&rows[i]) {
            Ok(table) => all.push(table),
            Err(e) => {
                assert(!is_table_row(rows@[i as int]@));
                return Err(e);
            },
        }
        i += 1;
    }
    Ok(all)
}

/// The fields of `table`, in order, as a statement binds them.
pub fn table_params(table: &Table) -> (params: Vec<SqlParam>)
    ensures
        binds_table(params@, *table),
{
    let mut params: Vec<SqlParam> = Vec::new();
    params.push(text_param(&table.id));
    params.push(text_param(&table.schema_id));
    params.push(text_param(&table.name));
    params.push(text_param(&table.type_));
    params
}

/// A column of a table.
#[derive(Clone, Debug, PartialEq, Eq)]
pub struct Column {
    pub id: String,
    pub table_id: String,
    pub name: String,
    pub data_type: String,
    pub nullable: i32,
}

/// Whether `row` holds what a [`Column`] is read from.
pub open spec fn is_column_row(row: Seq<SqlValue>) -> bool {
    &&& row.len() == 5
    &&& holds_text(row[0])
    &&& holds_text(row[1])
    &&& holds_text(row[2])
    &&& holds_text(row[3])
    &&& holds_small_integer(row[4])
}

/// Whether `column` is what `row` holds.
pub open spec fn column_matches(column: Column, row: Seq<SqlValue>) -> bool {
    &&& column.id@ == text_of(row[0])
    &&& column.table_id@ == text_of(row[1])
    &&& column.name@ == text_of(row[2])
    &&& column.data_type@ == text_of(row[3])
    &&& column.nullable == integer_of(row[4])
}

/// Whether `params` are the fields of `column`, in order.
pub open spec fn binds_column(params: Seq<SqlParam>, column: Column) -> bool {
    &&& params.len() == 5
    &&& params[0] is Text && params[0]->Text_0@ == column.id@
    &&& params[1] is Text && params[1]->Text_0@ == column.table_id@
    &&& params[2] is Text && params[2]->Text_0@ == column.name@
    &&& params[3] is Text && params[3]->Text_0@ == column.data_type@
    &&& params[4] == SqlParam::Integer(column.nullable as i64)
}

/// Reads a [`Column`] from a row, which must hold its fields in order.
pub fn column_from_row(row: &Vec<SqlValue>) -> (r: Result<Column, StoreError>)
    ensures
        match r {
            Ok(column) => is_column_row(row@) && column_matches(column, row@),
            Err(e) => !is_column_row(row@) && e is InvalidRow,
        },
{
    if row.len() != 5 {
        return Err(StoreError::InvalidRow);
    }
    let id = match text_at(row, 0) {
        Some(v) => v,
        None => {
            return Err(StoreError::InvalidRow);
        },
    };
    let table_id = match text_at(row, 1) {
        Some(v) => v,
        None => {
            return Err(StoreError::InvalidRow);
        },
    };
    let name = match text_at(row, 2) {
        Some(v) => v,
        None => {
            return Err(StoreError::InvalidRow);
        },
    };
    let data_type = match text_at(row, 3) {
        Some(v) => v,
        None => {
            return Err(StoreError::InvalidRow);
        },
    };
    let nullable = match small_integer_at(row, 4) {
        Some(v) => v,
        None => {
            return Err(StoreError::InvalidRow);
        },
    };
    Ok(Column { id, table_id, name, data_type, nullable })
}

/// Reads a [`Column`] from each row, in order.
pub fn columns_from_rows(rows: &Vec<Vec<SqlValue>>) -> (r: Result<Vec<Column>, StoreError>)
    ensures
        match r {
            Ok(all) => all@.len() == rows@.len() && forall|i: int|
                0 <= i < rows@.len() ==> is_column_row(#[trigger] rows@[i]@) && column_matches(
                    all@[i],
                    rows@[i]@,
                ),
            Err(e) => e is InvalidRow && exists|i: int|
                0 <= i < rows@.len() && !is_column_row(#[trigger] rows@[i]@),
        },
{
    let mut all: Vec<Column> = Vec::new();
    let mut i: usize = 0;
    while i < rows.len()
        invariant
            i <= rows@.len(),
            all@.len() == i,
            forall|j: int|
                0 <= j < i ==> is_column_row(#[trigger] rows@[j]@) && column_matches(
                    all@[j],
                    rows@[j]@,
                ),
        decreases rows@.len() - i,
    {
        match column_from_row(&rows[i]) {
            Ok(column) => all.push(column),
            Err(e) => {
                assert(!is_column_row(rows@[i as int]@));
                return Err(e);
            },
        }
        i += 1;
    }
    Ok(all)
}

/// The fields of `column`, in order, as a statement binds them.
pub fn column_params(column: &Column) -> (params: Vec<SqlParam>)
    ensures
        binds_column(params@, *column),
{
    let mut params: Vec<SqlParam> = Vec::new();
    params.push(text_param(&column.id));
    params.push(text_param(&column.table_id));
    params.push(text_param(&column.name));
    params.push(text_param(&column.data_type));
    params.push(SqlParam::Integer(column.nullable as i64));
    params
}

/// An index of a table.
#[derive(Clone, Debug, PartialEq, Eq)]
pub struct Index {
    pub id: String,
    pub table_id: String,
    pub name: String,
    pub definition: String,
}

/// Whether `row` holds what a [`Index`] is read from.
pub open spec fn is_index_row(row: Seq<SqlValue>) -> bool {
    &&& row.len() == 4
    &&& holds_text(row[0])
    &&& holds_text(row[1])
    &&& holds_text(row[2])
    &&& holds_text(row[3])
}

/// Whether `index` is what `row` holds.
pub open spec fn index_matches(index: Index, row: Seq<SqlValue>) -> bool {
    &&& index.id@ == text_of(row[0])
    &&& index.table_id@ == text_of(row[1])
    &&& index.name@ == text_of(row[2])
    &&& index.definition@ == text_of(row[3])
}

/// Whether `params` are the fields of `index`, in order.
pub open spec fn binds_index(params: Seq<SqlParam>, index: Index) -> bool {
    &&& params.len() == 4
    &&& params[0] is Text && params[0]->Text_0@ == index.id@
    &&& params[1] is Text && params[1]->Text_0@ == index.table_id@
    &&& params[2] is Text && params[2]->Text_0@ == index.name@
    &&& params[3] is Text && params[3]->Text_0@ == index.definition@
}

/// Reads a [`Index`] from a row, which must hold its fields in order.
pub fn index_from_row(row: &Vec<SqlValue>) -> (r: Result<Index, StoreError>)
    ensures
        match r {
            Ok(index) => is_index_row(row@) && index_matches(index, row@),
            Err(e) => !is_index_row(row@) && e is InvalidRow,
        },
{
    if row.len() != 4 {
        return Err(StoreError::InvalidRow);
    }
    let id = match text_at(row, 0) {
        Some(v) => v,
        None => {
            return Err(StoreError::InvalidRow);
        },
    };
    let table_id = match text_at(row, 1) {
        Some(v) => v,
        None => {
            return Err(StoreError::InvalidRow);
        },
    };
    let name = match text_at(row, 2) {
        Some(v) => v,
        None => {
            return Err(StoreError::InvalidRow);
        },
    };
    let definition = match text_at(row, 3) {
        Some(v) => v,
        None => {
            return Err(StoreError::InvalidRow);
        },
    };
    Ok(Index { id, table_id, name, definition })
}

/// Reads a [`Index`] from each row, in order.
pub fn indexes_from_rows(rows: &Vec<Vec<SqlValue>>) -> (r: Result<Vec<Index>, StoreError>)
    ensures
        match r {
            Ok(all) => all@.len() == rows@.len() && forall|i: int|
                0 <= i < rows@.len() ==> is_index_row(#[trigger] rows@[i]@) && index_matches(
                    all@[i],
                    rows@[i]@,
                ),
            Err(e) => e is InvalidRow && exists|i: int|
                0 <= i < rows@.len() && !is_index_row(#[trigger] rows@[i]@),
        },
{
    let mut all: Vec<Index> = Vec::new();
    let mut i: usize = 0;
    while i < rows.len()
        invariant
            i <= rows@.len(),
            all@.len() == i,
            forall|j: int|
                0 <= j < i ==> is_index_row(#[trigger] rows@[j]@) && index_matches(
                    all@[j],
                    rows@[j]@,
                ),
        decreases rows@.len() - i,
    {
        match index_from_row(&rows[i]) {
            Ok(index) => all.push(index),
            Err(e) => {
                assert(!is_index_row(rows@[i as int]@));
                return Err(e);
            },
        }
        i += 1;
    }
    Ok(all)
}

/// The fields of `index`, in order, as a statement binds them.
pub fn index_params(index: &Index) -> (params: Vec<SqlParam>)
    ensures
        binds_index(params@, *index),
{
    let mut params: Vec<SqlParam> = Vec::new();
    params.push(text_param(&index.id));
    params.push(text_param(&index.table_id));
    params.push(text_param(&index.name));
    params.push(text_param(&index.definition));
    params
}

/// One execution of a statement.
#[derive(Clone, Debug, PartialEq, Eq)]
pub struct QueryHistory {
    pub id: String,
    pub server_id: String,
    pub sql: String,
    pub executed_at: i64,
    pub success: i32,
}

/// Whether `row` holds what a [`QueryHistory`] is read from.
pub open spec fn is_history_row(row: Seq<SqlValue>) -> bool {
    &&& row.len() == 5
    &&& holds_text(row[0])
    &&& holds_text(row[1])
    &&& holds_text(row[2])
    &&& holds_integer(row[3])
    &&& holds_small_integer(row[4])
}

/// Whether `history` is what `row` holds.
pub open spec fn history_matches(history: QueryHistory, row: Seq<SqlValue>) -> bool {
    &&& history.id@ == text_of(row[0])
    &&& history.server_id@ == text_of(row[1])
    &&& history.sql@ == text_of(row[2])
    &&& history.executed_at == integer_of(row[3])
    &&& history.success == integer_of(row[4])
}

/// Whether `params` are the fields of `history`, in order.
pub open spec fn binds_history(params: Seq<SqlParam>, history: QueryHistory) -> bool {
    &&& params.len() == 5
    &&& params[0] is Text && params[0]->Text_0@ == history.id@
    &&& params[1] is Text && params[1]->Text_0@ == history.server_id@
    &&& params[2] is Text && params[2]->Text_0@ == history.sql@
    &&& params[3] == SqlParam::Integer(history.executed_at)
    &&& params[4] == SqlParam::Integer(history.success as i64)
}

/// Reads a [`QueryHistory`] from a row, which must hold its fields in order.
pub fn history_from_row(row: &Vec<SqlValue>) -> (r: Result<QueryHistory, StoreError>)
    ensures
        match r {
            Ok(history) => is_history_row(row@) && history_matches(history, row@),
            Err(e) => !is_history_row(row@) && e is InvalidRow,
        },
{
    if row.len() != 5 {
        return Err(StoreError::InvalidRow);
    }
    let id = match text_at(row, 0) {
        Some(v) => v,
        None => {
            return Err(StoreError::InvalidRow);
        },
    };
    let server_id = match text_at(row, 1) {
        Some(v) => v,
        None => {
            return Err(StoreError::InvalidRow);
        },
    };
    let sql = match text_at(row, 2) {
        Some(v) => v,
        None => {
            return Err(StoreError::InvalidRow);
        },
    };
    let executed_at = match integer_at(row, 3) {
        Some(v) => v,
        None => {
            return Err(StoreError::InvalidRow);
        },
    };
    let success = match small_integer_at(row, 4) {
        Some(v) => v,
        None => {
            return Err(StoreError::InvalidRow);
        },
    };
    Ok(QueryHistory { id, server_id, sql, executed_at, success })
}

/// Reads a [`QueryHistory`] from each row, in order.
pub fn history_from_rows(rows: &Vec<Vec<SqlValue>>) -> (r: Result<Vec<QueryHistory>, StoreError>)
    ensures
        match r {
            Ok(all) => all@.len() == rows@.len() && forall|i: int|
                0 <= i < rows@.len() ==> is_history_row(#[trigger] rows@[i]@) && history_matches(
                    all@[i],
                    rows@[i]@,
                ),
            Err(e) => e is InvalidRow && exists|i: int|
                0 <= i < rows@.len() && !is_history_row(#[trigger] rows@[i]@),
        },
{
    let mut all: Vec<QueryHistory> = Vec::new();
    let mut i: usize = 0;
    while i < rows.len()
        invariant
            i <= rows@.len(),
            all@.len() == i,
            forall|j: int|
                0 <= j < i ==> is_history_row(#[trigger] rows@[j]@) && history_matches(
                    all@[j],
                    rows@[j]@,
                ),
        decreases rows@.len() - i,
    {
        match history_from_row(&rows[i]) {
            Ok(history) => all.push(history),
            Err(e) => {
                assert(!is_history_row(rows@[i as int]@));
                return Err(e);
            },
        }
        i += 1;
    }
    Ok(all)
}

/// The fields of `history`, in order, as a statement binds them.
pub fn history_params(history: &QueryHistory) -> (params: Vec<SqlParam>)
    ensures
        binds_history(params@, *history),
{
    let mut params: Vec<SqlParam> = Vec::new();
    params.push(text_param(&history.id));
    params.push(text_param(&history.server_id));
    params.push(text_param(&history.sql));
    params.push(SqlParam::Integer(history.executed_at));
    params.push(SqlParam::Integer(history.success as i64));
    params
}

/// A statement of the history, held once however often it ran.
#[derive(Clone, Debug, PartialEq, Eq)]
pub struct QueryHistoryEntry {
    pub id: String,
    pub server_id: String,
    /// The text as last executed.
    pub sql: String,
    /// The text with its white space collapsed, by which entries are told apart.
    pub normalized_sql: String,
    /// When it last ran, in seconds since the epoch.
    pub last_executed_at: i64,
    /// How often it ran.
    pub execution_count: i64,
}

/// Whether `row` holds what a [`QueryHistoryEntry`] is read from.
pub open spec fn is_entry_row(row: Seq<SqlValue>) -> bool {
    &&& row.len() == 6
    &&& holds_text(row[0])
    &&& holds_text(row[1])
    &&& holds_text(row[2])
    &&& holds_text(row[3])
    &&& holds_integer(row[4])
    &&& holds_integer(row[5])
}

/// Whether `entry` is what `row` holds.
pub open spec fn entry_matches(entry: QueryHistoryEntry, row: Seq<SqlValue>) -> bool {
    &&& entry.id@ == text_of(row[0])
    &&& entry.server_id@ == text_of(row[1])
    &&& entry.sql@ == text_of(row[2])
    &&& entry.normalized_sql@ == text_of(row[3])
    &&& entry.last_executed_at == integer_of(row[4])
    &&& entry.execution_count == integer_of(row[5])
}

/// Reads a [`QueryHistoryEntry`] from a row, which must hold its fields in order.
pub fn entry_from_row(row: &Vec<SqlValue>) -> (r: Result<QueryHistoryEntry, StoreError>)
    ensures
        match r {
            Ok(entry) => is_entry_row(row@) && entry_matches(entry, row@),
            Err(e) => !is_entry_row(row@) && e is InvalidRow,
        },
{
    if row.len() != 6 {
        return Err(StoreError::InvalidRow);
    }
    let id = match text_at(row, 0) {
        Some(v) => v,
        None => {
            return Err(StoreError::InvalidRow);
        },
    };
    let server_id = match text_at(row, 1) {
        Some(v) => v,
        None => {
            return Err(StoreError::InvalidRow);
        },
    };
    let sql = match text_at(row, 2) {
        Some(v) => v,
        None => {
            return Err(StoreError::InvalidRow);
        },
    };
    let normalized_sql = match text_at(row, 3) {
        Some(v) => v,
        None => {
            return Err(StoreError::InvalidRow);
        },
    };
    let last_executed_at = match integer_at(row, 4) {
        Some(v) => v,
        None => {
            return Err(StoreError::InvalidRow);
        },
    };
    let execution_count = match integer_at(row, 5) {
        Some(v) => v,
        None => {
            return Err(StoreError::InvalidRow);
        },
    };
    Ok(QueryHistoryEntry { id, server_id, sql, normalized_sql, last_executed_at, execution_count })
}

/// Reads a [`QueryHistoryEntry`] from each row, in order.
pub fn entries_from_rows(rows: &Vec<Vec<SqlValue>>) -> (r: Result<Vec<QueryHistoryEntry>, StoreError>)
    ensures
        match r {
            Ok(all) => all@.len() == rows@.len() && forall|i: int|
                0 <= i < rows@.len() ==> is_entry_row(#[trigger] rows@[i]@) && entry_matches(
                    all@[i],
                    rows@[i]@,
                ),
            Err(e) => e is InvalidRow && exists|i: int|
                0 <= i < rows@.len() && !is_entry_row(#[trigger] rows@[i]@),
        },
{
    let mut all: Vec<QueryHistoryEntry> = Vec::new();
    let mut i: usize = 0;
    while i < rows.len()
        invariant
            i <= rows@.len(),
            all@.len() == i,
            forall|j: int|
                0 <= j < i ==> is_entry_row(#[trigger] rows@[j]@) && entry_matches(
                    all@[j],
                    rows@[j]@,
                ),
        decreases rows@.len() - i,
    {
        match entry_from_row(&rows[i]) {
            Ok(entry) => all.push(entry),
            Err(e) => {
                assert(!is_entry_row(rows@[i as int]@));
                return Err(e);
            },
        }
        i += 1;
    }
    Ok(all)
}

/// The names that a server offers for completion.
#[derive(Clone, Debug, PartialEq, Eq)]
pub struct AutocompleteItems {
    pub tables: Vec<String>,
    pub columns: Vec<String>,
    pub indexes: Vec<String>,
}

} // verus!

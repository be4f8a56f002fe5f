use fastdb::commands::{
    affected_result, completion_message, data_line, history_limit, message_result, names_given, preview,
    refreshes_schema, rows_result, search_query_history, summary, system_time_to_epoch_millis,
    target_database, wire_type, ColumnInfo, ScriptRun, WireType, DEFAULT_HISTORY_LIMIT,
    PREVIEW_LENGTH,
};
use fastdb::error::{EngineError, ServerError, StatementFailure};
use fastdb::export::{
    add_constraint_statement, column_definition, copy_in_statement, copy_out_statement,
    create_sequence_statement, create_table_statement, create_view_statement, index_statement,
    is_listed, join, schema_exported, schema_header, table_exported, table_header,
};
use fastdb::lexer::{Event, MalformedInput};
use fastdb::records::Server;
use fastdb::schema::{index_records, nullable_flag, SchemaSnapshot};
use fastdb::script::split_script;
use fastdb::sql::SchemaChange;

fn store_with_server(id: &str) -> rusqlite::Connection {
    let conn = rusqlite::Connection::open_in_memory().unwrap();
    fastdb::db::init_db(&conn).unwrap();
    let server = Server {
        id: id.to_string(),
        name: "One".to_string(),
        host: "localhost".to_string(),
        port: 5432,
        database: "db".to_string(),
        username: "user".to_string(),
        credential_key: "key".to_string(),
        group_name: None,
        last_connected: None,
    };
    fastdb::db::add_server(&conn, &server).unwrap();
    conn
}

fn strings(items: &[&str]) -> Vec<String> {
    items.iter().map(|s| s.to_string()).collect()
}

#[test]
fn wire_types_default_to_text() {
    assert_eq!(wire_type("void"), WireType::Void);
    assert_eq!(wire_type("int4"), WireType::Int4);
    assert_eq!(wire_type("int8"), WireType::Int8);
    assert_eq!(wire_type("float4"), WireType::Float4);
    assert_eq!(wire_type("float8"), WireType::Float8);
    assert_eq!(wire_type("bool"), WireType::Bool);
    assert_eq!(wire_type("text"), WireType::Text);
    assert_eq!(wire_type("varchar"), WireType::Text);
    assert_eq!(wire_type("numeric"), WireType::Text);
    assert_eq!(wire_type("_int4"), WireType::Text);
    assert_eq!(wire_type("INT4"), WireType::Text);
    assert_eq!(wire_type(""), WireType::Text);
}

#[test]
fn epoch_millis_must_fit() {
    assert_eq!(system_time_to_epoch_millis(Some(0)), Some(0));
    assert_eq!(system_time_to_epoch_millis(Some(1_700_000_000_123)), Some(1_700_000_000_123));
    assert_eq!(system_time_to_epoch_millis(Some(i64::MAX as u128)), Some(i64::MAX));
    assert_eq!(system_time_to_epoch_millis(Some(i64::MAX as u128 + 1)), None);
    assert_eq!(system_time_to_epoch_millis(None), None);
}

#[test]
fn target_database_falls_back_to_the_servers() {
    assert_eq!(target_database(Some("other".to_string()), "main"), "other");
    assert_eq!(target_database(Some("  ".to_string()), "main"), "main");
    assert_eq!(target_database(Some("".to_string()), "main"), "main");
    assert_eq!(target_database(None, "main"), "main");
    assert_eq!(target_database(Some(" x ".to_string()), "main"), " x ");
}

#[test]
fn blank_names_are_not_given() {
    assert!(names_given("public", "users"));
    assert!(!names_given(" ", "users"));
    assert!(!names_given("public", ""));
    assert!(!names_given("", "\t"));
}

#[test]
fn history_limit_defaults() {
    assert_eq!(history_limit(None), 500);
    assert_eq!(DEFAULT_HISTORY_LIMIT, 500);
    assert_eq!(history_limit(Some(3)), 3);
    assert_eq!(history_limit(Some(0)), 0);
}

#[test]
fn blank_search_returns_the_whole_history() {
    let conn = store_with_server("s1");
    fastdb::db::upsert_query_history_dedup(&conn, "s1", "SELECT 1", 1).unwrap();
    fastdb::db::upsert_query_history_dedup(&conn, "s1", "SELECT 100%", 2).unwrap();
    assert_eq!(search_query_history(&conn, "s1", "  ", None).unwrap().len(), 2);
    assert_eq!(search_query_history(&conn, "s1", "", Some(1)).unwrap().len(), 1);
    assert_eq!(search_query_history(&conn, "s1", "100", None).unwrap().len(), 1);
    assert_eq!(search_query_history(&conn, "s1", "select", None).unwrap().len(), 2);
    assert_eq!(search_query_history(&conn, "s1", "nothing", None).unwrap().len(), 0);
}

#[test]
fn schema_changes_are_reported() {
    assert_eq!(completion_message(Some(SchemaChange::CreateTable)), Some("Table created".to_string()));
    assert_eq!(completion_message(Some(SchemaChange::DropTable)), Some("Table dropped".to_string()));
    assert_eq!(completion_message(Some(SchemaChange::DropDatabase)), Some("Database dropped".to_string()));
    assert_eq!(completion_message(Some(SchemaChange::DropSchema)), Some("Schema dropped".to_string()));
    assert_eq!(completion_message(None), None);
    assert!(refreshes_schema(Some(SchemaChange::CreateTable)));
    assert!(refreshes_schema(Some(SchemaChange::DropSchema)));
    assert!(!refreshes_schema(None));
}

#[test]
fn results_hold_rows_or_a_count() {
    let columns = vec![ColumnInfo { name: "a".to_string(), type_: Some("Int4".to_string()) }];
    let rows = vec![serde_json::Value::Null, serde_json::Value::Bool(true)];
    let result = rows_result(columns.clone(), rows.clone(), None);
    assert_eq!(result.columns, columns);
    assert_eq!(result.rows, rows);
    assert_eq!(result.rows_affected, None);
    assert_eq!(result.message, None);
    let result = rows_result(vec![], vec![], Some(SchemaChange::CreateTable));
    assert!(result.columns.is_empty() && result.rows.is_empty());
    assert_eq!(result.rows_affected, None);
    assert_eq!(result.message, Some("Table created".to_string()));

    let result = affected_result(7, Some(SchemaChange::DropTable));
    assert!(result.columns.is_empty());
    assert!(result.rows.is_empty());
    assert_eq!(result.rows_affected, Some(7));
    assert_eq!(result.message, Some("Table dropped".to_string()));

    let result = message_result("done".to_string());
    assert!(result.columns.is_empty() && result.rows.is_empty());
    assert_eq!(result.rows_affected, None);
    assert_eq!(result.message, Some("done".to_string()));
}

#[test]
fn summary_counts_statements() {
    assert_eq!(summary("a.sql", 0), "Executed a.sql (0 statements)");
    assert_eq!(summary("a.sql", 1), "Executed a.sql (1 statement)");
    assert_eq!(summary("dump.sql", 12), "Executed dump.sql (12 statements)");
}

#[test]
fn preview_is_bounded() {
    assert_eq!(PREVIEW_LENGTH, 500);
    assert_eq!(preview("SELECT 1"), "SELECT 1");
    let long: String = std::iter::repeat('\u{e9}').take(501).collect();
    let shown = preview(&long);
    assert_eq!(shown.chars().count(), 500);
    assert!(long.starts_with(&shown));
    let exact: String = std::iter::repeat('x').take(500).collect();
    assert_eq!(preview(&exact), exact);
}

#[test]
fn script_run_counts_and_reports() {
    let mut run = ScriptRun::new();
    assert_eq!(run.executed(), 0);
    let mut events = Vec::new();
    for c in "SELECT 1; SELECT 2".chars() {
        if let Some(event) = run.feed(c) {
            events.push(event);
        }
    }
    assert_eq!(events, vec![Event::Statement("SELECT 1".to_string())]);
    run.statement_done();
    assert_eq!(run.executed(), 1);
    let failure = run.statement_failed("SELECT 2", ServerError::Other("boom".to_string()));
    assert_eq!(
        failure,
        EngineError::StatementFailure(StatementFailure {
            ordinal: 2,
            preview: "SELECT 2".to_string(),
            error: ServerError::Other("boom".to_string()),
        })
    );
    assert_eq!(run.finish(), Ok(Some(Event::Statement("SELECT 2".to_string()))));
    assert_eq!(run.executed(), 1);
}

#[test]
fn bulk_load_statements_are_counted() {
    let mut run = ScriptRun::new();
    let mut events = Vec::new();
    for c in "SELECT 1; COPY t FROM STDIN;\na\n\\.\nSELECT 2;".chars() {
        if let Some(event) = run.feed(c) {
            run.event_done(&event);
            events.push((event, run.executed()));
        }
    }
    assert_eq!(
        events,
        vec![
            (Event::Statement("SELECT 1".to_string()), 1),
            (Event::BulkLoadStart("COPY t FROM STDIN".to_string()), 2),
            (Event::BulkLoadLine("a".to_string()), 2),
            (Event::BulkLoadEnd, 2),
            (Event::Statement("SELECT 2".to_string()), 3),
        ]
    );
    assert_eq!(run.finish(), Ok(None));
    assert_eq!(summary("dump.sql", run.executed()), "Executed dump.sql (3 statements)");
}

#[test]
fn a_statement_after_a_bulk_load_is_the_second() {
    let mut run = ScriptRun::new();
    let mut last = None;
    for c in "COPY t FROM STDIN;\n1\n\\.\nSELECT bad;".chars() {
        if let Some(event) = run.feed(c) {
            if event == Event::Statement("SELECT bad".to_string()) {
                last = Some(run.statement_failed("SELECT bad", ServerError::Other("no".to_string())));
            } else {
                run.event_done(&event);
            }
        }
    }
    assert_eq!(
        last,
        Some(EngineError::StatementFailure(StatementFailure {
            ordinal: 2,
            preview: "SELECT bad".to_string(),
            error: ServerError::Other("no".to_string()),
        }))
    );
    assert_eq!(run.executed(), 1);
}

#[test]
fn a_data_line_is_sent_with_one_line_end() {
    assert_eq!(data_line("a\tb"), "a\tb\n");
    assert_eq!(data_line(""), "\n");
    assert_eq!(data_line("x\r"), "x\r\n");
}

#[test]
fn script_run_reports_malformed_input() {
    let mut run = ScriptRun::new();
    for c in "SELECT 'abc".chars() {
        assert_eq!(run.feed(c), None);
    }
    assert_eq!(run.finish(), Err(EngineError::MalformedInput(MalformedInput::UnterminatedQuote)));
}

#[test]
fn joins_with_separator() {
    assert_eq!(join(&strings(&[]), ", "), "");
    assert_eq!(join(&strings(&["a"]), ", "), "a");
    assert_eq!(join(&strings(&["a", "b", "c"]), ", "), "a, b, c");
    assert_eq!(join(&strings(&["", ""]), "-"), "-");
}

#[test]
fn column_definitions() {
    assert_eq!(column_definition("id", "integer", None, false), "\"id\" integer");
    assert_eq!(column_definition("id", "integer", None, true), "\"id\" integer NOT NULL");
    assert_eq!(
        column_definition("a\"b", "text", Some("'x'::text"), true),
        "\"a\"\"b\" text DEFAULT 'x'::text NOT NULL"
    );
    assert_eq!(column_definition("n", "bigint", Some("0"), false), "\"n\" bigint DEFAULT 0");
}

#[test]
fn export_statements() {
    assert_eq!(
        create_table_statement("public", "users", &strings(&["\"id\" integer NOT NULL", "\"name\" text"])),
        "CREATE TABLE \"public\".\"users\" (\n    \"id\" integer NOT NULL,\n    \"name\" text\n);\n"
    );
    assert_eq!(
        create_table_statement("s", "t", &strings(&[])),
        "CREATE TABLE \"s\".\"t\" (\n    \n);\n"
    );
    assert_eq!(
        add_constraint_statement("public", "users", "users_pkey", "PRIMARY KEY (id)"),
        "ALTER TABLE \"public\".\"users\" ADD CONSTRAINT \"users_pkey\" PRIMARY KEY (id);\n"
    );
    assert_eq!(index_statement("CREATE INDEX i ON t (a)"), "CREATE INDEX i ON t (a);\n");
    assert_eq!(index_statement("CREATE INDEX i ON t (a);"), "CREATE INDEX i ON t (a);\n");
    assert_eq!(index_statement(""), ";\n");
    assert_eq!(
        copy_in_statement("public", "users", &strings(&["id", "na\"me"])),
        "COPY \"public\".\"users\" (\"id\", \"na\"\"me\") FROM stdin;\n"
    );
    assert_eq!(
        copy_out_statement("public", "users", &strings(&["id"])),
        "COPY \"public\".\"users\" (\"id\") TO STDOUT"
    );
    assert_eq!(
        create_view_statement("public", "v", " SELECT 1"),
        "CREATE OR REPLACE VIEW \"public\".\"v\" AS\n SELECT 1;\n\n"
    );
    assert_eq!(create_sequence_statement("public", "seq"), "CREATE SEQUENCE \"public\".\"seq\";\n");
    assert_eq!(
        schema_header("my schema"),
        "-- FastDB schema export\n-- Schema: my schema\n\nCREATE SCHEMA IF NOT EXISTS \"my schema\";\n\n"
    );
    assert_eq!(table_header("public", "users"), "-- FastDB table export\n-- Table: public.users\n\n");
    assert_eq!(schema_exported("/tmp/a.sql"), "Schema exported to /tmp/a.sql");
    assert_eq!(table_exported("/tmp/a.sql"), "Table exported to /tmp/a.sql");
}

#[test]
fn listed_names_are_found() {
    let names = strings(&["a", "b"]);
    assert!(is_listed("a", &names));
    assert!(is_listed("b", &names));
    assert!(!is_listed("c", &names));
    assert!(!is_listed("a", &vec![]));
}

#[test]
fn an_export_splits_back_into_its_statements() {
    let mut text = schema_header("public");
    text.push_str(&create_table_statement("public", "t", &strings(&["\"a\" text"])));
    text.push_str(&index_statement("CREATE INDEX i ON public.t (a)"));
    text.push_str(&copy_in_statement("public", "t", &strings(&["a"])));
    text.push_str("x;y\n-- not a comment\n\\.\n\n");
    text.push_str(&create_view_statement("public", "v", " SELECT ';'"));
    let events = split_script(&text).unwrap();
    assert_eq!(
        events,
        vec![
            Event::Statement("CREATE SCHEMA IF NOT EXISTS \"public\"".to_string()),
            Event::Statement("CREATE TABLE \"public\".\"t\" (\n    \"a\" text\n)".to_string()),
            Event::Statement("CREATE INDEX i ON public.t (a)".to_string()),
            Event::BulkLoadStart("COPY \"public\".\"t\" (\"a\") FROM stdin".to_string()),
            Event::BulkLoadLine("x;y".to_string()),
            Event::BulkLoadLine("-- not a comment".to_string()),
            Event::BulkLoadEnd,
            Event::Statement("CREATE OR REPLACE VIEW \"public\".\"v\" AS\n SELECT ';'".to_string()),
        ]
    );
}

#[test]
fn nullable_is_yes_or_not() {
    assert_eq!(nullable_flag("YES"), 1);
    assert_eq!(nullable_flag("NO"), 0);
    assert_eq!(nullable_flag("yes"), 0);
    assert_eq!(nullable_flag(""), 0);
}

#[test]
fn snapshot_gathers_records_under_fresh_ids() {
    let mut snapshot = SchemaSnapshot::new();
    let schema_id = snapshot.add_schema("s1", "public", 42);
    let table_id = snapshot.add_table(&schema_id, "users", "BASE TABLE");
    snapshot.add_column(&table_id, "id", "integer", "NO");
    snapshot.add_column(&table_id, "email", "text", "YES");
    snapshot.add_index(&table_id, "users_pkey", "CREATE UNIQUE INDEX");
    assert_eq!(snapshot.schemas.len(), 1);
    assert_eq!(snapshot.schemas[0].id, schema_id);
    assert_eq!(snapshot.schemas[0].server_id, "s1");
    assert_eq!(snapshot.schemas[0].last_updated, 42);
    assert_eq!(snapshot.tables[0].schema_id, schema_id);
    assert_eq!(snapshot.tables[0].type_, "BASE TABLE");
    assert_eq!(snapshot.columns[0].nullable, 0);
    assert_eq!(snapshot.columns[1].nullable, 1);
    assert_eq!(snapshot.columns[1].table_id, table_id);
    assert_eq!(snapshot.indexes[0].name, "users_pkey");
    assert_ne!(schema_id, table_id);
    assert_ne!(snapshot.columns[0].id, snapshot.columns[1].id);

    let conn = store_with_server("s1");
    snapshot.store(&conn, "s1").unwrap();
    assert_eq!(fastdb::db::get_schemas(&conn, "s1").unwrap(), snapshot.schemas);
    assert_eq!(fastdb::db::get_tables(&conn, &schema_id).unwrap(), snapshot.tables);
    assert_eq!(fastdb::db::get_indexes(&conn, &table_id).unwrap(), snapshot.indexes);
}

#[test]
fn index_records_keep_names_and_definitions() {
    let found = vec![("a".to_string(), "CREATE INDEX a".to_string()), ("b".to_string(), "CREATE INDEX b".to_string())];
    let records = index_records("t1", &found);
    assert_eq!(records.len(), 2);
    assert_eq!(records[0].table_id, "t1");
    assert_eq!(records[0].name, "a");
    assert_eq!(records[1].definition, "CREATE INDEX b");
    assert_ne!(records[0].id, records[1].id);
    assert!(index_records("t1", &vec![]).is_empty());
}

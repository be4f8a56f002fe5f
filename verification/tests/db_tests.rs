use fastdb::db::{
    add_query_history, add_server, batch_insert_columns, batch_insert_schemas,
    batch_insert_tables, clear_query_history_dedup, clear_server_schema_data, cutoff,
    delete_query_history_entry, delete_server, first_context_from_rows, first_server_from_rows,
    get_autocomplete_items, get_columns, get_indexes,
    get_query_history, get_query_history_dedup, get_schemas, get_server_by_id, get_servers,
    get_table_context, get_tables, init_db, is_schema_stale, normalize_sql,
    refresh_server_schema, replace_indexes_for_table, search_query_history_dedup,
    update_server_last_connected, upsert_query_history_dedup,
};
use fastdb::records::{
    server_from_row, Column, Index, QueryHistory, Schema, Server, Table,
};
use fastdb::rows::{SqlValue, StoreError};
use rusqlite::Connection;

fn store() -> Connection {
    let conn = Connection::open_in_memory().unwrap();
    init_db(&conn).unwrap();
    conn
}

fn server(id: &str, name: &str) -> Server {
    Server {
        id: id.to_string(),
        name: name.to_string(),
        host: "localhost".to_string(),
        port: 5432,
        database: "testdb".to_string(),
        username: "user".to_string(),
        credential_key: "key-1".to_string(),
        group_name: None,
        last_connected: None,
    }
}

fn schema(id: &str, server_id: &str, name: &str, at: i64) -> Schema {
    Schema { id: id.to_string(), server_id: server_id.to_string(), name: name.to_string(), last_updated: at }
}

fn table(id: &str, schema_id: &str, name: &str) -> Table {
    Table { id: id.to_string(), schema_id: schema_id.to_string(), name: name.to_string(), type_: "BASE TABLE".to_string() }
}

fn column(id: &str, table_id: &str, name: &str) -> Column {
    Column { id: id.to_string(), table_id: table_id.to_string(), name: name.to_string(), data_type: "integer".to_string(), nullable: 1 }
}

fn index(id: &str, table_id: &str, name: &str) -> Index {
    Index { id: id.to_string(), table_id: table_id.to_string(), name: name.to_string(), definition: "CREATE INDEX".to_string() }
}

#[test]
fn test_init_db() {
    let conn = Connection::open_in_memory().unwrap();
    assert!(init_db(&conn).is_ok());
}

#[test]
fn test_server_crud() {
    let conn = Connection::open_in_memory().unwrap();
    init_db(&conn).unwrap();

    let server = Server {
        id: "test-1".to_string(),
        name: "Test Server".to_string(),
        host: "localhost".to_string(),
        port: 5432,
        database: "testdb".to_string(),
        username: "user".to_string(),
        credential_key: "key-1".to_string(),
        group_name: None,
        last_connected: None,
    };

    add_server(&conn, &server).unwrap();
    let servers = get_servers(&conn).unwrap();
    assert!(servers.iter().any(|s| s.id == "test-1"));

    delete_server(&conn, "test-1").unwrap();
}

#[test]
fn init_db_may_run_twice() {
    let conn = store();
    assert!(init_db(&conn).is_ok());
}

#[test]
fn servers_come_back_as_saved() {
    let conn = store();
    let mut first = server("s1", "Beta");
    first.group_name = Some("prod".to_string());
    first.last_connected = Some(100);
    add_server(&conn, &first).unwrap();
    assert_eq!(get_server_by_id(&conn, "s1").unwrap(), Some(first.clone()));
    assert_eq!(get_server_by_id(&conn, "nope").unwrap(), None);
    assert_eq!(get_servers(&conn).unwrap(), vec![first]);
    delete_server(&conn, "s1").unwrap();
    assert_eq!(get_servers(&conn).unwrap(), vec![]);
}

#[test]
fn servers_are_ordered_by_last_connection_then_name() {
    let conn = store();
    add_server(&conn, &server("a", "Zed")).unwrap();
    add_server(&conn, &server("b", "Alpha")).unwrap();
    add_server(&conn, &server("c", "Mid")).unwrap();
    add_server(&conn, &server("d", "Old")).unwrap();
    update_server_last_connected(&conn, "c", 50).unwrap();
    update_server_last_connected(&conn, "d", 20).unwrap();
    let ids: Vec<String> = get_servers(&conn).unwrap().into_iter().map(|s| s.id).collect();
    assert_eq!(ids, vec!["c", "d", "b", "a"]);
}

#[test]
fn a_server_is_saved_once() {
    let conn = store();
    add_server(&conn, &server("s1", "One")).unwrap();
    assert!(matches!(add_server(&conn, &server("s1", "Two")), Err(StoreError::Database(_))));
}

#[test]
fn store_without_tables_reports_the_database() {
    let conn = Connection::open_in_memory().unwrap();
    assert!(matches!(get_servers(&conn), Err(StoreError::Database(_))));
    assert!(matches!(delete_server(&conn, "x"), Err(StoreError::Database(_))));
}

#[test]
fn schema_tree_round_trip() {
    let conn = store();
    add_server(&conn, &server("s1", "One")).unwrap();
    batch_insert_schemas(&conn, &vec![schema("sc2", "s1", "public", 10), schema("sc1", "s1", "audit", 10)]).unwrap();
    batch_insert_tables(&conn, &vec![table("t1", "sc2", "users"), table("t2", "sc2", "orders")]).unwrap();
    batch_insert_columns(&conn, &vec![column("c1", "t1", "id"), column("c2", "t1", "email")]).unwrap();
    replace_indexes_for_table(&conn, "t1", &vec![index("i1", "t1", "users_pkey")]).unwrap();

    let names: Vec<String> = get_schemas(&conn, "s1").unwrap().into_iter().map(|s| s.name).collect();
    assert_eq!(names, vec!["audit", "public"]);
    let names: Vec<String> = get_tables(&conn, "sc2").unwrap().into_iter().map(|t| t.name).collect();
    assert_eq!(names, vec!["orders", "users"]);
    assert_eq!(get_columns(&conn, "t1").unwrap(), vec![column("c2", "t1", "email"), column("c1", "t1", "id")]);
    assert_eq!(get_indexes(&conn, "t1").unwrap(), vec![index("i1", "t1", "users_pkey")]);
    assert_eq!(
        get_table_context(&conn, "t1").unwrap(),
        Some(("users".to_string(), "public".to_string(), "s1".to_string()))
    );
    assert_eq!(get_table_context(&conn, "t9").unwrap(), None);

    let items = get_autocomplete_items(&conn, "s1").unwrap();
    assert_eq!(items.tables, vec!["orders", "users"]);
    assert_eq!(items.columns, vec!["email", "id"]);
    assert_eq!(items.indexes, vec!["users_pkey"]);

    replace_indexes_for_table(&conn, "t1", &vec![index("i2", "t1", "a"), index("i3", "t1", "b")]).unwrap();
    let names: Vec<String> = get_indexes(&conn, "t1").unwrap().into_iter().map(|i| i.name).collect();
    assert_eq!(names, vec!["a", "b"]);

    clear_server_schema_data(&conn, "s1").unwrap();
    assert_eq!(get_schemas(&conn, "s1").unwrap(), vec![]);
    assert_eq!(get_tables(&conn, "sc2").unwrap(), vec![]);
    assert_eq!(get_columns(&conn, "t1").unwrap(), vec![]);
    assert_eq!(get_indexes(&conn, "t1").unwrap(), vec![]);
}

#[test]
fn empty_batches_succeed_without_a_store() {
    let conn = Connection::open_in_memory().unwrap();
    assert_eq!(batch_insert_schemas(&conn, &vec![]), Ok(()));
    assert_eq!(batch_insert_tables(&conn, &vec![]), Ok(()));
    assert_eq!(batch_insert_columns(&conn, &vec![]), Ok(()));
}

#[test]
fn a_failed_batch_changes_nothing() {
    let conn = store();
    add_server(&conn, &server("s1", "One")).unwrap();
    let twice = vec![schema("sc1", "s1", "a", 1), schema("sc1", "s1", "b", 1)];
    assert!(matches!(batch_insert_schemas(&conn, &twice), Err(StoreError::Database(_))));
    assert_eq!(get_schemas(&conn, "s1").unwrap(), vec![]);
    batch_insert_schemas(&conn, &vec![schema("sc1", "s1", "a", 1)]).unwrap();
    assert_eq!(get_schemas(&conn, "s1").unwrap().len(), 1);
}

#[test]
fn refresh_replaces_the_schema_tree() {
    let conn = store();
    add_server(&conn, &server("s1", "One")).unwrap();
    add_server(&conn, &server("s2", "Two")).unwrap();
    batch_insert_schemas(&conn, &vec![schema("old", "s1", "old", 1), schema("other", "s2", "keep", 1)]).unwrap();
    batch_insert_tables(&conn, &vec![table("t-old", "old", "gone")]).unwrap();
    refresh_server_schema(
        &conn,
        "s1",
        &vec![schema("new", "s1", "public", 2)],
        &vec![table("t1", "new", "users")],
        &vec![column("c1", "t1", "id")],
        &vec![index("i1", "t1", "users_pkey")],
    )
    .unwrap();
    assert_eq!(get_schemas(&conn, "s1").unwrap(), vec![schema("new", "s1", "public", 2)]);
    assert_eq!(get_tables(&conn, "old").unwrap(), vec![]);
    assert_eq!(get_tables(&conn, "new").unwrap(), vec![table("t1", "new", "users")]);
    assert_eq!(get_schemas(&conn, "s2").unwrap(), vec![schema("other", "s2", "keep", 1)]);

    let bad = vec![table("t1", "new", "a"), table("t1", "new", "b")];
    assert!(refresh_server_schema(&conn, "s1", &vec![], &bad, &vec![], &vec![]).is_err());
    assert_eq!(get_schemas(&conn, "s1").unwrap(), vec![schema("new", "s1", "public", 2)]);
}

#[test]
fn history_keeps_each_execution() {
    let conn = store();
    add_server(&conn, &server("s1", "One")).unwrap();
    for (id, at) in [("h1", 10), ("h2", 30), ("h3", 20)] {
        let entry = QueryHistory {
            id: id.to_string(),
            server_id: "s1".to_string(),
            sql: "SELECT 1".to_string(),
            executed_at: at,
            success: 1,
        };
        add_query_history(&conn, &entry).unwrap();
    }
    let ids: Vec<String> = get_query_history(&conn, "s1", 2).unwrap().into_iter().map(|h| h.id).collect();
    assert_eq!(ids, vec!["h2", "h3"]);
    assert_eq!(get_query_history(&conn, "s1", usize::MAX).unwrap().len(), 3);
    assert_eq!(get_query_history(&conn, "s2", 10).unwrap(), vec![]);
}

#[test]
fn deduplicated_history_counts_repeats() {
    let conn = store();
    add_server(&conn, &server("s1", "One")).unwrap();
    upsert_query_history_dedup(&conn, "s1", "SELECT  1", 10).unwrap();
    upsert_query_history_dedup(&conn, "s1", "SELECT 2", 20).unwrap();
    upsert_query_history_dedup(&conn, "s1", " select\n1 ", 25).unwrap();
    upsert_query_history_dedup(&conn, "s1", "  SELECT\n1 ", 30).unwrap();
    let entries = get_query_history_dedup(&conn, "s1", 10).unwrap();
    assert_eq!(entries.len(), 3);
    assert_eq!(entries[0].sql, "  SELECT\n1 ");
    assert_eq!(entries[0].normalized_sql, "SELECT 1");
    assert_eq!(entries[0].last_executed_at, 30);
    assert_eq!(entries[0].execution_count, 2);
    assert_eq!(entries[1].normalized_sql, "select 1");
    assert_eq!(entries[2].sql, "SELECT 2");
    assert_eq!(entries[2].execution_count, 1);
    assert_eq!(entries[0].id.len(), 36);
    assert_ne!(entries[0].id, entries[1].id);

    let found = search_query_history_dedup(&conn, "s1", "select\n", 10).unwrap();
    assert_eq!(found.len(), 2);
    assert_eq!(search_query_history_dedup(&conn, "s1", "2", 10).unwrap().len(), 1);
    assert_eq!(search_query_history_dedup(&conn, "s1", "", 1).unwrap().len(), 1);

    delete_query_history_entry(&conn, &entries[2].id).unwrap();
    assert_eq!(get_query_history_dedup(&conn, "s1", 10).unwrap().len(), 2);
    clear_query_history_dedup(&conn, "s1").unwrap();
    assert_eq!(get_query_history_dedup(&conn, "s1", 10).unwrap(), vec![]);
}

#[test]
fn normal_form_collapses_white_space() {
    assert_eq!(normalize_sql("  SELECT \n\t 1  "), "SELECT 1");
    assert_eq!(normalize_sql("a"), "a");
    assert_eq!(normalize_sql(""), "");
    assert_eq!(normalize_sql(" \u{a0} "), "");
    assert_eq!(normalize_sql("a\u{2003}b  c"), "a b c");
    for text in ["x  y", " lead", "trail ", "a\tb\nc", "\n", "one"] {
        assert_eq!(normalize_sql(text), text.split_whitespace().collect::<Vec<_>>().join(" "));
    }
}

#[test]
fn staleness_is_by_last_update() {
    let conn = store();
    add_server(&conn, &server("s1", "One")).unwrap();
    assert_eq!(is_schema_stale(&conn, "s1", 60), Ok(false));
    batch_insert_schemas(&conn, &vec![schema("sc1", "s1", "public", 1000)]).unwrap();
    assert_eq!(is_schema_stale(&conn, "s1", 60), Ok(true));
    assert_eq!(is_schema_stale(&conn, "s1", i64::MAX), Ok(false));
    assert_eq!(is_schema_stale(&conn, "s2", 60), Ok(false));
}

#[test]
fn cutoff_does_not_wrap() {
    assert_eq!(cutoff(1000, 60), 940);
    assert_eq!(cutoff(0, i64::MAX), -i64::MAX);
    assert_eq!(cutoff(-10, i64::MAX), i64::MIN);
    assert_eq!(cutoff(10, i64::MIN), i64::MAX);
}

#[test]
fn rows_that_do_not_fit_are_refused() {
    let text = |t: &str| SqlValue::Text(t.to_string());
    let mut row = vec![
        text("id"), text("name"), text("host"), SqlValue::Integer(5432), text("db"),
        text("user"), text("key"), SqlValue::Null, SqlValue::Integer(7),
    ];
    let read = server_from_row(&row).unwrap();
    assert_eq!(read.port, 5432);
    assert_eq!(read.group_name, None);
    assert_eq!(read.last_connected, Some(7));
    row[3] = SqlValue::Integer(1 << 40);
    assert_eq!(server_from_row(&row), Err(StoreError::InvalidRow));
    row[3] = text("5432");
    assert_eq!(server_from_row(&row), Err(StoreError::InvalidRow));
    row[3] = SqlValue::Integer(1);
    row[0] = SqlValue::Null;
    assert_eq!(server_from_row(&row), Err(StoreError::InvalidRow));
    row[0] = text("id");
    row.pop();
    assert_eq!(server_from_row(&row), Err(StoreError::InvalidRow));
}

#[test]
fn the_first_row_is_the_one_read() {
    let text = |t: &str| SqlValue::Text(t.to_string());
    let row = |id: &str| {
        vec![
            text(id), text("name"), text("host"), SqlValue::Integer(5432), text("db"),
            text("user"), text("key"), SqlValue::Null, SqlValue::Null,
        ]
    };
    assert_eq!(first_server_from_rows(&vec![]), Ok(None));
    let read = first_server_from_rows(&vec![row("a"), row("b")]).unwrap().unwrap();
    assert_eq!(read.id, "a");
    assert_eq!(first_server_from_rows(&vec![row("a"), vec![]]).unwrap().unwrap().id, "a");
    assert_eq!(first_server_from_rows(&vec![vec![], row("b")]), Err(StoreError::InvalidRow));

    assert_eq!(first_context_from_rows(&vec![]), Ok(None));
    assert_eq!(
        first_context_from_rows(&vec![vec![text("t"), text("s"), text("srv")], vec![]]),
        Ok(Some(("t".to_string(), "s".to_string(), "srv".to_string())))
    );
    assert_eq!(
        first_context_from_rows(&vec![vec![text("t"), SqlValue::Null, text("srv")]]),
        Err(StoreError::InvalidRow)
    );
    assert_eq!(first_context_from_rows(&vec![vec![text("t"), text("s")]]), Err(StoreError::InvalidRow));
}

use fastdb::error::{BulkLoadStage, Diagnostic, EngineError, ServerError, StatementFailure};
use fastdb::lexer::MalformedInput;
use fastdb::postgres::{
    cancel_query, cleanup_idle_pools, evict, evict_idle, format_pg_error, get_or_create_pool,
    idle, plan_execution, pool_statuses, server_error, CancelRegistry, PoolStatus, Pools,
    StatementKind, CLEANUP_INTERVAL_SECONDS, MAX_POOL_SIZE,
};
use fastdb::registry::Registry;

fn ids(pools: &Pools) -> Vec<String> {
    let mut ids = pools.server_ids();
    ids.sort();
    ids
}

fn acquire(pools: &mut Pools, server_id: &str, dbname: &str) -> Result<fastdb::postgres::PoolHandle, EngineError> {
    get_or_create_pool(pools, server_id, "localhost", 5432, "user", "secret", dbname)
}

#[test]
fn first_acquisition_makes_the_pool() {
    let mut pools = Pools::new();
    assert!(!pools.contains("s1"));
    let handle = acquire(&mut pools, "s1", "db").unwrap();
    assert!(pools.contains("s1"));
    assert_eq!(ids(&pools), vec!["s1"]);
    let status = handle.pool.status();
    assert_eq!(status.max_size, MAX_POOL_SIZE);
    assert_eq!(status.size, 0);
}

#[test]
fn later_acquisitions_return_the_same_pool() {
    let mut pools = Pools::new();
    let first = acquire(&mut pools, "s1", "db").unwrap();
    let second = acquire(&mut pools, "s1", "other").unwrap();
    let third = acquire(&mut pools, "s1", "").unwrap();
    assert_eq!(ids(&pools), vec!["s1"]);
    first.pool.resize(3);
    assert_eq!(second.pool.status().max_size, 3);
    assert_eq!(third.pool.status().max_size, 3);
    let other = acquire(&mut pools, "s2", "db").unwrap();
    assert_eq!(other.pool.status().max_size, MAX_POOL_SIZE);
    assert_eq!(ids(&pools), vec!["s1", "s2"]);
}

#[test]
fn pool_without_database_name_cannot_be_made() {
    let mut pools = Pools::new();
    let failed = acquire(&mut pools, "s1", "");
    assert!(matches!(failed, Err(EngineError::ConnectionFailure(_))));
    assert!(!pools.contains("s1"));
    assert_eq!(ids(&pools), Vec::<String>::new());
}

#[test]
fn idle_pools_are_evicted() {
    let mut pools = Pools::new();
    acquire(&mut pools, "s1", "db").unwrap();
    acquire(&mut pools, "s2", "db").unwrap();
    cleanup_idle_pools(&mut pools);
    assert_eq!(ids(&pools), Vec::<String>::new());
}

#[test]
fn pools_in_use_stay() {
    let status = |size, available, waiting| PoolStatus { max_size: 10, size, available, waiting };
    let mut pools = Pools::new();
    for id in ["s1", "s2", "s3", "s4"] {
        acquire(&mut pools, id, "db").unwrap();
    }
    let statuses = vec![
        ("s1".to_string(), status(2, 2, 0)),
        ("s2".to_string(), status(2, 1, 0)),
        ("s3".to_string(), status(2, 0, 3)),
        ("s9".to_string(), status(0, 0, 0)),
    ];
    evict_idle(&mut pools, &statuses);
    assert_eq!(ids(&pools), vec!["s2", "s3", "s4"]);
}

#[test]
fn statuses_are_of_the_pools_held() {
    let mut pools = Pools::new();
    acquire(&mut pools, "s1", "db").unwrap();
    acquire(&mut pools, "s2", "db").unwrap();
    let mut statuses = pool_statuses(&pools);
    statuses.sort_by(|a, b| a.0.cmp(&b.0));
    assert_eq!(statuses.len(), 2);
    assert_eq!(statuses[0].0, "s1");
    assert_eq!(statuses[1].0, "s2");
    assert_eq!(statuses[0].1, PoolStatus { max_size: MAX_POOL_SIZE, size: 0, available: 0, waiting: 0 });
}

#[test]
fn evict_takes_out_the_named_pools() {
    let mut pools = Pools::new();
    acquire(&mut pools, "s1", "db").unwrap();
    acquire(&mut pools, "s2", "db").unwrap();
    acquire(&mut pools, "s3", "db").unwrap();
    evict(&mut pools, &vec!["s2".to_string(), "s9".to_string()]);
    assert_eq!(ids(&pools), vec!["s1", "s3"]);
    evict(&mut pools, &vec![]);
    assert_eq!(ids(&pools), vec!["s1", "s3"]);
}

#[test]
fn a_pool_is_idle_when_nothing_is_checked_out() {
    let status = |size, available, waiting| PoolStatus { max_size: 10, size, available, waiting };
    assert!(idle(&status(0, 0, 0)));
    assert!(idle(&status(3, 3, 0)));
    assert!(idle(&status(10, 10, 0)));
    assert!(!idle(&status(3, 2, 0)));
    assert!(!idle(&status(3, 0, 0)));
    assert!(!idle(&status(0, 0, 1)));
    assert!(!idle(&status(10, 0, 4)));
}

#[test]
fn cancel_of_unknown_execution_fails() {
    let registry = CancelRegistry::new();
    assert!(matches!(registry.cancel("q1"), Err(EngineError::NoSuchExecution)));
    assert!(matches!(cancel_query(&registry, "q1"), Err(EngineError::NoSuchExecution)));
    assert!(!registry.is_in_flight("q1"));
}

#[test]
fn unregister_of_unknown_execution_changes_nothing() {
    let mut registry = CancelRegistry::new();
    registry.unregister("q1");
    assert!(!registry.is_in_flight("q1"));
}

#[test]
fn registry_holds_each_key_once() {
    let mut registry: Registry<u32> = Registry::new();
    assert_eq!(registry.get("a"), None);
    registry.insert("a", 1);
    registry.insert("b", 2);
    registry.insert("a", 3);
    assert_eq!(registry.get("a"), Some(&3));
    assert_eq!(registry.get("b"), Some(&2));
    let mut keys = registry.keys();
    keys.sort();
    assert_eq!(keys, vec!["a", "b"]);
    assert!(registry.contains("a"));
    assert_eq!(registry.remove("a"), Some(3));
    assert_eq!(registry.remove("a"), None);
    assert!(!registry.contains("a"));
    assert_eq!(registry.keys(), vec!["b"]);
}

#[test]
fn plans_queries_and_commands() {
    let plan = plan_execution("SELECT 1", None);
    assert_eq!(plan.kind, StatementKind::Query);
    assert_eq!(plan.search_path, None);
    let plan = plan_execution("-- c\nDELETE FROM t", Some("my \"schema\""));
    assert_eq!(plan.kind, StatementKind::Command);
    assert_eq!(plan.search_path, Some("SET LOCAL search_path TO \"my \"\"schema\"\"\"".to_string()));
    assert_eq!(plan_execution("explain analyze select 1", Some("s")).kind, StatementKind::Query);
}

#[test]
fn errors_report_themselves() {
    let diagnostic = Diagnostic {
        code: "23505".to_string(),
        message: "duplicate key".to_string(),
        detail: Some("Key (id)=(1) already exists.".to_string()),
        hint: None,
        location: None,
    };
    let error = ServerError::Database(diagnostic);
    assert_eq!(
        error.message(),
        "23505: duplicate key\nDetail: Key (id)=(1) already exists.\nHint: (none)\nWhere: (none)"
    );
    assert_eq!(ServerError::Other("connection closed".to_string()).message(), "connection closed");
    let failure = EngineError::StatementFailure(StatementFailure {
        ordinal: 12,
        preview: "INSERT INTO t".to_string(),
        error: ServerError::Other("boom".to_string()),
    });
    assert_eq!(
        failure.message(),
        "Failed executing SQL statement 12: boom\nStatement preview:\nINSERT INTO t"
    );
    assert_eq!(
        EngineError::BulkLoadFailure(BulkLoadStage::Finish, error.clone()).message(),
        "Failed to finalize COPY: 23505: duplicate key\nDetail: Key (id)=(1) already exists.\nHint: (none)\nWhere: (none)"
    );
    assert_eq!(
        EngineError::BulkLoadFailure(BulkLoadStage::Start, ServerError::Other("no".to_string())).message(),
        "Failed to start COPY: no"
    );
    assert_eq!(
        EngineError::BulkLoadFailure(BulkLoadStage::Write, ServerError::Other("no".to_string())).message(),
        "Failed writing COPY data: no"
    );
    assert_eq!(EngineError::NoSuchExecution.message(), "No running query for this id");
    assert_eq!(
        EngineError::ConnectionFailure("refused".to_string()).message(),
        "Failed to connect to database: refused"
    );
    assert_eq!(
        EngineError::MalformedInput(MalformedInput::UnterminatedBulkLoad).message(),
        "COPY data did not terminate with \\."
    );
    assert_eq!(MalformedInput::MissingBulkData.message(), "COPY statement missing data section");
    assert_eq!(MalformedInput::UnterminatedQuote.message(), "Quoted text did not terminate");
    assert_eq!(MalformedInput::UnterminatedComment.message(), "Comment did not terminate");
    assert_eq!(
        MalformedInput::UnterminatedDollarQuote.message(),
        "Dollar-quoted text did not terminate"
    );
}

#[test]
fn only_a_failed_cancel_is_recoverable() {
    assert!(EngineError::NoSuchExecution.is_recoverable());
    assert!(!EngineError::ConnectionFailure("x".to_string()).is_recoverable());
    assert!(!EngineError::MalformedInput(MalformedInput::UnterminatedQuote).is_recoverable());
    assert!(!EngineError::BulkLoadFailure(BulkLoadStage::Write, ServerError::Other("x".to_string())).is_recoverable());
}

#[test]
fn failures_without_a_diagnostic_keep_their_words() {
    let error = "port=notanumber".parse::<tokio_postgres::Config>().err().unwrap();
    assert!(error.as_db_error().is_none());
    assert_eq!(server_error(&error), ServerError::Other(error.to_string()));
    assert_eq!(format_pg_error(&server_error(&error)), error.to_string());
    assert!(!error.to_string().is_empty());
}

#[test]
fn a_diagnostic_is_reported_field_by_field() {
    let diagnostic = Diagnostic {
        code: "42601".to_string(),
        message: "syntax error at or near \"SELEC\"".to_string(),
        detail: None,
        hint: Some("Check the statement.".to_string()),
        location: Some("PL/pgSQL function f() line 3".to_string()),
    };
    assert_eq!(
        format_pg_error(&ServerError::Database(diagnostic)),
        "42601: syntax error at or near \"SELEC\"\nDetail: (none)\nHint: Check the statement.\nWhere: PL/pgSQL function f() line 3"
    );
    assert_eq!(format_pg_error(&ServerError::Other("closed".to_string())), "closed");
    assert_eq!(format_pg_error(&ServerError::Other(String::new())), "");
}

#[test]
fn the_sweep_runs_every_five_minutes() {
    assert_eq!(CLEANUP_INTERVAL_SECONDS, 300);
}

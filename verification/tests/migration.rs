use bqdrift::bq_runner::{BqRunnerError, Executor, ExecutorMode, FileLoader, SqlFile, SqlLoader};
use bqdrift::calendar::{Date, Timestamp};
use bqdrift::error::BqDriftError;
use bqdrift::executor::{ColumnInfo, QueryResult};
use bqdrift::migration::{escape_sql_string, MigrationTracker, QueryRun, RunStatus};

fn run() -> QueryRun {
    QueryRun {
        query_name: "daily 'users'".to_string(),
        query_version: 3,
        sql_revision: None,
        partition_date: Date::from_ymd_opt(2024, 3, 1).unwrap(),
        executed_at: Timestamp::new(Date::from_ymd_opt(2024, 3, 2).unwrap(), 3723, 999).unwrap(),
        rows_written: Some(1000),
        bytes_processed: None,
        execution_time_ms: Some(-5),
        status: RunStatus::Success,
    }
}

#[test]
fn quotes_are_doubled() {
    assert_eq!(escape_sql_string("it's"), "it''s");
    assert_eq!(escape_sql_string("''"), "''''");
    assert_eq!(escape_sql_string("plain"), "plain");
    assert_eq!(escape_sql_string(""), "");
}

#[test]
fn tracker_names_its_table() {
    let tracker = MigrationTracker::new("audit");
    assert_eq!(tracker.full_table_name(), "audit._bqdrift_query_runs");
    let tracker = tracker.with_table_name("runs");
    assert_eq!(tracker.full_table_name(), "audit.runs");
}

#[test]
fn tracker_creates_its_table() {
    let sql = MigrationTracker::new("audit").ensure_tracking_table_sql();
    assert_eq!(
        sql,
        "\n            CREATE TABLE IF NOT EXISTS `audit._bqdrift_query_runs` (\n                query_name STRING NOT NULL,\n                query_version INT64 NOT NULL,\n                sql_revision INT64,\n                partition_date DATE NOT NULL,\n                executed_at TIMESTAMP NOT NULL,\n                rows_written INT64,\n                bytes_processed INT64,\n                execution_time_ms INT64,\n                status STRING NOT NULL\n            )\n            PARTITION BY DATE(executed_at)\n            "
    );
}

#[test]
fn tracker_records_a_run() {
    let sql = MigrationTracker::new("audit").record_run_sql(&run());
    assert_eq!(
        sql,
        "\n            INSERT INTO `audit._bqdrift_query_runs` (\n                query_name, query_version, sql_revision, partition_date,\n                executed_at, rows_written, bytes_processed, execution_time_ms, status\n            ) VALUES (\n                'daily ''users''', 3, NULL, '2024-03-01',\n                '2024-03-02 01:02:03 UTC', 1000, NULL, -5, 'SUCCESS'\n            )\n            "
    );
    let mut failed = run();
    failed.status = RunStatus::Failed;
    failed.sql_revision = Some(2);
    let sql = MigrationTracker::new("a").with_table_name("t").record_run_sql(&failed);
    assert!(sql.contains("INSERT INTO `a.t` ("));
    assert!(sql.contains("'daily ''users''', 3, 2, '2024-03-01',"));
    assert!(sql.contains("'FAILED'"));
}

#[test]
fn file_patterns() {
    assert_eq!(FileLoader::pattern("queries", "yaml"), "queries/**/*.yaml");
    assert_eq!(SqlLoader::pattern("/tmp/x"), "/tmp/x/**/*.sql");
    let file = SqlFile { path: "a.sql".to_string(), content: "SELECT 1".to_string() };
    assert_eq!(file.clone(), file);
}

#[test]
fn stand_in_executor() {
    let mock = Executor::mock().unwrap();
    assert_eq!(mock.mode(), ExecutorMode::Mock);
    assert_eq!(Executor::bigquery().unwrap().mode(), ExecutorMode::BigQuery);
    assert_eq!(mock.execute("DELETE FROM t WHERE TRUE"), Ok(0));
    assert_eq!(mock.query("SELECT 1"), Ok(QueryResult { columns: vec![], rows: vec![] }));
}

#[test]
fn errors_as_text() {
    assert_eq!(BqRunnerError::Io("gone".to_string()).to_string(), "IO error: gone");
    assert_eq!(BqRunnerError::Execution("bad".to_string()).to_string(), "Execution error: bad");
    let cases = [
        (BqDriftError::Io("m".to_string()), "IO error: m"),
        (BqDriftError::DslParse("m".to_string()), "DSL parse error: m"),
        (BqDriftError::InvalidVersionRef("m".to_string()), "Invalid version reference: m"),
        (BqDriftError::VariableResolution("m".to_string()), "Variable resolution error: m"),
        (BqDriftError::Validation("m".to_string()), "Validation error: m"),
        (BqDriftError::Partition("m".to_string()), "Partition error: m"),
        (BqDriftError::QueryNotFound("m".to_string()), "Query not found: m"),
        (BqDriftError::InvariantFailed("m".to_string()), "Invariant check failed: m"),
        (BqDriftError::Execution("m".to_string()), "Execution error: m"),
    ];
    for (error, text) in cases {
        assert_eq!(error.to_string(), text);
    }
}

#[test]
fn query_results() {
    let column = |name: &str| ColumnInfo { name: name.to_string(), column_type: "INT64".to_string() };
    let result = QueryResult {
        columns: vec![column("a"), column("b"), column("a")],
        rows: vec![vec!["1".to_string(), "2".to_string(), "3".to_string()]],
    };
    assert_eq!(result.row_count(), 1);
    assert_eq!(result.column_index("a"), Some(0));
    assert_eq!(result.column_index("b"), Some(1));
    assert_eq!(result.column_index("c"), None);
    assert_eq!(QueryResult::empty().row_count(), 0);
    assert_eq!(column("a").clone(), column("a"));
}

use bqdrift::calendar::{Date, Timestamp};
use bqdrift::diff::decode_sql;
use bqdrift::drift::{
    compress_to_base64, decompress_from_base64, Checksums, DriftDetector, DriftState,
    ExecutionStatus, PartitionState,
};
use bqdrift::dsl::{Destination, QueryDef, ResolvedRevision, VersionDef};
use bqdrift::invariants::InvariantsDef;
use bqdrift::schema::{BqType, Field, PartitionConfig, PartitionKey, Schema};

fn date(year: i32, month: u32, day: u32) -> Date {
    Date::from_ymd_opt(year, month, day).unwrap()
}

fn now() -> Timestamp {
    Timestamp::from_unix_micros(chrono::Utc::now().timestamp_micros()).unwrap()
}

fn create_test_query(name: &str, sql_content: &str) -> QueryDef {
    QueryDef {
        name: name.to_string(),
        destination: Destination {
            dataset: "test_dataset".to_string(),
            table: "test_table".to_string(),
            partition: PartitionConfig::day("date"),
            cluster: None,
        },
        description: None,
        owner: None,
        tags: vec![],
        versions: vec![VersionDef {
            version: 1,
            effective_from: date(2024, 1, 1),
            source: "test.sql".to_string(),
            sql_content: sql_content.to_string(),
            revisions: vec![],
            description: None,
            backfill_since: None,
            schema: Schema::default(),
            dependencies: Vec::new(),
            invariants: InvariantsDef::default(),
        }],
        cluster: None,
    }
}

fn create_stored_state(
    query_name: &str,
    partition_date: Date,
    sql_content: &str,
    yaml_content: &str,
) -> PartitionState {
    let checksums = Checksums::compute(sql_content, &Schema::default(), yaml_content);
    PartitionState {
        query_name: query_name.to_string(),
        partition_date,
        version: 1,
        sql_revision: None,
        effective_from: date(2024, 1, 1),
        sql_checksum: checksums.sql,
        schema_checksum: checksums.schema,
        yaml_checksum: checksums.yaml,
        executed_sql_b64: Some(compress_to_base64(sql_content)),
        upstream_states: Vec::new(),
        executed_at: now(),
        execution_time_ms: Some(100),
        rows_written: Some(1000),
        bytes_processed: Some(10000),
        status: ExecutionStatus::Success,
    }
}

#[test]
fn test_detect_never_run_has_current_sql() {
    let query = create_test_query("test_query", "SELECT * FROM source");
    let yaml_contents = vec![("test_query".to_string(), "name: test_query".to_string())];
    let queries = vec![query];
    let detector = DriftDetector::new(&queries, &yaml_contents);

    let date = date(2024, 1, 15);
    let report = detector.detect(&[], date, date).unwrap();

    assert_eq!(report.partitions.len(), 1);
    let drift = &report.partitions[0];
    assert_eq!(drift.state, DriftState::NeverRun);
    assert!(drift.current_sql.is_some());
    assert!(drift
        .current_sql
        .as_ref()
        .unwrap()
        .contains("SELECT * FROM source"));
    assert!(drift.executed_sql_b64.is_none());
}

#[test]
fn test_detect_current_preserves_executed_sql() {
    let sql = "SELECT * FROM source";
    let yaml = "name: test_query";
    let query = create_test_query("test_query", sql);
    let yaml_contents = vec![("test_query".to_string(), yaml.to_string())];
    let queries = vec![query];
    let detector = DriftDetector::new(&queries, &yaml_contents);

    let date = date(2024, 1, 15);
    let stored = create_stored_state("test_query", date, sql, yaml);

    let report = detector.detect(&[stored], date, date).unwrap();

    assert_eq!(report.partitions.len(), 1);
    let drift = &report.partitions[0];
    assert_eq!(drift.state, DriftState::Current);
    assert!(drift.current_sql.is_none());
    assert!(drift.executed_sql_b64.is_some());
}

#[test]
fn test_detect_sql_changed_has_both_sqls() {
    let old_sql = "SELECT user_id FROM users";
    let new_sql = "SELECT COALESCE(user_id, 'anon') FROM users";
    let yaml = "name: test_query";

    let query = create_test_query("test_query", new_sql);
    let yaml_contents = vec![("test_query".to_string(), yaml.to_string())];
    let queries = vec![query];
    let detector = DriftDetector::new(&queries, &yaml_contents);

    let date = date(2024, 1, 15);
    let stored = create_stored_state("test_query", date, old_sql, yaml);

    let report = detector.detect(&[stored], date, date).unwrap();

    assert_eq!(report.partitions.len(), 1);
    let drift = &report.partitions[0];
    assert_eq!(drift.state, DriftState::SqlChanged);
    assert!(drift.current_sql.is_some());
    assert!(drift.current_sql.as_ref().unwrap().contains("COALESCE"));
    assert!(drift.executed_sql_b64.is_some());

    let executed = decode_sql(drift.executed_sql_b64.as_ref().unwrap());
    assert!(executed.is_none());
}

#[test]
fn test_detect_sql_changed_executed_sql_decompresses() {
    let old_sql = "SELECT user_id FROM users";
    let new_sql = "SELECT COALESCE(user_id, 'anon') FROM users";
    let yaml = "name: test_query";

    let query = create_test_query("test_query", new_sql);
    let yaml_contents = vec![("test_query".to_string(), yaml.to_string())];
    let queries = vec![query];
    let detector = DriftDetector::new(&queries, &yaml_contents);

    let date = date(2024, 1, 15);
    let stored = create_stored_state("test_query", date, old_sql, yaml);

    let report = detector.detect(&[stored], date, date).unwrap();

    let drift = &report.partitions[0];
    assert_eq!(drift.state, DriftState::SqlChanged);

    let executed = decompress_from_base64(drift.executed_sql_b64.as_ref().unwrap());
    assert!(executed.is_some());
    assert_eq!(executed.unwrap(), old_sql);
}

#[test]
fn test_detect_failed_state_preserves_executed_sql() {
    let sql = "SELECT * FROM source";
    let yaml = "name: test_query";
    let query = create_test_query("test_query", sql);
    let yaml_contents = vec![("test_query".to_string(), yaml.to_string())];
    let queries = vec![query];
    let detector = DriftDetector::new(&queries, &yaml_contents);

    let date = date(2024, 1, 15);
    let mut stored = create_stored_state("test_query", date, sql, yaml);
    stored.status = ExecutionStatus::Failed;

    let report = detector.detect(&[stored], date, date).unwrap();

    assert_eq!(report.partitions.len(), 1);
    let drift = &report.partitions[0];
    assert_eq!(drift.state, DriftState::Failed);
    assert!(drift.executed_sql_b64.is_some());
}

#[test]
fn test_detect_schema_changed_preserves_executed_sql() {
    let sql = "SELECT * FROM source";
    let yaml = "name: test_query";
    let query = create_test_query("test_query", sql);
    let yaml_contents = vec![("test_query".to_string(), yaml.to_string())];
    let queries = vec![query];
    let detector = DriftDetector::new(&queries, &yaml_contents);

    let date = date(2024, 1, 15);
    let mut stored = create_stored_state("test_query", date, sql, yaml);
    stored.schema_checksum = "different_checksum".to_string();

    let report = detector.detect(&[stored], date, date).unwrap();

    assert_eq!(report.partitions.len(), 1);
    let drift = &report.partitions[0];
    assert_eq!(drift.state, DriftState::SchemaChanged);
    assert!(drift.executed_sql_b64.is_some());
    assert!(drift.current_sql.is_some());
}

#[test]
fn test_detect_multiple_dates() {
    let sql = "SELECT * FROM source";
    let yaml = "name: test_query";
    let query = create_test_query("test_query", sql);
    let yaml_contents = vec![("test_query".to_string(), yaml.to_string())];
    let queries = vec![query];
    let detector = DriftDetector::new(&queries, &yaml_contents);

    let from = date(2024, 1, 1);
    let to = date(2024, 1, 5);

    let report = detector.detect(&[], from, to).unwrap();

    assert_eq!(report.partitions.len(), 5);
    for drift in &report.partitions {
        assert_eq!(drift.state, DriftState::NeverRun);
        assert!(drift.current_sql.is_some());
    }
}

#[test]
fn detect_reports_days_in_order() {
    let query = create_test_query("test_query", "SELECT 1");
    let yaml_contents: Vec<(String, String)> = Vec::new();
    let queries = vec![query];
    let detector = DriftDetector::new(&queries, &yaml_contents);
    let report = detector
        .detect_at(&[], date(2024, 1, 30), date(2024, 2, 2), date(2024, 6, 1))
        .unwrap();
    let keys: Vec<PartitionKey> = report.partitions.iter().map(|p| p.partition_key).collect();
    assert_eq!(
        keys,
        vec![
            PartitionKey::Day(date(2024, 1, 30)),
            PartitionKey::Day(date(2024, 1, 31)),
            PartitionKey::Day(date(2024, 2, 1)),
            PartitionKey::Day(date(2024, 2, 2)),
        ]
    );
}

#[test]
fn detect_before_first_version_is_never_run_without_sql() {
    let query = create_test_query("test_query", "SELECT 1");
    let yaml_contents: Vec<(String, String)> = Vec::new();
    let queries = vec![query];
    let detector = DriftDetector::new(&queries, &yaml_contents);
    let day = date(2023, 12, 31);
    let mut stored = create_stored_state("test_query", day, "SELECT 1", "");
    stored.status = ExecutionStatus::Failed;
    let report = detector.detect_at(&[stored], day, day, date(2024, 6, 1)).unwrap();
    assert_eq!(report.partitions.len(), 1);
    let drift = &report.partitions[0];
    assert_eq!(drift.state, DriftState::NeverRun);
    assert_eq!(drift.current_version, 0);
    assert_eq!(drift.executed_version, None);
    assert!(drift.current_sql.is_none());
    assert!(drift.executed_sql_b64.is_some());
}

#[test]
fn detect_rejects_window_over_ten_years() {
    let query = create_test_query("test_query", "SELECT 1");
    let yaml_contents: Vec<(String, String)> = Vec::new();
    let queries = vec![query];
    let detector = DriftDetector::new(&queries, &yaml_contents);
    let from = date(2010, 1, 1);
    let to = from.checked_add_days(3651).unwrap();
    let err = detector.detect(&[], from, to).unwrap_err();
    assert_eq!(
        err.to_string(),
        "Partition error: Date range too large: 3651 days exceeds maximum of 3650 days"
    );
    let widest = from.checked_add_days(3650).unwrap();
    let report = detector.detect(&[], from, widest).unwrap();
    assert_eq!(report.partitions.len(), 3651);
}

#[test]
fn detect_empty_window_when_from_is_after_to() {
    let query = create_test_query("test_query", "SELECT 1");
    let yaml_contents: Vec<(String, String)> = Vec::new();
    let queries = vec![query];
    let detector = DriftDetector::new(&queries, &yaml_contents);
    let report = detector.detect(&[], date(2024, 1, 5), date(2024, 1, 1)).unwrap();
    assert_eq!(report.partitions.len(), 0);
}

#[test]
fn detect_version_upgraded_when_only_number_differs() {
    let sql = "SELECT * FROM source";
    let query = create_test_query("test_query", sql);
    let yaml_contents: Vec<(String, String)> = Vec::new();
    let queries = vec![query];
    let detector = DriftDetector::new(&queries, &yaml_contents);
    let day = date(2024, 1, 15);
    let mut stored = create_stored_state("test_query", day, sql, "");
    stored.version = 7;
    let report = detector.detect(&[stored], day, day).unwrap();
    let drift = &report.partitions[0];
    assert_eq!(drift.state, DriftState::VersionUpgraded);
    assert_eq!(drift.current_version, 1);
    assert_eq!(drift.executed_version, Some(7));
    assert!(drift.current_sql.is_some());
}

#[test]
fn detect_uses_latest_stored_state_of_a_partition() {
    let sql = "SELECT * FROM source";
    let query = create_test_query("test_query", sql);
    let yaml_contents: Vec<(String, String)> = Vec::new();
    let queries = vec![query];
    let detector = DriftDetector::new(&queries, &yaml_contents);
    let day = date(2024, 1, 15);
    let mut early = create_stored_state("test_query", day, sql, "");
    early.executed_at = Timestamp::new(date(2024, 1, 16), 10, 0).unwrap();
    early.status = ExecutionStatus::Failed;
    let mut late = create_stored_state("test_query", day, sql, "");
    late.executed_at = Timestamp::new(date(2024, 1, 16), 11, 0).unwrap();
    let mut other_day = create_stored_state("test_query", date(2024, 1, 14), sql, "");
    other_day.executed_at = Timestamp::new(date(2024, 1, 17), 0, 0).unwrap();
    other_day.status = ExecutionStatus::Failed;
    let report = detector.detect(&[late, early, other_day], day, day).unwrap();
    assert_eq!(report.partitions[0].state, DriftState::Current);
}

#[test]
fn detect_takes_last_query_of_a_name() {
    let first = create_test_query("test_query", "SELECT 1");
    let second = create_test_query("test_query", "SELECT 2");
    let other = create_test_query("other", "SELECT 3");
    let yaml_contents: Vec<(String, String)> = Vec::new();
    let queries = vec![first, other, second];
    let detector = DriftDetector::new(&queries, &yaml_contents);
    let day = date(2024, 1, 15);
    let report = detector.detect(&[], day, day).unwrap();
    assert_eq!(report.partitions.len(), 2);
    assert_eq!(report.partitions[0].query_name, "other");
    assert_eq!(report.partitions[0].current_sql.as_deref(), Some("SELECT 3"));
    assert_eq!(report.partitions[1].query_name, "test_query");
    assert_eq!(report.partitions[1].current_sql.as_deref(), Some("SELECT 2"));
}

#[test]
fn detect_compares_sql_of_revision_in_effect_today() {
    let mut query = create_test_query("test_query", "SELECT 1");
    query.versions[0].revisions.push(ResolvedRevision {
        revision: 1,
        effective_from: date(2024, 3, 1),
        source: "<inline>".to_string(),
        sql_content: "SELECT 2".to_string(),
        reason: None,
        backfill_since: None,
        dependencies: Vec::new(),
    });
    let yaml_contents: Vec<(String, String)> = Vec::new();
    let queries = vec![query];
    let detector = DriftDetector::new(&queries, &yaml_contents);
    let day = date(2024, 1, 15);
    let stored = create_stored_state("test_query", day, "SELECT 1", "");
    let before = detector
        .detect_at(&[create_stored_state("test_query", day, "SELECT 1", "")], day, day, date(2024, 2, 29))
        .unwrap();
    assert_eq!(before.partitions[0].state, DriftState::Current);
    let after = detector.detect_at(&[stored], day, day, date(2024, 3, 1)).unwrap();
    assert_eq!(after.partitions[0].state, DriftState::SqlChanged);
    assert_eq!(after.partitions[0].current_sql.as_deref(), Some("SELECT 2"));
}

#[test]
fn upstream_changed_names_first_upstream_run_again() {
    let query = create_test_query("test_query", "SELECT 1");
    let yaml_contents: Vec<(String, String)> = Vec::new();
    let queries = vec![query];
    let detector = DriftDetector::new(&queries, &yaml_contents);
    let day = date(2024, 1, 15);
    let recorded = Timestamp::new(date(2024, 1, 16), 100, 0).unwrap();
    let later = Timestamp::new(date(2024, 1, 16), 100, 1).unwrap();
    let mut stored = create_stored_state("test_query", day, "SELECT 1", "");
    stored.upstream_states = vec![
        ("quiet".to_string(), recorded),
        ("busy".to_string(), recorded),
        ("busier".to_string(), recorded),
    ];
    let mut quiet = create_stored_state("quiet", day, "SELECT 1", "");
    quiet.executed_at = recorded;
    let mut busy = create_stored_state("busy", day, "SELECT 1", "");
    busy.executed_at = later;
    let mut busier = create_stored_state("busier", day, "SELECT 1", "");
    busier.executed_at = later;
    let mut busy_other_day = create_stored_state("quiet", date(2024, 1, 14), "SELECT 1", "");
    busy_other_day.executed_at = later;
    let all = vec![quiet, busier, busy, busy_other_day];
    let changed = detector.detect_upstream_changed(&queries[0], &stored, &all);
    assert_eq!(changed.as_deref(), Some("busy"));
    stored.upstream_states = vec![("quiet".to_string(), recorded), ("gone".to_string(), recorded)];
    assert_eq!(detector.detect_upstream_changed(&queries[0], &stored, &all), None);
}

#[test]
fn partition_with_field_in_schema_changes_schema_checksum() {
    let with_field = Schema::from_fields(vec![Field::new("a", BqType::Int64)]);
    let plain = Checksums::compute("SELECT 1", &Schema::default(), "y");
    let changed = Checksums::compute("SELECT 1", &with_field, "y");
    assert_eq!(plain.sql, changed.sql);
    assert_eq!(plain.yaml, changed.yaml);
    assert_ne!(plain.schema, changed.schema);
}

#[test]
fn window_error_tells_windows_that_are_too_wide() {
    let from = date(2010, 1, 1);
    assert_eq!(DriftDetector::window_error(from, from), None);
    assert_eq!(DriftDetector::window_error(from, date(2009, 1, 1)), None);
    assert_eq!(DriftDetector::window_error(from, from.checked_add_days(3650).unwrap()), None);
    assert_eq!(
        DriftDetector::window_error(from, from.checked_add_days(3651).unwrap())
            .map(|e| e.to_string())
            .as_deref(),
        Some("Partition error: Date range too large: 3651 days exceeds maximum of 3650 days")
    );
}

#[test]
fn reported_queries_leave_out_shadowed_ones() {
    let yaml_contents: Vec<(String, String)> = Vec::new();
    let queries = vec![
        create_test_query("a", "SELECT 1"),
        create_test_query("b", "SELECT 1"),
        create_test_query("a", "SELECT 2"),
        create_test_query("c", "SELECT 1"),
        create_test_query("b", "SELECT 2"),
    ];
    let detector = DriftDetector::new(&queries, &yaml_contents);
    assert_eq!(detector.reported_queries(), vec![2, 3, 4]);
    let none: Vec<bqdrift::dsl::QueryDef> = Vec::new();
    assert_eq!(DriftDetector::new(&none, &yaml_contents).reported_queries(), Vec::<usize>::new());
}

#[test]
fn yaml_of_the_last_pair_of_a_name_counts() {
    let sql = "SELECT * FROM source";
    let query = create_test_query("test_query", sql);
    let yaml_contents = vec![
        ("test_query".to_string(), "first".to_string()),
        ("other".to_string(), "other".to_string()),
        ("test_query".to_string(), "second".to_string()),
    ];
    let queries = vec![query];
    let detector = DriftDetector::new(&queries, &yaml_contents);
    let day = date(2024, 1, 15);
    let stored = create_stored_state("test_query", day, sql, "anything");
    let report = detector.detect(&[stored], day, day).unwrap();
    assert_eq!(report.partitions[0].state, DriftState::Current);
    assert_eq!(report.needs_rerun_count(), 0);
    assert_eq!(report.len(), 1);
}

#[test]
fn states_need_a_rerun_unless_current() {
    for state in [
        DriftState::SqlChanged,
        DriftState::SchemaChanged,
        DriftState::VersionUpgraded,
        DriftState::UpstreamChanged,
        DriftState::NeverRun,
        DriftState::Failed,
    ] {
        assert!(state.needs_rerun());
    }
    assert!(!DriftState::Current.needs_rerun());
    assert_eq!(DriftState::Current.as_str(), "current");
    assert_eq!(DriftState::UpstreamChanged.as_str(), "upstream_changed");
    assert_eq!(DriftState::NeverRun.as_str(), "never_run");
}

use bqdrift::calendar::Date;
use bqdrift::dsl::{Destination, Include, YamlPreprocessor};
use bqdrift::error::BqDriftError;
use bqdrift::executor::{ColumnInfo, QueryResult};
use bqdrift::invariants::{
    resolve_invariants_def, CheckResult, CheckStatus, InvariantCheck, InvariantChecker,
    InvariantDef, InvariantsDef, ResolvedInvariant, Severity,
};
use bqdrift::schema::PartitionConfig;
use bqdrift::text::parse_u64;

fn destination(partition: PartitionConfig) -> Destination {
    Destination {
        dataset: "ds".to_string(),
        table: "tbl".to_string(),
        partition,
        cluster: None,
    }
}

fn resolved(name: &str, check: InvariantCheck, severity: Severity) -> ResolvedInvariant {
    ResolvedInvariant { name: name.to_string(), check, severity, description: None }
}

fn answer(cell: &str) -> Result<QueryResult, String> {
    Ok(QueryResult {
        columns: vec![ColumnInfo { name: "f0_".to_string(), column_type: "INT64".to_string() }],
        rows: vec![vec![cell.to_string()]],
    })
}

#[test]
fn declared_invariants_are_made_ready_in_order() {
    let def = InvariantsDef {
        before: vec![
            InvariantDef {
                name: "rows".to_string(),
                check: InvariantCheck::RowCount { min: Some(1), max: Some(9) },
                severity: Severity::Error,
                description: Some("some rows".to_string()),
            },
            InvariantDef {
                name: "ids".to_string(),
                check: InvariantCheck::NotNull { column: "id".to_string() },
                severity: Severity::Warning,
                description: None,
            },
        ],
        after: vec![InvariantDef {
            name: "keys".to_string(),
            check: InvariantCheck::Unique { columns: vec!["id".to_string(), "day".to_string()] },
            severity: Severity::Error,
            description: None,
        }],
    };
    let (before, after) = resolve_invariants_def(&def);
    assert_eq!(
        before,
        vec![
            ResolvedInvariant {
                name: "rows".to_string(),
                check: InvariantCheck::RowCount { min: Some(1), max: Some(9) },
                severity: Severity::Error,
                description: Some("some rows".to_string()),
            },
            resolved("ids", InvariantCheck::NotNull { column: "id".to_string() }, Severity::Warning),
        ]
    );
    assert_eq!(
        after,
        vec![resolved(
            "keys",
            InvariantCheck::Unique { columns: vec!["id".to_string(), "day".to_string()] },
            Severity::Error
        )]
    );
    let (before, after) = resolve_invariants_def(&InvariantsDef::default());
    assert!(before.is_empty() && after.is_empty());
}

#[test]
fn check_queries() {
    let day = Date::from_ymd_opt(2024, 3, 1).unwrap();
    let checker = InvariantChecker::new(&destination(PartitionConfig::day("event_date")), day);
    let rows = resolved("r", InvariantCheck::RowCount { min: Some(1), max: None }, Severity::Error);
    assert_eq!(
        checker.sql_for(&rows),
        "SELECT COUNT(*) FROM `ds.tbl` WHERE event_date = DATE('2024-03-01')"
    );
    let not_null = resolved("n", InvariantCheck::NotNull { column: "id".to_string() }, Severity::Error);
    assert_eq!(
        checker.sql_for(&not_null),
        "SELECT COUNT(*) FROM `ds.tbl` WHERE event_date = DATE('2024-03-01') AND id IS NULL"
    );
    let unique = resolved(
        "u",
        InvariantCheck::Unique { columns: vec!["id".to_string(), "day".to_string()] },
        Severity::Error,
    );
    assert_eq!(
        checker.sql_for(&unique),
        "SELECT COUNT(*) FROM (SELECT id, day FROM `ds.tbl` WHERE event_date = DATE('2024-03-01') GROUP BY id, day HAVING COUNT(*) > 1)"
    );
    let custom = resolved(
        "c",
        InvariantCheck::Custom { sql: "SELECT 1 FROM t WHERE x < 0".to_string() },
        Severity::Error,
    );
    assert_eq!(
        checker.sql_for(&custom),
        "SELECT COUNT(*) FROM (SELECT 1 FROM t WHERE x < 0)"
    );
    let unpartitioned = InvariantChecker::new(&destination(PartitionConfig::ingestion_time()), day);
    assert_eq!(unpartitioned.sql_for(&rows), "SELECT COUNT(*) FROM `ds.tbl` WHERE TRUE");
}

#[test]
fn answers_are_judged() {
    let rows = resolved("r", InvariantCheck::RowCount { min: Some(2), max: Some(4) }, Severity::Warning);
    let passed = |name: &str, severity| CheckResult {
        name: name.to_string(),
        status: CheckStatus::Passed,
        severity,
        message: None,
    };
    let failed = |name: &str, severity, message: &str| CheckResult {
        name: name.to_string(),
        status: CheckStatus::Failed,
        severity,
        message: Some(message.to_string()),
    };
    assert_eq!(InvariantChecker::judge(&rows, answer("2")), passed("r", Severity::Warning));
    assert_eq!(InvariantChecker::judge(&rows, answer("4")), passed("r", Severity::Warning));
    assert_eq!(
        InvariantChecker::judge(&rows, answer("1")),
        failed("r", Severity::Warning, "row count 1 is out of bounds")
    );
    assert_eq!(
        InvariantChecker::judge(&rows, answer("5")),
        failed("r", Severity::Warning, "row count 5 is out of bounds")
    );
    let open_below = resolved("r", InvariantCheck::RowCount { min: Some(-3), max: Some(0) }, Severity::Error);
    assert_eq!(InvariantChecker::judge(&open_below, answer("0")), passed("r", Severity::Error));
    let never = resolved("r", InvariantCheck::RowCount { min: None, max: Some(-1) }, Severity::Error);
    assert_eq!(
        InvariantChecker::judge(&never, answer("0")),
        failed("r", Severity::Error, "row count 0 is out of bounds")
    );
    let not_null = resolved("n", InvariantCheck::NotNull { column: "id".to_string() }, Severity::Error);
    assert_eq!(InvariantChecker::judge(&not_null, answer("0")), passed("n", Severity::Error));
    assert_eq!(
        InvariantChecker::judge(&not_null, answer("3")),
        failed("n", Severity::Error, "3 null value(s) in column id")
    );
    let unique = resolved("u", InvariantCheck::Unique { columns: vec!["id".to_string()] }, Severity::Error);
    assert_eq!(
        InvariantChecker::judge(&unique, answer("18446744073709551615")),
        failed("u", Severity::Error, "18446744073709551615 duplicated key(s)")
    );
    let custom = resolved("c", InvariantCheck::Custom { sql: "SELECT 1".to_string() }, Severity::Error);
    assert_eq!(
        InvariantChecker::judge(&custom, answer("1")),
        failed("c", Severity::Error, "1 row(s) returned by the check")
    );
}

#[test]
fn warehouse_errors_fail_a_check_and_missing_counts_skip_it() {
    let rows = resolved("r", InvariantCheck::RowCount { min: Some(1), max: None }, Severity::Error);
    let outcome = InvariantChecker::judge(&rows, Err("table not found".to_string()));
    assert_eq!(outcome.status, CheckStatus::Failed);
    assert_eq!(outcome.message.as_deref(), Some("table not found"));
    assert!(outcome.is_blocking());
    let skipped = |r: CheckResult| {
        assert_eq!(r.status, CheckStatus::Skipped);
        assert_eq!(r.message.as_deref(), Some("the check returned no count"));
        assert!(!r.is_blocking());
    };
    skipped(InvariantChecker::judge(&rows, Ok(QueryResult::empty())));
    skipped(InvariantChecker::judge(&rows, Ok(QueryResult { columns: vec![], rows: vec![vec![]] })));
    skipped(InvariantChecker::judge(&rows, answer("many")));
    skipped(InvariantChecker::judge(&rows, answer("-1")));
    skipped(InvariantChecker::judge(&rows, answer("18446744073709551616")));
    assert_eq!(parse_u64("18446744073709551615"), Some(u64::MAX));
    assert_eq!(parse_u64("18446744073709551616"), None);
    assert_eq!(parse_u64("0018"), Some(18));
}

#[test]
fn inclusions_are_found() {
    let text = "name: q\nversions: !include  versions/v1.yaml\nowner: x";
    let found = YamlPreprocessor::find_include(text, 0).unwrap();
    assert_eq!(
        found,
        Include { start: 18, end: 44, path: "versions/v1.yaml".to_string() }
    );
    assert_eq!(
        YamlPreprocessor::splice(text, &found, "[1, 2]"),
        "name: q\nversions: [1, 2]\nowner: x"
    );
    assert_eq!(YamlPreprocessor::find_include("no directive here", 0), None);
    assert_eq!(YamlPreprocessor::find_include("", 0), None);
    assert_eq!(YamlPreprocessor::find_include("!include", 0), None);
    assert_eq!(YamlPreprocessor::find_include("!include ", 0), None);
    assert_eq!(YamlPreprocessor::find_include("!include\nfile", 0), None);
    assert_eq!(YamlPreprocessor::find_include("!includes file", 0), None);
    assert_eq!(
        YamlPreprocessor::find_include("!include\tf", 0),
        Some(Include { start: 0, end: 10, path: "f".to_string() })
    );
    assert_eq!(
        YamlPreprocessor::find_include("é: !include a.yaml\n!include b.yaml", 0),
        Some(Include { start: 3, end: 18, path: "a.yaml".to_string() })
    );
    assert_eq!(
        YamlPreprocessor::find_include("!include \n!include b", 0),
        Some(Include { start: 10, end: 20, path: "b".to_string() })
    );
    let two = "!include a !include b";
    assert_eq!(
        YamlPreprocessor::find_include(two, 0),
        Some(Include { start: 0, end: 10, path: "a".to_string() })
    );
    assert_eq!(
        YamlPreprocessor::find_include(two, 1),
        Some(Include { start: 11, end: 21, path: "b".to_string() })
    );
    assert_eq!(
        YamlPreprocessor::find_include(two, 11),
        Some(Include { start: 11, end: 21, path: "b".to_string() })
    );
    assert_eq!(YamlPreprocessor::find_include(two, 12), None);
    assert_eq!(YamlPreprocessor::find_include(two, 21), None);
    assert_eq!(YamlPreprocessor::find_include(two, 99), None);
}

#[test]
fn splices_replace_the_directive() {
    let site = Include { start: 1, end: 3, path: String::new() };
    assert_eq!(YamlPreprocessor::splice("héllo", &site, "EY"), "hEYlo");
    assert_eq!(YamlPreprocessor::checked_splice("héllo", &site, ""), Some(("hlo".to_string(), 1)));
    assert_eq!(
        YamlPreprocessor::checked_splice("héllo", &site, "äö"),
        Some(("häölo".to_string(), 3))
    );
    let whole = Include { start: 0, end: 5, path: String::new() };
    assert_eq!(YamlPreprocessor::checked_splice("héllo", &whole, "x"), Some(("x".to_string(), 1)));
    let beyond = Include { start: 0, end: 6, path: String::new() };
    assert_eq!(YamlPreprocessor::checked_splice("héllo", &beyond, "x"), None);
    let crossed = Include { start: 3, end: 2, path: String::new() };
    assert_eq!(YamlPreprocessor::checked_splice("héllo", &crossed, "x"), None);
}

#[test]
fn circles_of_inclusions_are_told() {
    let stack = vec!["a.yaml".to_string(), "b.yaml".to_string()];
    assert!(YamlPreprocessor::is_cycle(&stack, "a.yaml"));
    assert!(YamlPreprocessor::is_cycle(&stack, "b.yaml"));
    assert!(!YamlPreprocessor::is_cycle(&stack, "c.yaml"));
    assert!(!YamlPreprocessor::is_cycle(&vec![], "a.yaml"));
    assert_eq!(
        YamlPreprocessor::cycle_error(&stack, "a.yaml"),
        BqDriftError::DslParse("Include cycle: a.yaml -> b.yaml -> a.yaml".to_string())
    );
    assert_eq!(
        YamlPreprocessor::cycle_error(&vec![], "a.yaml"),
        BqDriftError::DslParse("Include cycle: a.yaml".to_string())
    );
}

use std::collections::HashMap;

use bqdrift::calendar::Date;
use bqdrift::dsl::{
    to_lowercase, Destination, ExtendedSchema, ParsedRef, QueryDef, QueryLoader, RawQueryDef,
    RawVersionDef, ResolvedRevision, Revision, SchemaRef, SqlDependencies, VariableResolver,
    VersionDef,
};
use bqdrift::error::BqDriftError;
use bqdrift::invariants::{
    ExtendedInvariants, InvariantCheck, InvariantDef, InvariantsDef, InvariantsRef,
    InvariantsRemove, Severity,
};
use bqdrift::schema::{BqType, Field, FieldMode, PartitionConfig, Schema};

fn date(year: i32, month: u32, day: u32) -> Date {
    Date::from_ymd_opt(year, month, day).unwrap()
}

fn field(name: &str) -> Field {
    Field::new(name, BqType::String)
}

fn names(schema: &Schema) -> Vec<String> {
    schema.fields.iter().map(|f| f.name.clone()).collect()
}

fn raw_version(version: u32, effective_from: Date, schema: SchemaRef) -> RawVersionDef {
    RawVersionDef {
        version,
        effective_from,
        source: format!("SELECT {} FROM source_{}", version, version),
        schema,
        revisions: vec![],
        description: None,
        backfill_since: None,
        invariants: None,
    }
}

fn raw_query(versions: Vec<RawVersionDef>) -> RawQueryDef {
    RawQueryDef {
        name: "q".to_string(),
        destination: Destination {
            dataset: "ds".to_string(),
            table: "tbl".to_string(),
            partition: PartitionConfig::day("date"),
            cluster: None,
        },
        description: Some("a query".to_string()),
        owner: Some("team".to_string()),
        tags: vec!["daily".to_string()],
        versions,
    }
}

fn named_check(name: &str, severity: Severity) -> InvariantDef {
    InvariantDef {
        name: name.to_string(),
        check: InvariantCheck::NotNull { column: name.to_string() },
        severity,
        description: None,
    }
}

fn invariant_names(defs: &[InvariantDef]) -> Vec<String> {
    defs.iter().map(|d| d.name.clone()).collect()
}

#[test]
fn variable_refs_are_recognised() {
    let r = VariableResolver::new();
    assert!(r.is_variable_ref("${{ versions.1.schema }}"));
    assert!(r.is_variable_ref("${{versions.12.sql}}"));
    assert!(r.is_variable_ref("${{   versions.3.invariants\t}}"));
    assert!(r.is_variable_ref("prefix ${{ versions.1.schema }} suffix"));
    assert!(!r.is_variable_ref("versions.1.schema"));
    assert!(!r.is_variable_ref("${{ versions.x.schema }}"));
    assert!(!r.is_variable_ref("${{ versions.1 }}"));
    assert!(!r.is_variable_ref("${ versions.1.schema }"));
    assert!(!r.is_variable_ref("${{ version.1.schema }}"));
    assert!(!r.is_variable_ref(""));
    assert!(!r.is_variable_ref("SELECT 1"));
}

#[test]
fn references_are_parsed() {
    let r = VariableResolver::new();
    assert_eq!(
        r.parse_reference("${{ versions.12.schema }}"),
        ParsedRef::Version { version: 12, field: "schema".to_string() }
    );
    assert_eq!(
        r.parse_reference("see ${{versions.007.some_field}} and ${{ versions.9.x }}"),
        ParsedRef::Version { version: 7, field: "some_field".to_string() }
    );
    assert_eq!(r.parse_reference("nothing here"), ParsedRef::NoMatch);
    assert_eq!(r.parse_reference("${{ versions.99999999999.schema }}"), ParsedRef::Malformed);
    assert_eq!(r.parse_reference("${{ versions.٣.schema }}"), ParsedRef::Malformed);
}

#[test]
fn captures_are_interpreted() {
    let some = |s: &str| Some(s.to_string());
    assert_eq!(VariableResolver::interpret_captures(None), ParsedRef::NoMatch);
    assert_eq!(
        VariableResolver::interpret_captures(Some(vec![some("x"), some("3"), some("sql")])),
        ParsedRef::Version { version: 3, field: "sql".to_string() }
    );
    assert_eq!(
        VariableResolver::interpret_captures(Some(vec![some("x"), some("3"), some("sql"), None])),
        ParsedRef::Version { version: 3, field: "sql".to_string() }
    );
    assert_eq!(
        VariableResolver::interpret_captures(Some(vec![some("x"), some("3")])),
        ParsedRef::Malformed
    );
    assert_eq!(
        VariableResolver::interpret_captures(Some(vec![some("x"), None, some("sql")])),
        ParsedRef::Malformed
    );
    assert_eq!(
        VariableResolver::interpret_captures(Some(vec![some("x"), some("3"), None])),
        ParsedRef::Malformed
    );
    assert_eq!(
        VariableResolver::interpret_captures(Some(vec![some("x"), some("abc"), some("sql")])),
        ParsedRef::Malformed
    );
    assert_eq!(VariableResolver::interpret_captures(Some(vec![])), ParsedRef::Malformed);
}

#[test]
fn targets_of_references() {
    let r = VariableResolver::new();
    assert_eq!(r.target_version("${{ versions.2.schema }}", "schema"), Ok(2));
    assert_eq!(
        r.target_version("${{ versions.2.sql }}", "schema"),
        Err(BqDriftError::VariableResolution("Expected 'schema' field, got 'sql'".to_string()))
    );
    assert_eq!(
        r.target_version("v2", "schema"),
        Err(BqDriftError::InvalidVersionRef("v2".to_string()))
    );
    assert_eq!(
        r.target_version("${{ versions.99999999999.schema }}", "schema"),
        Err(BqDriftError::InvalidVersionRef("${{ versions.99999999999.schema }}".to_string()))
    );
}

#[test]
fn resolve_schema_inline_and_reference() {
    let r = VariableResolver::new();
    let mut known: HashMap<u32, Schema> = HashMap::new();
    let inline = r.resolve_schema(&SchemaRef::Inline(vec![field("a"), field("b")]), &known).unwrap();
    assert_eq!(names(&inline), vec!["a", "b"]);
    known.insert(1, inline);
    let referenced = r
        .resolve_schema(&SchemaRef::Reference("${{ versions.1.schema }}".to_string()), &known)
        .unwrap();
    assert_eq!(names(&referenced), vec!["a", "b"]);
    assert_eq!(
        r.resolve_schema(&SchemaRef::Reference("${{ versions.2.schema }}".to_string()), &known),
        Err(BqDriftError::InvalidVersionRef("Version 2 not found or not yet resolved".to_string()))
    );
    assert_eq!(
        r.resolve_schema(&SchemaRef::Reference("garbage".to_string()), &known),
        Err(BqDriftError::InvalidVersionRef("garbage".to_string()))
    );
    assert_eq!(
        r.resolve_schema(&SchemaRef::Reference("${{ versions.1.invariants }}".to_string()), &known),
        Err(BqDriftError::VariableResolution("Expected 'schema' field, got 'invariants'".to_string()))
    );
}

#[test]
fn resolve_schema_extended_removes_then_modifies_then_adds() {
    let r = VariableResolver::new();
    let mut known: HashMap<u32, Schema> = HashMap::new();
    known.insert(1, Schema::from_fields(vec![field("a"), field("b")]));
    let ext = ExtendedSchema {
        base: "${{ versions.1.schema }}".to_string(),
        add: vec![field("c")],
        remove: vec!["a".to_string()],
        modify: vec![],
    };
    let resolved = r.resolve_schema(&SchemaRef::Extended(ext), &known).unwrap();
    assert_eq!(names(&resolved), vec!["b", "c"]);

    known.insert(
        2,
        Schema::from_fields(vec![field("a"), field("b"), field("a"), field("c")]),
    );
    let ext = ExtendedSchema {
        base: "${{ versions.2.schema }}".to_string(),
        add: vec![field("b"), field("d").with_mode(FieldMode::Repeated)],
        remove: vec!["b".to_string(), "zz".to_string()],
        modify: vec![
            Field::new("a", BqType::Int64),
            Field::new("b", BqType::Int64),
            Field::new("a", BqType::Bool),
            Field::new("d", BqType::Bool),
        ],
    };
    let resolved = r.resolve_schema(&SchemaRef::Extended(ext), &known).unwrap();
    assert_eq!(names(&resolved), vec!["a", "a", "c", "b", "d"]);
    assert_eq!(resolved.fields[0].bq_type, BqType::Bool);
    assert_eq!(resolved.fields[1].bq_type, BqType::String);
    assert_eq!(resolved.fields[3].bq_type, BqType::String);
    assert_eq!(resolved.fields[4].bq_type, BqType::String);
    assert_eq!(resolved.fields[4].mode, FieldMode::Repeated);

    let missing = ExtendedSchema {
        base: "${{ versions.7.schema }}".to_string(),
        add: vec![],
        remove: vec![],
        modify: vec![],
    };
    assert_eq!(
        r.resolve_schema(&SchemaRef::Extended(missing), &known),
        Err(BqDriftError::InvalidVersionRef("Base version 7 not found".to_string()))
    );
}

#[test]
fn resolve_sql_ref_passes_plain_sql_through() {
    let r = VariableResolver::new();
    let mut known: HashMap<u32, String> = HashMap::new();
    known.insert(1, "SELECT 1".to_string());
    assert_eq!(r.resolve_sql_ref("SELECT 2", &known), Ok("SELECT 2".to_string()));
    assert_eq!(r.resolve_sql_ref("${{ versions.1.sql }}", &known), Ok("SELECT 1".to_string()));
    assert_eq!(
        r.resolve_sql_ref("${{ versions.2.sql }}", &known),
        Err(BqDriftError::InvalidVersionRef("SQL for version 2 not found".to_string()))
    );
    assert_eq!(
        r.resolve_sql_ref("${{ versions.1.schema }}", &known),
        Err(BqDriftError::VariableResolution("Expected 'sql' field, got 'schema'".to_string()))
    );
    assert_eq!(
        r.resolve_sql_ref("${{ versions.99999999999.sql }}", &known),
        Err(BqDriftError::InvalidVersionRef("${{ versions.99999999999.sql }}".to_string()))
    );
}

#[test]
fn resolve_invariants_in_each_form() {
    let r = VariableResolver::new();
    let mut known: HashMap<u32, InvariantsDef> = HashMap::new();
    assert_eq!(r.resolve_invariants(&None, &known), Ok(InvariantsDef::default()));
    let base = InvariantsDef {
        before: vec![named_check("a", Severity::Error), named_check("b", Severity::Error)],
        after: vec![named_check("x", Severity::Warning)],
    };
    assert_eq!(
        r.resolve_invariants(&Some(InvariantsRef::Inline(base.clone())), &known),
        Ok(base.clone())
    );
    known.insert(1, base.clone());
    assert_eq!(
        r.resolve_invariants(
            &Some(InvariantsRef::Reference("${{ versions.1.invariants }}".to_string())),
            &known
        ),
        Ok(base.clone())
    );
    assert_eq!(
        r.resolve_invariants(
            &Some(InvariantsRef::Reference("${{ versions.2.invariants }}".to_string())),
            &known
        ),
        Err(BqDriftError::InvalidVersionRef(
            "Invariants for version 2 not found or not yet resolved".to_string()
        ))
    );
    assert_eq!(
        r.resolve_invariants(
            &Some(InvariantsRef::Reference("${{ versions.1.schema }}".to_string())),
            &known
        ),
        Err(BqDriftError::VariableResolution(
            "Expected 'invariants' field, got 'schema'".to_string()
        ))
    );
    assert_eq!(
        r.resolve_invariants(&Some(InvariantsRef::Reference("nope".to_string())), &known),
        Err(BqDriftError::InvalidVersionRef("nope".to_string()))
    );
    let ext = ExtendedInvariants {
        base: "${{ versions.1.invariants }}".to_string(),
        add: Some(InvariantsDef { before: vec![named_check("c", Severity::Error)], after: vec![] }),
        modify: Some(InvariantsDef {
            before: vec![named_check("b", Severity::Warning), named_check("a", Severity::Warning)],
            after: vec![named_check("nothing", Severity::Error)],
        }),
        remove: Some(InvariantsRemove { before: vec!["a".to_string()], after: vec![] }),
    };
    let resolved = r.resolve_invariants(&Some(InvariantsRef::Extended(ext)), &known).unwrap();
    assert_eq!(invariant_names(&resolved.before), vec!["b", "c"]);
    assert_eq!(resolved.before[0].severity, Severity::Warning);
    assert_eq!(invariant_names(&resolved.after), vec!["x"]);
    assert_eq!(resolved.after[0].severity, Severity::Warning);
    let bare = ExtendedInvariants {
        base: "${{ versions.1.invariants }}".to_string(),
        add: None,
        modify: None,
        remove: None,
    };
    assert_eq!(r.resolve_invariants(&Some(InvariantsRef::Extended(bare)), &known), Ok(base));
    let missing = ExtendedInvariants {
        base: "${{ versions.3.invariants }}".to_string(),
        add: None,
        modify: None,
        remove: None,
    };
    assert_eq!(
        r.resolve_invariants(&Some(InvariantsRef::Extended(missing)), &known),
        Err(BqDriftError::InvalidVersionRef("Base invariants version 3 not found".to_string()))
    );
}

#[test]
fn invariants_are_validated() {
    let r = VariableResolver::new();
    let known: HashMap<u32, InvariantsDef> = HashMap::new();
    let bad = |check: InvariantCheck| InvariantDef {
        name: "bad".to_string(),
        check,
        severity: Severity::Error,
        description: None,
    };
    let def = InvariantsDef {
        before: vec![named_check("a", Severity::Error)],
        after: vec![bad(InvariantCheck::RowCount { min: None, max: None })],
    };
    assert_eq!(
        r.resolve_invariants(&Some(InvariantsRef::Inline(def)), &known),
        Err(BqDriftError::Validation("Invariant 'bad' (after): row_count needs min or max".to_string()))
    );
    let def = InvariantsDef {
        before: vec![
            named_check("a", Severity::Error),
            bad(InvariantCheck::Unique { columns: vec![] }),
            bad(InvariantCheck::Custom { sql: String::new() }),
        ],
        after: vec![bad(InvariantCheck::RowCount { min: None, max: None })],
    };
    assert_eq!(
        r.validate_invariants_def(&def),
        Err(BqDriftError::Validation(
            "Invariant 'bad' (before): unique needs at least one column".to_string()
        ))
    );
    assert_eq!(InvariantCheck::RowCount { min: Some(1), max: None }.validate(), Ok(()));
    assert_eq!(InvariantCheck::RowCount { min: None, max: Some(1) }.validate(), Ok(()));
    assert_eq!(InvariantCheck::RowCount { min: Some(1), max: Some(1) }.validate(), Ok(()));
    assert_eq!(
        InvariantCheck::RowCount { min: Some(2), max: Some(1) }.validate(),
        Err("row_count min exceeds max".to_string())
    );
    assert_eq!(
        InvariantCheck::NotNull { column: String::new() }.validate(),
        Err("not_null needs a column".to_string())
    );
    assert_eq!(
        InvariantCheck::Custom { sql: String::new() }.validate(),
        Err("custom check needs sql".to_string())
    );
    assert_eq!(InvariantCheck::Custom { sql: "SELECT 1".to_string() }.validate(), Ok(()));
    assert_eq!(InvariantCheck::Unique { columns: vec!["a".to_string()] }.validate(), Ok(()));
    assert_eq!(r.validate_invariants_def(&InvariantsDef::default()), Ok(()));
}

#[test]
fn dependencies_are_extracted() {
    let deps = SqlDependencies::extract(
        "SELECT * FROM `Proj.Data.Users` u JOIN data.orders o ON 1=1 join DATA.ORDERS x ON 1=1\nFROM other",
    );
    assert_eq!(deps.tables, vec!["proj.data.users", "data.orders", "other"]);
    assert_eq!(SqlDependencies::extract("SELECT 1").tables, Vec::<String>::new());
    assert_eq!(SqlDependencies::extract("").tables, Vec::<String>::new());
    assert_eq!(SqlDependencies::extract("SELECT a FROM t1, t2").tables, vec!["t1"]);
    let found = vec!["B".to_string(), "a".to_string(), "b".to_string(), "A".to_string()];
    assert_eq!(SqlDependencies::from_matches(&found).tables, vec!["b", "a"]);
    assert_eq!(to_lowercase("MiXed_09-É"), "mixed_09-É");
}

#[test]
fn query_resolution_sorts_versions_and_resolves_in_order() {
    let v1 = raw_version(1, date(2024, 1, 1), SchemaRef::Inline(vec![field("a"), field("b")]));
    let v2 = raw_version(
        2,
        date(2024, 2, 1),
        SchemaRef::Extended(ExtendedSchema {
            base: "${{ versions.1.schema }}".to_string(),
            add: vec![field("c")],
            remove: vec!["a".to_string()],
            modify: vec![],
        }),
    );
    let mut v3 = raw_version(3, date(2024, 3, 1), SchemaRef::Reference("${{ versions.2.schema }}".to_string()));
    v3.revisions = vec![Revision {
        revision: 1,
        effective_from: date(2024, 3, 15),
        source: "SELECT 3 FROM Fixed JOIN source_3".to_string(),
        reason: Some("fix".to_string()),
        backfill_since: Some(date(2024, 3, 1)),
    }];
    let query = QueryLoader::new().resolve_query(raw_query(vec![v3, v1, v2])).unwrap();
    assert_eq!(query.name, "q");
    assert_eq!(query.description.as_deref(), Some("a query"));
    assert_eq!(query.owner.as_deref(), Some("team"));
    assert_eq!(query.tags, vec!["daily"]);
    assert_eq!(query.cluster, None);
    let numbers: Vec<u32> = query.versions.iter().map(|v| v.version).collect();
    assert_eq!(numbers, vec![1, 2, 3]);
    assert_eq!(names(&query.versions[0].schema), vec!["a", "b"]);
    assert_eq!(names(&query.versions[1].schema), vec!["b", "c"]);
    assert_eq!(names(&query.versions[2].schema), vec!["b", "c"]);
    assert_eq!(query.versions[0].source, "<inline>");
    assert_eq!(query.versions[0].sql_content, "SELECT 1 FROM source_1");
    assert_eq!(query.versions[0].dependencies, vec!["source_1"]);
    assert_eq!(query.versions[0].invariants, InvariantsDef::default());
    assert_eq!(
        query.versions[2].revisions,
        vec![ResolvedRevision {
            revision: 1,
            effective_from: date(2024, 3, 15),
            source: "<inline>".to_string(),
            sql_content: "SELECT 3 FROM Fixed JOIN source_3".to_string(),
            reason: Some("fix".to_string()),
            backfill_since: Some(date(2024, 3, 1)),
            dependencies: vec!["fixed".to_string(), "source_3".to_string()],
        }]
    );
}

#[test]
fn forward_references_fail() {
    let v1 = raw_version(1, date(2024, 1, 1), SchemaRef::Inline(vec![field("a")]));
    let v3 = raw_version(3, date(2024, 3, 1), SchemaRef::Reference("${{ versions.4.schema }}".to_string()));
    let v4 = raw_version(4, date(2024, 4, 1), SchemaRef::Inline(vec![field("d")]));
    assert_eq!(
        QueryLoader::new().resolve_query(raw_query(vec![v1, v3, v4])),
        Err(BqDriftError::InvalidVersionRef("Version 4 not found or not yet resolved".to_string()))
    );
    let early = raw_version(1, date(2024, 1, 1), SchemaRef::Reference("${{ versions.2.schema }}".to_string()));
    let late = raw_version(2, date(2024, 1, 1), SchemaRef::Inline(vec![field("a")]));
    assert!(matches!(
        QueryLoader::new().resolve_query(raw_query(vec![late, early])),
        Err(BqDriftError::InvalidVersionRef(_))
    ));
    let own = raw_version(1, date(2024, 1, 1), SchemaRef::Reference("${{ versions.1.schema }}".to_string()));
    assert!(matches!(
        QueryLoader::new().resolve_query(raw_query(vec![own])),
        Err(BqDriftError::InvalidVersionRef(_))
    ));
    let mut forward_invariants = raw_version(1, date(2024, 1, 1), SchemaRef::Inline(vec![]));
    forward_invariants.invariants =
        Some(InvariantsRef::Reference("${{ versions.2.invariants }}".to_string()));
    let target = raw_version(2, date(2024, 2, 1), SchemaRef::Inline(vec![]));
    assert_eq!(
        QueryLoader::new().resolve_query(raw_query(vec![forward_invariants, target])),
        Err(BqDriftError::InvalidVersionRef(
            "Invariants for version 2 not found or not yet resolved".to_string()
        ))
    );
}

#[test]
fn versions_that_take_effect_together_sort_by_number_and_then_as_declared() {
    let a = raw_version(2, date(2024, 1, 1), SchemaRef::Reference("${{ versions.1.schema }}".to_string()));
    let b = raw_version(1, date(2024, 1, 1), SchemaRef::Inline(vec![field("x")]));
    let query = QueryLoader::new().resolve_query(raw_query(vec![a, b])).unwrap();
    let numbers: Vec<u32> = query.versions.iter().map(|v| v.version).collect();
    assert_eq!(numbers, vec![1, 2]);
    let mut first = raw_version(5, date(2024, 1, 1), SchemaRef::Inline(vec![field("first")]));
    first.source = "first".to_string();
    let mut second = raw_version(5, date(2024, 1, 1), SchemaRef::Inline(vec![field("second")]));
    second.source = "second".to_string();
    let third = raw_version(6, date(2024, 1, 2), SchemaRef::Reference("${{ versions.5.schema }}".to_string()));
    let query = QueryLoader::new().resolve_query(raw_query(vec![third, first, second])).unwrap();
    let sources: Vec<&str> = query.versions.iter().map(|v| v.sql_content.as_str()).collect();
    assert_eq!(sources, vec!["first", "second", "SELECT 6 FROM source_6"]);
    assert_eq!(names(&query.versions[2].schema), vec!["second"]);
    let raw = vec![
        raw_version(3, date(2024, 3, 1), SchemaRef::Inline(vec![])),
        raw_version(1, date(2024, 1, 1), SchemaRef::Inline(vec![])),
        raw_version(2, date(2024, 1, 1), SchemaRef::Inline(vec![])),
        raw_version(1, date(2024, 1, 1), SchemaRef::Inline(vec![])),
    ];
    assert_eq!(QueryLoader::sorted_order(&raw), vec![1, 3, 2, 0]);
    assert_eq!(QueryLoader::sorted_order(&Vec::new()), Vec::<usize>::new());
}

#[test]
fn cluster_fields_are_checked_last() {
    let mut raw = raw_query(vec![raw_version(1, date(2024, 1, 1), SchemaRef::Inline(vec![]))]);
    raw.destination.cluster = Some(vec!["a".to_string(), "b".to_string()]);
    let query = QueryLoader::new().resolve_query(raw).unwrap();
    assert_eq!(query.cluster.unwrap().fields(), &vec!["a".to_string(), "b".to_string()]);
    let mut raw = raw_query(vec![raw_version(1, date(2024, 1, 1), SchemaRef::Inline(vec![]))]);
    raw.destination.cluster = Some(vec![]);
    assert_eq!(
        QueryLoader::new().resolve_query(raw),
        Err(BqDriftError::Validation("cluster fields must not be empty".to_string()))
    );
    let mut raw = raw_query(vec![raw_version(
        1,
        date(2024, 1, 1),
        SchemaRef::Reference("broken".to_string()),
    )]);
    raw.destination.cluster = Some(vec![]);
    assert_eq!(
        QueryLoader::new().resolve_query(raw),
        Err(BqDriftError::InvalidVersionRef("broken".to_string()))
    );
}

fn version_def(version: u32, effective_from: Date, sql: &str) -> VersionDef {
    VersionDef {
        version,
        effective_from,
        source: "<inline>".to_string(),
        sql_content: sql.to_string(),
        revisions: vec![],
        description: None,
        backfill_since: None,
        schema: Schema::default(),
        dependencies: Vec::new(),
        invariants: InvariantsDef::default(),
    }
}

fn query_def(versions: Vec<VersionDef>) -> QueryDef {
    QueryDef {
        name: "q".to_string(),
        destination: Destination {
            dataset: "ds".to_string(),
            table: "tbl".to_string(),
            partition: PartitionConfig::day("date"),
            cluster: None,
        },
        description: None,
        owner: None,
        tags: vec![],
        versions,
        cluster: None,
    }
}

#[test]
fn version_for_date_is_the_latest_in_effect() {
    let q = query_def(vec![
        version_def(1, date(2024, 1, 1), "v1"),
        version_def(2, date(2024, 2, 1), "v2"),
        version_def(3, date(2024, 3, 1), "v3"),
    ]);
    assert!(q.get_version_for_date(date(2023, 12, 31)).is_none());
    assert_eq!(q.get_version_for_date(date(2024, 1, 1)).unwrap().version, 1);
    assert_eq!(q.get_version_for_date(date(2024, 1, 31)).unwrap().version, 1);
    assert_eq!(q.get_version_for_date(date(2024, 2, 1)).unwrap().version, 2);
    assert_eq!(q.get_version_for_date(date(2024, 2, 29)).unwrap().version, 2);
    assert_eq!(q.get_version_for_date(date(2030, 1, 1)).unwrap().version, 3);
    assert_eq!(q.version_index_for_date(date(2024, 2, 15)), Some(1));
    assert_eq!(q.latest_version().unwrap().version, 3);
    assert!(query_def(vec![]).get_version_for_date(date(2024, 1, 1)).is_none());
    assert!(query_def(vec![]).latest_version().is_none());
    let unsorted = query_def(vec![
        version_def(3, date(2024, 3, 1), "v3"),
        version_def(1, date(2024, 1, 1), "v1"),
        version_def(2, date(2024, 1, 1), "v2"),
    ]);
    assert_eq!(unsorted.get_version_for_date(date(2024, 2, 1)).unwrap().version, 2);
    assert_eq!(unsorted.get_version_for_date(date(2024, 3, 1)).unwrap().version, 3);
}

#[test]
fn sql_for_date_is_that_of_the_latest_revision_in_effect() {
    let mut v = version_def(1, date(2024, 1, 1), "base");
    for (n, day, sql) in [(1, date(2024, 2, 1), "r1"), (2, date(2024, 3, 1), "r2")] {
        v.revisions.push(ResolvedRevision {
            revision: n,
            effective_from: day,
            source: "<inline>".to_string(),
            sql_content: sql.to_string(),
            reason: None,
            backfill_since: None,
            dependencies: Vec::new(),
        });
    }
    assert_eq!(v.get_sql_for_date(date(2024, 1, 31)), "base");
    assert_eq!(v.get_sql_for_date(date(2023, 1, 1)), "base");
    assert_eq!(v.get_sql_for_date(date(2024, 2, 1)), "r1");
    assert_eq!(v.get_sql_for_date(date(2024, 2, 29)), "r1");
    assert_eq!(v.get_sql_for_date(date(2024, 3, 1)), "r2");
    assert_eq!(v.get_revision_for_date(date(2024, 1, 31)), None);
    assert_eq!(v.get_revision_for_date(date(2024, 2, 15)), Some(1));
    assert_eq!(v.get_revision_for_date(date(2025, 1, 1)), Some(2));
    assert_eq!(v.revision_index_for_date(date(2025, 1, 1)), Some(1));
}

#[test]
fn well_formed_queries() {
    let good = query_def(vec![
        version_def(1, date(2024, 1, 1), "v1"),
        version_def(2, date(2024, 2, 1), "v2"),
    ]);
    assert!(good.is_well_formed());
    assert!(query_def(vec![]).is_well_formed());
    let same_day = query_def(vec![
        version_def(1, date(2024, 1, 1), "v1"),
        version_def(2, date(2024, 1, 1), "v2"),
    ]);
    assert!(!same_day.is_well_formed());
    let falling_numbers = query_def(vec![
        version_def(2, date(2024, 1, 1), "v1"),
        version_def(1, date(2024, 2, 1), "v2"),
    ]);
    assert!(!falling_numbers.is_well_formed());
    let unsorted = query_def(vec![
        version_def(1, date(2024, 2, 1), "v1"),
        version_def(2, date(2024, 1, 1), "v2"),
    ]);
    assert!(!unsorted.is_well_formed());
    let revision = |n: u32, day: Date| ResolvedRevision {
        revision: n,
        effective_from: day,
        source: "<inline>".to_string(),
        sql_content: "r".to_string(),
        reason: None,
        backfill_since: None,
        dependencies: Vec::new(),
    };
    let mut v = version_def(1, date(2024, 1, 1), "v1");
    v.revisions = vec![revision(1, date(2024, 1, 2)), revision(2, date(2024, 1, 3))];
    assert!(v.is_well_formed());
    v.revisions = vec![revision(1, date(2024, 1, 1))];
    assert!(!v.is_well_formed());
    v.revisions = vec![revision(1, date(2024, 1, 3)), revision(2, date(2024, 1, 3))];
    assert!(!v.is_well_formed());
    v.revisions = vec![revision(1, date(2024, 1, 3)), revision(2, date(2024, 1, 2))];
    assert!(!v.is_well_formed());
    assert!(!query_def(vec![v]).is_well_formed());
}

#[test]
fn loads_resolve_all_declarations_or_none() {
    let loader = QueryLoader::new();
    let named = |name: &str, schema: SchemaRef| {
        let mut raw = raw_query(vec![raw_version(1, date(2024, 1, 1), schema)]);
        raw.name = name.to_string();
        raw
    };
    let (queries, contents) = loader
        .resolve_all(vec![
            (named("a", SchemaRef::Inline(vec![])), "text a".to_string()),
            (named("b", SchemaRef::Inline(vec![field("x")])), "text b".to_string()),
        ])
        .unwrap();
    let query_names: Vec<&str> = queries.iter().map(|q| q.name.as_str()).collect();
    assert_eq!(query_names, vec!["a", "b"]);
    assert_eq!(
        contents,
        vec![("a".to_string(), "text a".to_string()), ("b".to_string(), "text b".to_string())]
    );
    assert_eq!(
        loader.resolve_all(vec![
            (named("a", SchemaRef::Inline(vec![])), "text a".to_string()),
            (named("b", SchemaRef::Reference("first".to_string())), "text b".to_string()),
            (named("c", SchemaRef::Reference("second".to_string())), "text c".to_string()),
        ]),
        Err(BqDriftError::InvalidVersionRef("first".to_string()))
    );
    assert_eq!(loader.resolve_all(vec![]), Ok((vec![], vec![])));
}

use bqdrift::calendar::{Date, Timestamp, MAX_DAY_NUMBER, MAX_YEAR, MIN_YEAR};
use bqdrift::error::BqDriftError;
use bqdrift::schema::{
    BqType, ClusterConfig, Field, FieldMode, PartitionConfig, PartitionKey, PartitionType, Schema,
};

fn date(year: i32, month: u32, day: u32) -> Date {
    Date::from_ymd_opt(year, month, day).unwrap()
}

#[test]
fn field_builders() {
    let f = Field::new("user_id", BqType::Int64);
    assert_eq!(f.name, "user_id");
    assert_eq!(f.bq_type, BqType::Int64);
    assert_eq!(f.mode, FieldMode::Nullable);
    assert_eq!(f.description, None);
    let g = f.clone().with_mode(FieldMode::Required).with_description("the user");
    assert_eq!(g.name, "user_id");
    assert_eq!(g.mode, FieldMode::Required);
    assert_eq!(g.description.as_deref(), Some("the user"));
    assert_eq!(f.clone(), f);
}

#[test]
fn type_and_mode_names() {
    assert_eq!(BqType::String.as_str(), "STRING");
    assert_eq!(BqType::Float64.as_str(), "FLOAT64");
    assert_eq!(BqType::Bignumeric.as_str(), "BIGNUMERIC");
    assert_eq!(BqType::Record.as_str(), "RECORD");
    assert_eq!(FieldMode::Required.as_str(), "REQUIRED");
    assert_eq!(FieldMode::Nullable.as_str(), "NULLABLE");
    assert_eq!(FieldMode::Repeated.as_str(), "REPEATED");
}

#[test]
fn schema_canonical_text() {
    assert_eq!(Schema::default().canonical(), "");
    let one = Schema::from_fields(vec![Field::new("a", BqType::Int64)]);
    assert_eq!(one.canonical(), "a|INT64|NULLABLE|");
    let two = Schema::from_fields(vec![
        Field::new("a", BqType::Int64),
        Field::new("b", BqType::String)
            .with_mode(FieldMode::Required)
            .with_description("desc"),
    ]);
    assert_eq!(two.canonical(), "a|INT64|NULLABLE|\nb|STRING|REQUIRED|desc");
    assert_eq!(two.len(), 2);
    assert!(!two.is_empty());
    assert!(Schema::default().is_empty());
}

#[test]
fn schema_canonical_text_keeps_field_order() {
    let ab = Schema::from_fields(vec![Field::new("a", BqType::Int64), Field::new("b", BqType::Int64)]);
    let ba = Schema::from_fields(vec![Field::new("b", BqType::Int64), Field::new("a", BqType::Int64)]);
    assert_ne!(ab.canonical(), ba.canonical());
}

#[test]
fn schema_position_finds_first_of_a_name() {
    let s = Schema::from_fields(vec![
        Field::new("a", BqType::Int64),
        Field::new("b", BqType::Int64),
        Field::new("a", BqType::String),
    ]);
    assert_eq!(s.position("a"), Some(0));
    assert_eq!(s.position("b"), Some(1));
    assert_eq!(s.position("c"), None);
    assert_eq!(Schema::default().position("a"), None);
}

#[test]
fn cluster_config_takes_one_to_four_fields() {
    let names = |n: usize| (0..n).map(|i| format!("c{}", i)).collect::<Vec<String>>();
    assert_eq!(
        ClusterConfig::new(names(0)),
        Err(BqDriftError::Validation("cluster fields must not be empty".to_string()))
    );
    assert_eq!(
        ClusterConfig::new(names(5)),
        Err(BqDriftError::Validation("at most 4 cluster fields are allowed".to_string()))
    );
    for n in 1..=4 {
        let c = ClusterConfig::new(names(n)).unwrap();
        assert_eq!(c.fields(), &names(n));
        assert_eq!(c.clone(), c);
    }
}

#[test]
fn partition_configs() {
    let day = PartitionConfig::day("date");
    assert_eq!(day.field_name(), Some("date"));
    assert_eq!(day.partition_type, PartitionType::Day);
    assert_eq!(PartitionConfig::hour("ts").partition_type, PartitionType::Hour);
    assert_eq!(PartitionConfig::month("m").partition_type, PartitionType::Month);
    assert_eq!(PartitionConfig::year("y").partition_type, PartitionType::Year);
    let range = PartitionConfig::range("bucket", 0, 100, 10);
    assert_eq!(range.partition_type, PartitionType::Range);
    assert_eq!((range.start, range.end, range.interval), (Some(0), Some(100), Some(10)));
    assert_eq!(range.field_name(), Some("bucket"));
    let ingestion = PartitionConfig::ingestion_time();
    assert_eq!(ingestion.field_name(), None);
    assert_eq!(ingestion.partition_type, PartitionType::IngestionTime);
    assert_eq!(day.clone(), day);
}

#[test]
fn partition_key_texts() {
    let hour = PartitionKey::Hour(Timestamp::new(date(2024, 3, 1), 13 * 3600 + 59 * 60, 0).unwrap());
    assert_eq!(hour.sql_value(), "2024-03-01 13:00:00");
    assert_eq!(hour.sql_literal(), "TIMESTAMP('2024-03-01 13:00:00')");
    assert_eq!(hour.decorator(), "$2024030113");
    let day = PartitionKey::Day(date(2024, 3, 1));
    assert_eq!(day.sql_value(), "2024-03-01");
    assert_eq!(day.sql_literal(), "DATE('2024-03-01')");
    assert_eq!(day.decorator(), "$20240301");
    let month = PartitionKey::Month { year: 2024, month: 3 };
    assert_eq!(month.sql_value(), "2024-03-01");
    assert_eq!(month.sql_literal(), "DATE('2024-03-01')");
    assert_eq!(month.decorator(), "$202403");
    let year = PartitionKey::Year(2024);
    assert_eq!(year.sql_value(), "2024-01-01");
    assert_eq!(year.sql_literal(), "DATE('2024-01-01')");
    assert_eq!(year.decorator(), "$2024");
    let range = PartitionKey::Range(-42);
    assert_eq!(range.sql_value(), "-42");
    assert_eq!(range.sql_literal(), "-42");
    assert_eq!(range.decorator(), "$-42");
}

#[test]
fn partition_key_days() {
    let ts = Timestamp::new(date(2024, 3, 1), 100, 0).unwrap();
    assert_eq!(PartitionKey::Hour(ts).to_naive_date(), date(2024, 3, 1));
    assert_eq!(PartitionKey::Day(date(2024, 3, 5)).to_naive_date(), date(2024, 3, 5));
    assert_eq!(PartitionKey::Month { year: 2024, month: 3 }.to_naive_date(), date(2024, 3, 1));
    assert_eq!(PartitionKey::Year(2024).to_naive_date(), date(2024, 1, 1));
    assert_eq!(PartitionKey::Range(7).to_naive_date(), date(1970, 1, 1));
    assert_eq!(PartitionKey::Month { year: 2024, month: 13 }.to_naive_date(), date(1970, 1, 1));
    assert_eq!(PartitionKey::Year(MAX_YEAR + 1).to_naive_date(), date(1970, 1, 1));
}

#[test]
fn partition_key_steps() {
    let day = PartitionKey::Day(date(2024, 2, 28));
    assert_eq!(day.next(), PartitionKey::Day(date(2024, 2, 29)));
    assert_eq!(day.next_by(2), PartitionKey::Day(date(2024, 3, 1)));
    assert_eq!(day.checked_next_by(-28), Some(PartitionKey::Day(date(2024, 1, 31))));
    let month = PartitionKey::Month { year: 2024, month: 12 };
    assert_eq!(month.next(), PartitionKey::Month { year: 2025, month: 1 });
    assert_eq!(month.next_by(14), PartitionKey::Month { year: 2026, month: 2 });
    assert_eq!(month.checked_next_by(-12), Some(PartitionKey::Month { year: 2023, month: 12 }));
    assert_eq!(
        PartitionKey::Month { year: 2024, month: 1 }.checked_next_by(-1),
        Some(PartitionKey::Month { year: 2023, month: 12 })
    );
    assert_eq!(
        PartitionKey::Month { year: -1, month: 1 }.checked_next_by(-1),
        Some(PartitionKey::Month { year: -2, month: 12 })
    );
    assert_eq!(PartitionKey::Month { year: MAX_YEAR, month: 12 }.checked_next_by(1), None);
    assert_eq!(PartitionKey::Month { year: MIN_YEAR, month: 1 }.checked_next_by(-1), None);
    assert_eq!(PartitionKey::Month { year: 2024, month: 1 }.checked_next_by(i64::MAX), None);
    assert_eq!(PartitionKey::Year(2024).next(), PartitionKey::Year(2025));
    assert_eq!(PartitionKey::Year(MAX_YEAR).checked_next_by(1), None);
    assert_eq!(PartitionKey::Year(i32::MIN).checked_next_by(2147483648), Some(PartitionKey::Year(0)));
    assert_eq!(PartitionKey::Range(5).next_by(10), PartitionKey::Range(15));
    assert_eq!(PartitionKey::Range(i64::MAX).checked_next_by(1), None);
    assert_eq!(PartitionKey::Range(i64::MIN).checked_next_by(-1), None);
    assert_eq!(PartitionKey::Range(i64::MIN).checked_next_by(i64::MAX), Some(PartitionKey::Range(-1)));
    let hour = PartitionKey::Hour(Timestamp::new(date(2024, 2, 29), 23 * 3600 + 5, 9).unwrap());
    assert_eq!(
        hour.next(),
        PartitionKey::Hour(Timestamp::new(date(2024, 3, 1), 5, 9).unwrap())
    );
    let last_day = PartitionKey::Day(Date::from_day_number(MAX_DAY_NUMBER).unwrap());
    assert_eq!(last_day.checked_next_by(1), None);
}

#[test]
fn partition_key_order() {
    let d1 = PartitionKey::Day(date(2024, 1, 1));
    let d2 = PartitionKey::Day(date(2024, 1, 2));
    assert!(d1.le(&d2) && d1.le(&d1) && !d2.le(&d1));
    let m1 = PartitionKey::Month { year: 2023, month: 12 };
    let m2 = PartitionKey::Month { year: 2024, month: 1 };
    assert!(m1.le(&m2) && !m2.le(&m1) && m2.le(&m2));
    assert!(PartitionKey::Year(2023).le(&PartitionKey::Year(2024)));
    assert!(!PartitionKey::Range(3).le(&PartitionKey::Range(2)));
    let h = PartitionKey::Hour(Timestamp::new(date(2030, 1, 1), 0, 0).unwrap());
    assert!(h.le(&d1) && !d1.le(&h));
    assert!(d2.le(&m1) && m2.le(&PartitionKey::Year(0)) && PartitionKey::Year(9).le(&PartitionKey::Range(0)));
    assert!(!PartitionKey::Range(0).le(&PartitionKey::Year(9)));
    for (a, b) in [(d1, d2), (d2, d1), (m1, m2), (h, d1), (d1, h), (m2, PartitionKey::Year(0))] {
        assert_eq!(a.le(&b), a <= b);
    }
}

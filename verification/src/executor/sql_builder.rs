//! The SQL that replaces one partition of a destination table.

use vstd::prelude::*;
use crate::schema::PartitionKey;
use crate::text::{replace_all, replaced};

verus! {

/// The parameter that stands for the partition in the SQL of a query.
pub const PARTITION_PARAMETER: &'static str = "@partition_date";

/// `sql` with each occurrence of the partition parameter replaced by the key's value in
/// single quotes.
pub open spec fn parameterized(sql: Seq<char>, key: PartitionKey) -> Seq<char> {
    replaced(sql, PARTITION_PARAMETER@, seq!['\''] + key.value_text() + seq!['\''])
}

/// The condition that picks the rows of the partition `key` in the target table, where
/// `field` is the partition column: the column itself for a day or a range bucket, and
/// the column truncated to the hour, month or year otherwise.
pub open spec fn partition_condition(field: Seq<char>, key: PartitionKey) -> Seq<char> {
    match key {
        PartitionKey::Hour(_) => "TIMESTAMP_TRUNC(target."@ + field + ", HOUR) = "@
            + key.literal_text(),
        PartitionKey::Day(_) => "target."@ + field + " = "@ + key.literal_text(),
        PartitionKey::Month { .. } => "DATE_TRUNC(target."@ + field + ", MONTH) = "@
            + key.literal_text(),
        PartitionKey::Year(_) => "DATE_TRUNC(target."@ + field + ", YEAR) = "@
            + key.literal_text(),
        PartitionKey::Range(_) => "target."@ + field + " = "@ + key.literal_text(),
    }
}

/// The statement that replaces the partition `key` of `dest_table` by the rows of `sql`
/// in one step: a merge that never matches, deletes the rows of the partition that the
/// source lacks, which are all of them, and inserts every row of the source.
pub open spec fn merge_sql_text(
    dest_table: Seq<char>,
    field: Seq<char>,
    sql: Seq<char>,
    key: PartitionKey,
) -> Seq<char> {
    "\n            MERGE `"@ + dest_table + "` AS target\n            USING (\n                "@
        + parameterized(sql, key)
        + "\n            ) AS source\n            ON FALSE\n            WHEN NOT MATCHED BY SOURCE AND "@
        + partition_condition(field, key)
        + " THEN DELETE\n            WHEN NOT MATCHED BY TARGET THEN INSERT ROW\n            "@
}

/// The statement that inserts the rows of `sql` into `dest_table`.
pub open spec fn insert_sql_text(dest_table: Seq<char>, sql: Seq<char>, key: PartitionKey) -> Seq<
    char,
> {
    "\n            INSERT INTO `"@ + dest_table + "`\n            "@ + parameterized(sql, key)
        + "\n            "@
}

/// `sql` with the partition parameter replaced by the quoted value of `key`.
pub fn parameterize(sql: &str, partition_key: &PartitionKey) -> (r: String)
    ensures
        r@ == parameterized(sql@, *partition_key),
{
    let mut quoted = String::new();
    quoted.push('\'');
    let value = partition_key.sql_value();
    quoted.append(value.as_str());
    quoted.push('\'');
    assert(quoted@ == seq!['\''] + partition_key.value_text() + seq!['\'']);
    replace_all(sql, PARTITION_PARAMETER, quoted.as_str())
}

fn condition(partition_field: &str, partition_key: &PartitionKey) -> (r: String)
    ensures
        r@ == partition_condition(partition_field@, *partition_key),
{
    let (open, close): (&str, &str) = match partition_key {
        PartitionKey::Hour(_) => ("TIMESTAMP_TRUNC(target.", ", HOUR) = "),
        PartitionKey::Day(_) => ("target.", " = "),
        PartitionKey::Month { .. } => ("DATE_TRUNC(target.", ", MONTH) = "),
        PartitionKey::Year(_) => ("DATE_TRUNC(target.", ", YEAR) = "),
        PartitionKey::Range(_) => ("target.", " = "),
    };
    let mut out = String::from_str(open);
    out.append(partition_field);
    out.append(close);
    let literal = partition_key.sql_literal();
    out.append(literal.as_str());
    out
}

/// The merge statement that replaces the partition `partition_key` of `dest_table`,
/// whose partition column is `partition_field`, by the rows of `sql`. The text of `sql`
/// is taken as it is, but for the partition parameter, which is replaced by the key's
/// quoted value.
pub fn build_merge_sql(
    dest_table: &str,
    partition_field: &str,
    sql: &str,
    partition_key: &PartitionKey,
) -> (r: String)
    ensures
        r@ == merge_sql_text(dest_table@, partition_field@, sql@, *partition_key),
{
    let parameterized_sql = parameterize(sql, partition_key);
    let partition_condition = condition(partition_field, partition_key);
    let mut out = String::from_str("\n            MERGE `");
    out.append(dest_table);
    out.append("` AS target\n            USING (\n                ");
    out.append(parameterized_sql.as_str());
    out.append(
        "\n            ) AS source\n            ON FALSE\n            WHEN NOT MATCHED BY SOURCE AND ",
    );
    out.append(partition_condition.as_str());
    out.append(" THEN DELETE\n            WHEN NOT MATCHED BY TARGET THEN INSERT ROW\n            ");
    out
}

/// The statement that inserts the rows of `sql` into `dest_table`, with the partition
/// parameter replaced by the key's quoted value.
pub fn build_insert_sql(dest_table: &str, sql: &str, partition_key: &PartitionKey) -> (r: String)
    ensures
        r@ == insert_sql_text(dest_table@, sql@, *partition_key),
{
    let parameterized_sql = parameterize(sql, partition_key);
    let mut out = String::from_str("\n            INSERT INTO `");
    out.append(dest_table);
    out.append("`\n            ");
    out.append(parameterized_sql.as_str());
    out.append("\n            ");
    out
}

} // verus!

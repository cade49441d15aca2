//! The statements that keep the table of query runs.

use vstd::prelude::*;
use crate::calendar::{clock_text, day_number_civil, iso_date, Date, Timestamp};
use crate::text::{
    decimal, push_decimal, push_signed_decimal, replace_all, replaced, signed_decimal,
};

verus! {

/// The name of the table of query runs unless another is given.
pub const DEFAULT_TRACKING_TABLE: &'static str = "_bqdrift_query_runs";

/// `s` with each single quote doubled, as it stands inside an SQL string literal.
pub open spec fn escaped(s: Seq<char>) -> Seq<char> {
    replaced(s, seq!['\''], seq!['\'', '\''])
}

/// `s` with each single quote doubled, as it stands inside an SQL string literal.
pub fn escape_sql_string(s: &str) -> (r: String)
    ensures
        r@ == escaped(s@),
{
    proof {
        reveal_strlit("'");
        reveal_strlit("''");
        assert("'"@ =~= seq!['\'']);
        assert("''"@ =~= seq!['\'', '\'']);
    }
    replace_all(s, "'", "''")
}

/// How a run ended.
#[derive(Clone, Copy, Debug, PartialEq, Eq)]
pub enum RunStatus {
    Success,
    Failed,
}

impl RunStatus {
    /// The status as the table holds it.
    pub open spec fn name(self) -> Seq<char> {
        match self {
            RunStatus::Success => "SUCCESS"@,
            RunStatus::Failed => "FAILED"@,
        }
    }

    /// The status as the table holds it.
    pub fn as_str(&self) -> (r: &'static str)
        ensures
            r@ == self.name(),
    {
        match self {
            RunStatus::Success => "SUCCESS",
            RunStatus::Failed => "FAILED",
        }
    }
}

/// One execution of one partition of a query.
#[derive(Clone, Debug, PartialEq, Eq)]
pub struct QueryRun {
    pub query_name: String,
    pub query_version: u32,
    pub sql_revision: Option<u32>,
    pub partition_date: Date,
    pub executed_at: Timestamp,
    pub rows_written: Option<i64>,
    pub bytes_processed: Option<i64>,
    pub execution_time_ms: Option<i64>,
    pub status: RunStatus,
}

/// What a [`QueryRun`] holds: the day and the instant as `chrono` names them.
pub struct QueryRunModel {
    pub query_name: Seq<char>,
    pub query_version: u32,
    pub sql_revision: Option<u32>,
    pub partition_date: (int, int, int),
    pub executed_on: (int, int, int),
    pub executed_second: int,
    pub rows_written: Option<i64>,
    pub bytes_processed: Option<i64>,
    pub execution_time_ms: Option<i64>,
    pub status: RunStatus,
}

impl DeepView for QueryRun {
    type V = QueryRunModel;

    open spec fn deep_view(&self) -> QueryRunModel {
        QueryRunModel {
            query_name: self.query_name@,
            query_version: self.query_version,
            sql_revision: self.sql_revision,
            partition_date: day_number_civil(self.partition_date@),
            executed_on: day_number_civil(self.executed_at.day()),
            executed_second: self.executed_at.second_of_day(),
            rows_written: self.rows_written,
            bytes_processed: self.bytes_processed,
            execution_time_ms: self.execution_time_ms,
            status: self.status,
        }
    }
}

/// The numeral of a number that is there, and `NULL` for one that is not.
pub open spec fn null_or(n: Option<int>) -> Seq<char> {
    match n {
        Some(v) => signed_decimal(v),
        None => "NULL"@,
    }
}

/// The statement that creates the table of query runs under the name `table_name`, if
/// it is not there yet: one row per run, partitioned by the day of execution.
pub open spec fn create_table_sql_text(table_name: Seq<char>) -> Seq<char> {
    "\n            CREATE TABLE IF NOT EXISTS `"@ + table_name
        + "` (\n                query_name STRING NOT NULL,\n                query_version INT64 NOT NULL,\n                sql_revision INT64,\n                partition_date DATE NOT NULL,\n                executed_at TIMESTAMP NOT NULL,\n                rows_written INT64,\n                bytes_processed INT64,\n                execution_time_ms INT64,\n                status STRING NOT NULL\n            )\n            PARTITION BY DATE(executed_at)\n            "@
}

/// The statement that adds `run` to the table `table_name`. The query's name stands
/// with its quotes doubled; a number that is missing stands as `NULL`.
pub open spec fn insert_run_sql_text(table_name: Seq<char>, run: QueryRunModel) -> Seq<char> {
    "\n            INSERT INTO `"@ + table_name
        + "` (\n                query_name, query_version, sql_revision, partition_date,\n                executed_at, rows_written, bytes_processed, execution_time_ms, status\n            ) VALUES (\n                '"@
        + escaped(run.query_name) + "', "@ + decimal(run.query_version as nat) + ", "@ + null_or(
        match run.sql_revision {
            Some(r) => Some(r as int),
            None => None,
        },
    ) + ", '"@ + iso_date(run.partition_date) + "',\n                '"@ + iso_date(run.executed_on)
        + seq![' '] + clock_text(run.executed_second) + " UTC', "@ + null_or(
        match run.rows_written {
            Some(r) => Some(r as int),
            None => None,
        },
    ) + ", "@ + null_or(
        match run.bytes_processed {
            Some(r) => Some(r as int),
            None => None,
        },
    ) + ", "@ + null_or(
        match run.execution_time_ms {
            Some(r) => Some(r as int),
            None => None,
        },
    ) + ", '"@ + run.status.name() + "'\n            )\n            "@
}

fn push_null_or(out: &mut String, n: Option<i64>)
    ensures
        final(out)@ == old(out)@ + null_or(
            match n {
                Some(v) => Some(v as int),
                None => None,
            },
        ),
{
    match n {
        Some(v) => push_signed_decimal(out, v),
        None => out.append("NULL"),
    }
}

/// Keeps the table of query runs of one dataset.
pub struct MigrationTracker {
    dataset: String,
    table_name: String,
}

impl MigrationTracker {
    /// The dataset that holds the table.
    pub closed spec fn dataset(self) -> Seq<char> {
        self.dataset@
    }

    /// The table's name within the dataset.
    pub closed spec fn table(self) -> Seq<char> {
        self.table_name@
    }

    /// The table's name with its dataset: `dataset.table`.
    pub open spec fn qualified_name(self) -> Seq<char> {
        self.dataset() + seq!['.'] + self.table()
    }

    /// A tracker for the table of the default name in `dataset`.
    pub fn new(dataset: &str) -> (r: Self)
        ensures
            r.dataset() == dataset@,
            r.table() == DEFAULT_TRACKING_TABLE@,
    {
        MigrationTracker {
            dataset: String::from_str(dataset),
            table_name: String::from_str(DEFAULT_TRACKING_TABLE),
        }
    }

    /// The same tracker for the table called `table_name`.
    pub fn with_table_name(self, table_name: &str) -> (r: Self)
        ensures
            r.dataset() == self.dataset(),
            r.table() == table_name@,
    {
        MigrationTracker { dataset: self.dataset, table_name: String::from_str(table_name) }
    }

    /// The table's name with its dataset: `dataset.table`.
    pub fn full_table_name(&self) -> (r: String)
        ensures
            r@ == self.qualified_name(),
    {
        let mut out = self.dataset.clone();
        out.push('.');
        out.append(self.table_name.as_str());
        out
    }

    /// The statement that creates the table if it is not there yet.
    pub fn ensure_tracking_table_sql(&self) -> (r: String)
        ensures
            r@ == create_table_sql_text(self.qualified_name()),
    {
        let table_name = self.full_table_name();
        let mut out = String::from_str("\n            CREATE TABLE IF NOT EXISTS `");
        out.append(table_name.as_str());
        out.append(
            "` (\n                query_name STRING NOT NULL,\n                query_version INT64 NOT NULL,\n                sql_revision INT64,\n                partition_date DATE NOT NULL,\n                executed_at TIMESTAMP NOT NULL,\n                rows_written INT64,\n                bytes_processed INT64,\n                execution_time_ms INT64,\n                status STRING NOT NULL\n            )\n            PARTITION BY DATE(executed_at)\n            ",
        );
        out
    }

    /// The statement that adds `run` to the table.
    pub fn record_run_sql(&self, run: &QueryRun) -> (r: String)
        ensures
            r@ == insert_run_sql_text(self.qualified_name(), run.deep_view()),
    {
        let table_name = self.full_table_name();
        let query_name = escape_sql_string(run.query_name.as_str());
        let partition_date = run.partition_date.to_string();
        let executed_at = run.executed_at.to_string();
        let mut out = String::from_str("\n            INSERT INTO `");
        out.append(table_name.as_str());
        out.append(
            "` (\n                query_name, query_version, sql_revision, partition_date,\n                executed_at, rows_written, bytes_processed, execution_time_ms, status\n            ) VALUES (\n                '",
        );
        out.append(query_name.as_str());
        out.append("', ");
        push_decimal(&mut out, run.query_version as u64);
        out.append(", ");
        push_null_or(
            &mut out,
            match run.sql_revision {
                Some(r) => Some(r as i64),
                None => None,
            },
        );
        out.append(", '");
        out.append(partition_date.as_str());
        out.append("',\n                '");
        out.append(executed_at.as_str());
        out.append(" UTC', ");
        push_null_or(&mut out, run.rows_written);
        out.append(", ");
        push_null_or(&mut out, run.bytes_processed);
        out.append(", ");
        push_null_or(&mut out, run.execution_time_ms);
        out.append(", '");
        out.append(run.status.as_str());
        out.append("'\n            )\n            ");
        out
    }
}

} // verus!

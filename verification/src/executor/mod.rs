//! Writing partitions: the SQL that replaces a partition, the order of checks and
//! statements around a write, and the bookkeeping of runs over many partitions.

mod bq_executor;
mod invariant_runner;
mod partition_writer;
mod runner;
mod sql_builder;

pub use bq_executor::{ColumnDef, ColumnInfo, QueryResult};
pub use invariant_runner::{
    before_checks_verdict, run_before_checks, InvariantRun, InvariantRunModel, WriteStage,
    WriteStep, WriteStepModel, BEFORE_CHECKS_FAILED, OUT_OF_ORDER,
};
pub use partition_writer::{
    delete_sql_text, merge_plan, no_field_error, no_version_error, plan_with, query_merge_sql,
    truncate_plan, PartitionWriteStats, PartitionWriteStatsModel, PartitionWriter, WritePlan,
    WritePlanModel,
};
pub use runner::{
    enumerates, not_found_error, parallelism_of, query_named, splits, OutcomeModel, RunFailure,
    RunFailureModel, RunOutcome, RunReport, RunReportModel, Runner, DEFAULT_PARALLELISM,
};
pub use sql_builder::{
    build_insert_sql, build_merge_sql, insert_sql_text, merge_sql_text, parameterize,
    parameterized, partition_condition, PARTITION_PARAMETER,
};

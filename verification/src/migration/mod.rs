//! The audit log of executions.

mod tracker;

pub use tracker::{
    create_table_sql_text, escape_sql_string, escaped, insert_run_sql_text, null_or,
    MigrationTracker, QueryRun, QueryRunModel, RunStatus, DEFAULT_TRACKING_TABLE,
};

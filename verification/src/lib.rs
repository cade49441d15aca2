//! Detects drift between versioned query declarations and the partitions that they
//! have produced, and plans the writes that bring partitions up to date.

pub mod bq_runner;
pub mod calendar;
pub mod codec;
pub mod diff;
pub mod drift;
pub mod dsl;
pub mod error;
pub mod executor;
pub mod invariants;
pub mod matcher;
pub mod migration;
pub mod schema;
pub mod text;

pub use diff::{decode_sql, encode_sql, has_changes};
pub use drift::{
    compress_to_base64, decompress_from_base64, Checksums, DriftDetector, DriftReport, DriftState,
    ExecutionStatus, PartitionDrift, PartitionState,
};
pub use dsl::{
    QueryDef, QueryLoader, ResolvedRevision, Revision, SqlDependencies, VariableResolver,
    VersionDef,
};
pub use error::BqDriftError;
pub use executor::{
    ColumnDef, ColumnInfo, PartitionWriteStats, PartitionWriter, QueryResult, RunFailure,
    RunReport, Runner,
};
pub use invariants::{
    resolve_invariants_def, CheckResult, CheckStatus, InvariantCheck, InvariantChecker,
    InvariantDef, InvariantReport, InvariantsDef, InvariantsRef, Severity,
};
pub use migration::MigrationTracker;
pub use schema::{
    BqType, ClusterConfig, Field, FieldMode, PartitionConfig, PartitionKey, PartitionType, Schema,
};

//! What is stored about a partition's last execution, and what detection says of it.

use vstd::prelude::*;
use crate::calendar::{Date, Timestamp};
use crate::schema::PartitionKey;
use crate::text::clone_opt_string;

verus! {

/// How an execution ended.
#[derive(Clone, Copy, Debug, PartialEq, Eq, Hash)]
pub enum ExecutionStatus {
    Success,
    Failed,
}

/// How a partition stands to the declaration that is current.
#[derive(Clone, Copy, Debug, PartialEq, Eq, Hash)]
pub enum DriftState {
    /// Built from what is declared now.
    Current,
    /// The SQL in effect is not the SQL that built it.
    SqlChanged,
    /// The schema is not the schema that it was built for.
    SchemaChanged,
    /// Another version is in effect than the one that built it.
    VersionUpgraded,
    /// A query that it reads from has run again since.
    UpstreamChanged,
    /// Never built.
    NeverRun,
    /// Its last execution failed.
    Failed,
}

impl DriftState {
    /// Whether the partition has to be built again: in every state but `Current`.
    pub open spec fn spec_needs_rerun(&self) -> bool {
        *self != DriftState::Current
    }

    /// Whether the partition has to be built again: in every state but `Current`.
    #[verifier::when_used_as_spec(spec_needs_rerun)]
    pub fn needs_rerun(&self) -> (r: bool)
        ensures
            r == self.spec_needs_rerun(),
    {
        match self {
            DriftState::Current => false,
            _ => true,
        }
    }

    /// The state's name in reports.
    pub open spec fn name(self) -> Seq<char> {
        match self {
            DriftState::Current => "current"@,
            DriftState::SqlChanged => "sql_changed"@,
            DriftState::SchemaChanged => "schema_changed"@,
            DriftState::VersionUpgraded => "version_upgraded"@,
            DriftState::UpstreamChanged => "upstream_changed"@,
            DriftState::NeverRun => "never_run"@,
            DriftState::Failed => "failed"@,
        }
    }

    /// The state's name in reports.
    pub fn as_str(&self) -> (r: &'static str)
        ensures
            r@ == self.name(),
    {
        match self {
            DriftState::Current => "current",
            DriftState::SqlChanged => "sql_changed",
            DriftState::SchemaChanged => "schema_changed",
            DriftState::VersionUpgraded => "version_upgraded",
            DriftState::UpstreamChanged => "upstream_changed",
            DriftState::NeverRun => "never_run",
            DriftState::Failed => "failed",
        }
    }
}

/// What was recorded when a partition was last executed.
#[derive(Clone, Debug, PartialEq, Eq)]
pub struct PartitionState {
    pub query_name: String,
    pub partition_date: Date,
    pub version: u32,
    pub sql_revision: Option<u32>,
    pub effective_from: Date,
    pub sql_checksum: String,
    pub schema_checksum: String,
    pub yaml_checksum: String,
    pub executed_sql_b64: Option<String>,
    /// For each query that this one read from: when that query's partition had last
    /// been executed.
    pub upstream_states: Vec<(String, Timestamp)>,
    pub executed_at: Timestamp,
    pub execution_time_ms: Option<i64>,
    pub rows_written: Option<i64>,
    pub bytes_processed: Option<i64>,
    pub status: ExecutionStatus,
}

/// What a [`PartitionState`] holds.
pub struct PartitionStateModel {
    pub query_name: Seq<char>,
    pub partition_date: int,
    pub version: u32,
    pub sql_revision: Option<u32>,
    pub effective_from: int,
    pub sql_checksum: Seq<char>,
    pub schema_checksum: Seq<char>,
    pub yaml_checksum: Seq<char>,
    pub executed_sql_b64: Option<Seq<char>>,
    pub upstream_states: Seq<(Seq<char>, int)>,
    pub executed_at: int,
    pub execution_time_ms: Option<i64>,
    pub rows_written: Option<i64>,
    pub bytes_processed: Option<i64>,
    pub status: ExecutionStatus,
}

impl DeepView for PartitionState {
    type V = PartitionStateModel;

    open spec fn deep_view(&self) -> PartitionStateModel {
        PartitionStateModel {
            query_name: self.query_name@,
            partition_date: self.partition_date@,
            version: self.version,
            sql_revision: self.sql_revision,
            effective_from: self.effective_from@,
            sql_checksum: self.sql_checksum@,
            schema_checksum: self.schema_checksum@,
            yaml_checksum: self.yaml_checksum@,
            executed_sql_b64: self.executed_sql_b64.deep_view(),
            upstream_states: self.upstream_states.deep_view(),
            executed_at: self.executed_at@,
            execution_time_ms: self.execution_time_ms,
            rows_written: self.rows_written,
            bytes_processed: self.bytes_processed,
            status: self.status,
        }
    }
}

/// What detection says of one partition of one query.
#[derive(Debug, PartialEq, Eq)]
pub struct PartitionDrift {
    pub query_name: String,
    pub partition_key: PartitionKey,
    pub state: DriftState,
    pub current_version: u32,
    pub executed_version: Option<u32>,
    pub caused_by: Option<String>,
    pub executed_sql_b64: Option<String>,
    pub current_sql: Option<String>,
}

/// What a [`PartitionDrift`] holds.
pub struct PartitionDriftModel {
    pub query_name: Seq<char>,
    pub partition_key: PartitionKey,
    pub state: DriftState,
    pub current_version: u32,
    pub executed_version: Option<u32>,
    pub caused_by: Option<Seq<char>>,
    pub executed_sql_b64: Option<Seq<char>>,
    pub current_sql: Option<Seq<char>>,
}

impl DeepView for PartitionDrift {
    type V = PartitionDriftModel;

    open spec fn deep_view(&self) -> PartitionDriftModel {
        PartitionDriftModel {
            query_name: self.query_name@,
            partition_key: self.partition_key,
            state: self.state,
            current_version: self.current_version,
            executed_version: self.executed_version,
            caused_by: self.caused_by.deep_view(),
            executed_sql_b64: self.executed_sql_b64.deep_view(),
            current_sql: self.current_sql.deep_view(),
        }
    }
}

impl Clone for PartitionDrift {
    fn clone(&self) -> (r: Self)
        ensures
            r.deep_view() == self.deep_view(),
    {
        PartitionDrift {
            query_name: self.query_name.clone(),
            partition_key: self.partition_key,
            state: self.state,
            current_version: self.current_version,
            executed_version: self.executed_version,
            caused_by: clone_opt_string(&self.caused_by),
            executed_sql_b64: clone_opt_string(&self.executed_sql_b64),
            current_sql: clone_opt_string(&self.current_sql),
        }
    }
}

/// How many of `partitions` have to be built again.
pub open spec fn rerun_count(partitions: Seq<PartitionDriftModel>) -> nat
    decreases partitions.len(),
{
    if partitions.len() == 0 {
        0
    } else {
        rerun_count(partitions.drop_last()) + if partitions.last().state.spec_needs_rerun() {
            1nat
        } else {
            0nat
        }
    }
}

/// What one detection found, partition by partition.
#[derive(Clone, Debug, PartialEq, Eq)]
pub struct DriftReport {
    pub partitions: Vec<PartitionDrift>,
}

impl DeepView for DriftReport {
    type V = Seq<PartitionDriftModel>;

    /// The partitions, in the order in which they were added.
    open spec fn deep_view(&self) -> Seq<PartitionDriftModel> {
        self.partitions.deep_view()
    }
}

impl DriftReport {
    /// An empty report.
    pub fn new() -> (r: DriftReport)
        ensures
            r.deep_view() == Seq::<PartitionDriftModel>::empty(),
    {
        let r = DriftReport { partitions: Vec::new() };
        r
    }

    /// An empty report with room for `capacity` partitions.
    pub fn with_capacity(capacity: usize) -> (r: DriftReport)
        ensures
            r.deep_view() == Seq::<PartitionDriftModel>::empty(),
    {
        let r = DriftReport { partitions: Vec::with_capacity(capacity) };
        r
    }

    /// Adds a partition at the end of the report.
    pub fn add(&mut self, drift: PartitionDrift)
        ensures
            final(self).deep_view() == old(self).deep_view().push(drift.deep_view()),
    {
        self.partitions.push(drift);
    }

    /// The number of partitions in the report.
    pub fn len(&self) -> (r: usize)
        ensures
            r == self.deep_view().len(),
    {
        self.partitions.len()
    }

    /// How many partitions of the report have to be built again.
    pub fn needs_rerun_count(&self) -> (r: usize)
        ensures
            r == rerun_count(self.deep_view()),
    {
        let ghost all = self.deep_view();
        let mut count: usize = 0;
        let mut i: usize = 0;
        while i < self.partitions.len()
            invariant
                i <= self.partitions.len(),
                all == self.partitions.deep_view(),
                count == rerun_count(all.take(i as int)),
                count <= i,
            decreases self.partitions.len() - i,
        {
            proof {
                assert(all.take(i + 1).drop_last() == all.take(i as int));
            }
            if self.partitions[i].state.needs_rerun() {
                count += 1;
            }
            i += 1;
        }
        assert(all.take(i as int) == all);
        count
    }
}

} // verus!

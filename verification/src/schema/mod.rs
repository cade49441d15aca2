//! Destination tables: typed columns, clustering, and partitions.

mod cluster;
mod field;
mod partition;
mod table;

pub use cluster::{cluster_problem, ClusterConfig, MAX_CLUSTER_FIELDS};
pub use field::{BqType, Field, FieldMode, FieldModel};
pub use partition::{PartitionConfig, PartitionConfigModel, PartitionKey, PartitionType};
pub use table::{
    canonical_text, clone_fields, find_field, lemma_position_of, position_of, Schema,
};

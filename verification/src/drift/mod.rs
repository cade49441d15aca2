//! Drift between what a query declares now and what its partitions were built from.

mod checksum;
mod detector;
mod state;

pub use checksum::{
    compress_to_base64, compressed, decompress_from_base64, decompressed, fingerprint,
    fingerprint_of, gunzip_text, gzip_bytes, sha256, Checksums, ChecksumsModel, FINGERPRINT_BYTES,
};
pub use detector::{
    cache_holds, classify, detection, find_stored, first_changed_upstream, is_latest_stored,
    latest_stored, partition_drift, placed, query_drifts, shadowed, stored_for, too_large_message,
    yaml_for, DriftDetector, MAX_DETECTION_DAYS,
};
pub use state::{
    DriftReport, DriftState, ExecutionStatus, PartitionDrift, PartitionDriftModel, PartitionState,
    PartitionStateModel,
};

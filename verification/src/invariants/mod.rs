//! Named checks that run against the warehouse before and after a partition is written.

mod checker;
mod result;
mod types;

pub use checker::{
    blocks_write, count_sql, day_filter, first_cell, judged, resolve_invariants_def, resolved_all,
    InvariantChecker, ResolvedCheck, ResolvedInvariant, ResolvedInvariantModel,
};
pub use result::{CheckResult, CheckResultModel, CheckStatus, InvariantReport, InvariantReportModel};
pub use types::{
    clone_invariants, ExtendedInvariants, ExtendedInvariantsModel, InvariantCheck, InvariantCheckModel, InvariantDef,
    InvariantDefModel, InvariantsDef, InvariantsDefModel, InvariantsRef, InvariantsRefModel,
    InvariantsRemove, InvariantsRemoveModel, Severity,
};

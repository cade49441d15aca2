//! What the checks found.

use vstd::prelude::*;
use super::types::Severity;

verus! {

/// How one check ended.
#[derive(Clone, Copy, Debug, PartialEq, Eq, Hash)]
pub enum CheckStatus {
    Passed,
    Failed,
    Skipped,
}

/// The outcome of one check.
#[derive(Clone, Debug, PartialEq, Eq)]
pub struct CheckResult {
    pub name: String,
    pub status: CheckStatus,
    pub severity: Severity,
    pub message: Option<String>,
}

/// What a [`CheckResult`] holds.
pub struct CheckResultModel {
    pub name: Seq<char>,
    pub status: CheckStatus,
    pub severity: Severity,
    pub message: Option<Seq<char>>,
}

impl DeepView for CheckResult {
    type V = CheckResultModel;

    open spec fn deep_view(&self) -> CheckResultModel {
        CheckResultModel {
            name: self.name@,
            status: self.status,
            severity: self.severity,
            message: self.message.deep_view(),
        }
    }
}

impl CheckResultModel {
    /// Whether the check failed and is of error severity.
    pub open spec fn is_blocking(self) -> bool {
        self.status == CheckStatus::Failed && self.severity == Severity::Error
    }
}

impl CheckResult {
    /// Whether the check failed and is of error severity.
    pub fn is_blocking(&self) -> (r: bool)
        ensures
            r == self.deep_view().is_blocking(),
    {
        let failed = match self.status {
            CheckStatus::Failed => true,
            _ => false,
        };
        let error = match self.severity {
            Severity::Error => true,
            Severity::Warning => false,
        };
        failed && error
    }
}

/// The outcomes of the checks around one write.
#[derive(Clone, Debug, PartialEq, Eq)]
pub struct InvariantReport {
    pub before: Vec<CheckResult>,
    pub after: Vec<CheckResult>,
}

/// What an [`InvariantReport`] holds.
pub struct InvariantReportModel {
    pub before: Seq<CheckResultModel>,
    pub after: Seq<CheckResultModel>,
}

impl DeepView for InvariantReport {
    type V = InvariantReportModel;

    open spec fn deep_view(&self) -> InvariantReportModel {
        InvariantReportModel { before: self.before.deep_view(), after: self.after.deep_view() }
    }
}

} // verus!

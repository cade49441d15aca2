//! The order of checks and statements around one write.
//!
//! The checks and the statements run against the warehouse, outside this library. What
//! is decided here is what comes next: an [`InvariantRun`] is told how each step ended
//! and answers with the step to take.

use vstd::prelude::*;
use crate::error::{BqDriftError, BqDriftErrorModel};
use crate::invariants::{
    blocks_write, CheckResult, CheckResultModel, InvariantChecker, InvariantReport,
    InvariantReportModel,
};

verus! {

/// The message of the error that ends a write whose checks before it failed.
pub const BEFORE_CHECKS_FAILED: &'static str =
    "Before invariant check(s) failed with error severity";

/// The message of the error for an answer that does not fit the step that was asked for.
pub const OUT_OF_ORDER: &'static str = "write steps reported out of order";

/// Where a write stands.
#[derive(Clone, Copy, Debug, PartialEq, Eq)]
pub enum WriteStage {
    /// The checks before the write are running.
    CheckingBefore,
    /// The statements are running.
    Executing,
    /// The checks after the write are running.
    CheckingAfter,
    /// The write has ended.
    Finished,
}

/// What to do next.
#[derive(Debug, PartialEq, Eq)]
pub enum WriteStep {
    /// Run the checks before the write and report their outcomes.
    RunBeforeChecks,
    /// Run the statements and report how they ended.
    Execute,
    /// Run the checks after the write and report their outcomes.
    RunAfterChecks,
    /// The write has succeeded, with this report of its checks.
    Finish(Option<InvariantReport>),
    /// The write has failed.
    Fail(BqDriftError),
}

/// What a [`WriteStep`] holds.
pub enum WriteStepModel {
    RunBeforeChecks,
    Execute,
    RunAfterChecks,
    Finish(Option<InvariantReportModel>),
    Fail(BqDriftErrorModel),
}

impl DeepView for WriteStep {
    type V = WriteStepModel;

    open spec fn deep_view(&self) -> WriteStepModel {
        match self {
            WriteStep::RunBeforeChecks => WriteStepModel::RunBeforeChecks,
            WriteStep::Execute => WriteStepModel::Execute,
            WriteStep::RunAfterChecks => WriteStepModel::RunAfterChecks,
            WriteStep::Finish(report) => WriteStepModel::Finish(report.deep_view()),
            WriteStep::Fail(e) => WriteStepModel::Fail(e.deep_view()),
        }
    }
}

/// One write in progress.
#[derive(Debug, PartialEq, Eq)]
pub struct InvariantRun {
    pub run_invariants: bool,
    pub has_after_checks: bool,
    pub stage: WriteStage,
    pub before_results: Vec<CheckResult>,
}

/// What an [`InvariantRun`] holds.
pub struct InvariantRunModel {
    pub run_invariants: bool,
    pub has_after_checks: bool,
    pub stage: WriteStage,
    pub before_results: Seq<CheckResultModel>,
}

impl DeepView for InvariantRun {
    type V = InvariantRunModel;

    open spec fn deep_view(&self) -> InvariantRunModel {
        InvariantRunModel {
            run_invariants: self.run_invariants,
            has_after_checks: self.has_after_checks,
            stage: self.stage,
            before_results: self.before_results.deep_view(),
        }
    }
}

/// What the outcomes of the checks before a write allow: the outcomes themselves, or
/// the error that forbids the write when one of them failed with error severity.
pub open spec fn before_checks_verdict(results: Seq<CheckResultModel>) -> Result<
    Seq<CheckResultModel>,
    BqDriftErrorModel,
> {
    if blocks_write(results) {
        Err(BqDriftErrorModel::InvariantFailed(BEFORE_CHECKS_FAILED@))
    } else {
        Ok(results)
    }
}

impl InvariantRunModel {
    /// A run that has ended.
    pub open spec fn finished(self) -> Self {
        InvariantRunModel { stage: WriteStage::Finished, before_results: Seq::empty(), ..self }
    }

    /// The first step of a write. Without invariants, or without checks before the
    /// write, the statements run at once.
    pub open spec fn begun(run_invariants: bool, has_before: bool, has_after: bool) -> (
        Self,
        WriteStepModel,
    ) {
        let checking = run_invariants && has_before;
        (
            InvariantRunModel {
                run_invariants,
                has_after_checks: has_after,
                stage: if checking {
                    WriteStage::CheckingBefore
                } else {
                    WriteStage::Executing
                },
                before_results: Seq::empty(),
            },
            if checking {
                WriteStepModel::RunBeforeChecks
            } else {
                WriteStepModel::Execute
            },
        )
    }

    /// The step after checks have run. An error of the warehouse ends the write. After
    /// the checks before the write, a failure of error severity ends it too, and
    /// otherwise the statements run. After the checks after the write, the write has
    /// succeeded whatever they found.
    pub open spec fn checked(
        self,
        outcome: Result<Seq<CheckResultModel>, BqDriftErrorModel>,
    ) -> (Self, WriteStepModel) {
        match self.stage {
            WriteStage::CheckingBefore => match outcome {
                Err(e) => (self.finished(), WriteStepModel::Fail(e)),
                Ok(results) => match before_checks_verdict(results) {
                    Err(e) => (self.finished(), WriteStepModel::Fail(e)),
                    Ok(kept) => (
                        InvariantRunModel {
                            stage: WriteStage::Executing,
                            before_results: kept,
                            ..self
                        },
                        WriteStepModel::Execute,
                    ),
                },
            },
            WriteStage::CheckingAfter => match outcome {
                Err(e) => (self.finished(), WriteStepModel::Fail(e)),
                Ok(results) => (
                    self.finished(),
                    WriteStepModel::Finish(
                        Some(InvariantReportModel { before: self.before_results, after: results }),
                    ),
                ),
            },
            _ => (
                self.finished(),
                WriteStepModel::Fail(BqDriftErrorModel::Execution(OUT_OF_ORDER@)),
            ),
        }
    }

    /// The step after the statements have run. An error ends the write. Without
    /// invariants the write has succeeded without a report; without checks after the
    /// write it has succeeded with the outcomes of those before it; otherwise the
    /// checks after the write run.
    pub open spec fn executed(self, outcome: Result<(), BqDriftErrorModel>) -> (
        Self,
        WriteStepModel,
    ) {
        match self.stage {
            WriteStage::Executing => match outcome {
                Err(e) => (self.finished(), WriteStepModel::Fail(e)),
                Ok(_) => if !self.run_invariants {
                    (self.finished(), WriteStepModel::Finish(None))
                } else if !self.has_after_checks {
                    (
                        self.finished(),
                        WriteStepModel::Finish(
                            Some(
                                InvariantReportModel {
                                    before: self.before_results,
                                    after: Seq::empty(),
                                },
                            ),
                        ),
                    )
                } else {
                    (
                        InvariantRunModel { stage: WriteStage::CheckingAfter, ..self },
                        WriteStepModel::RunAfterChecks,
                    )
                },
            },
            _ => (
                self.finished(),
                WriteStepModel::Fail(BqDriftErrorModel::Execution(OUT_OF_ORDER@)),
            ),
        }
    }
}

/// The statements never run after a check before the write failed with error severity.
pub proof fn lemma_blocking_failure_stops_write(
    run: InvariantRunModel,
    results: Seq<CheckResultModel>,
)
    requires
        run.stage == WriteStage::CheckingBefore,
        blocks_write(results),
    ensures
        run.checked(Ok(results)).1 == WriteStepModel::Fail(
            BqDriftErrorModel::InvariantFailed(BEFORE_CHECKS_FAILED@),
        ),
        run.checked(Ok(results)).0.stage == WriteStage::Finished,
{
}

/// What the checks after the write find does not fail the write.
pub proof fn lemma_after_checks_never_fail(
    run: InvariantRunModel,
    results: Seq<CheckResultModel>,
)
    requires
        run.stage == WriteStage::CheckingAfter,
    ensures
        run.checked(Ok(results)).1 == WriteStepModel::Finish(
            Some(InvariantReportModel { before: run.before_results, after: results }),
        ),
{
}

fn finished_run(run_invariants: bool, has_after_checks: bool) -> (r: InvariantRun)
    ensures
        r.deep_view() == (InvariantRunModel {
            run_invariants,
            has_after_checks,
            stage: WriteStage::Finished,
            before_results: Seq::empty(),
        }),
{
    let r = InvariantRun {
        run_invariants,
        has_after_checks,
        stage: WriteStage::Finished,
        before_results: Vec::new(),
    };
    assert(r.before_results.deep_view() =~= Seq::empty());
    r
}

fn out_of_order() -> (r: WriteStep)
    ensures
        r.deep_view() == WriteStepModel::Fail(BqDriftErrorModel::Execution(OUT_OF_ORDER@)),
{
    WriteStep::Fail(BqDriftError::Execution(String::from_str(OUT_OF_ORDER)))
}

impl InvariantRun {
    /// Begins a write: with or without invariants, and with or without checks before
    /// and after it.
    pub fn begin(run_invariants: bool, has_before_checks: bool, has_after_checks: bool) -> (r: (
        InvariantRun,
        WriteStep,
    ))
        ensures
            (r.0.deep_view(), r.1.deep_view()) == InvariantRunModel::begun(
                run_invariants,
                has_before_checks,
                has_after_checks,
            ),
    {
        let checking = run_invariants && has_before_checks;
        let run = InvariantRun {
            run_invariants,
            has_after_checks,
            stage: if checking {
                WriteStage::CheckingBefore
            } else {
                WriteStage::Executing
            },
            before_results: Vec::new(),
        };
        assert(run.before_results.deep_view() =~= Seq::empty());
        if checking {
            (run, WriteStep::RunBeforeChecks)
        } else {
            (run, WriteStep::Execute)
        }
    }

    /// Takes the outcome of the checks that were asked for, and answers with the next
    /// step.
    pub fn on_checks(self, outcome: Result<Vec<CheckResult>, BqDriftError>) -> (r: (
        InvariantRun,
        WriteStep,
    ))
        ensures
            (r.0.deep_view(), r.1.deep_view()) == self.deep_view().checked(
                match outcome {
                    Ok(results) => Ok(results.deep_view()),
                    Err(e) => Err(e.deep_view()),
                },
            ),
    {
        let run_invariants = self.run_invariants;
        let has_after = self.has_after_checks;
        match self.stage {
            WriteStage::CheckingBefore => match outcome {
                Err(e) => (finished_run(run_invariants, has_after), WriteStep::Fail(e)),
                Ok(results) => match run_before_checks(results) {
                    Err(e) => (finished_run(run_invariants, has_after), WriteStep::Fail(e)),
                    Ok(kept) => (
                        InvariantRun {
                            run_invariants,
                            has_after_checks: has_after,
                            stage: WriteStage::Executing,
                            before_results: kept,
                        },
                        WriteStep::Execute,
                    ),
                },
            },
            WriteStage::CheckingAfter => match outcome {
                Err(e) => (finished_run(run_invariants, has_after), WriteStep::Fail(e)),
                Ok(results) => (
                    finished_run(run_invariants, has_after),
                    WriteStep::Finish(
                        Some(InvariantReport { before: self.before_results, after: results }),
                    ),
                ),
            },
            _ => (finished_run(run_invariants, has_after), out_of_order()),
        }
    }

    /// Takes the outcome of the statements, and answers with the next step.
    pub fn on_executed(self, outcome: Result<(), BqDriftError>) -> (r: (InvariantRun, WriteStep))
        ensures
            (r.0.deep_view(), r.1.deep_view()) == self.deep_view().executed(
                match outcome {
                    Ok(_) => Ok(()),
                    Err(e) => Err(e.deep_view()),
                },
            ),
    {
        let run_invariants = self.run_invariants;
        let has_after = self.has_after_checks;
        match self.stage {
            WriteStage::Executing => match outcome {
                Err(e) => (finished_run(run_invariants, has_after), WriteStep::Fail(e)),
                Ok(_) => {
                    if !run_invariants {
                        (finished_run(run_invariants, has_after), WriteStep::Finish(None))
                    } else if !has_after {
                        let after: Vec<CheckResult> = Vec::new();
                        assert(after.deep_view() =~= Seq::empty());
                        (
                            finished_run(run_invariants, has_after),
                            WriteStep::Finish(
                                Some(InvariantReport { before: self.before_results, after }),
                            ),
                        )
                    } else {
                        (
                            InvariantRun {
                                run_invariants,
                                has_after_checks: has_after,
                                stage: WriteStage::CheckingAfter,
                                before_results: self.before_results,
                            },
                            WriteStep::RunAfterChecks,
                        )
                    }
                },
            },
            _ => (finished_run(run_invariants, has_after), out_of_order()),
        }
    }
}

/// Judges the outcomes of the checks before a write: the outcomes themselves when the
/// write may go ahead, and `InvariantFailed` when one of them failed with error
/// severity.
pub fn run_before_checks(results: Vec<CheckResult>) -> (r: Result<Vec<CheckResult>, BqDriftError>)
    ensures
        match r {
            Ok(kept) => before_checks_verdict(results.deep_view()) == Ok::<
                Seq<CheckResultModel>,
                BqDriftErrorModel,
            >(kept.deep_view()),
            Err(e) => before_checks_verdict(results.deep_view()) == Err::<
                Seq<CheckResultModel>,
                BqDriftErrorModel,
            >(e.deep_view()),
        },
{
    if InvariantChecker::has_blocking_failure(&results) {
        Err(BqDriftError::InvariantFailed(String::from_str(BEFORE_CHECKS_FAILED)))
    } else {
        Ok(results)
    }
}

} // verus!

//! Invariants made ready to run, and the rule that decides whether a write may go ahead.

use vstd::prelude::*;
use super::result::{CheckResult, CheckResultModel, CheckStatus};
use super::types::{
    InvariantCheck, InvariantCheckModel, InvariantDef, InvariantDefModel, InvariantsDef, Severity,
};
use crate::calendar::{day_number_civil, iso_date, Date};
use crate::dsl::Destination;
use crate::executor::QueryResult;
use crate::text::{
    clone_opt_string, decimal, joined, parse_u64, parsed_u64, push_decimal, push_joined,
};

verus! {

/// A check whose variables are resolved: it holds what the declaration holds.
pub type ResolvedCheck = InvariantCheck;

/// An invariant that is ready to run.
#[derive(Clone, Debug, PartialEq, Eq)]
pub struct ResolvedInvariant {
    pub name: String,
    pub check: ResolvedCheck,
    pub severity: Severity,
    pub description: Option<String>,
}

/// What a [`ResolvedInvariant`] holds.
pub struct ResolvedInvariantModel {
    pub name: Seq<char>,
    pub check: InvariantCheckModel,
    pub severity: Severity,
    pub description: Option<Seq<char>>,
}

impl DeepView for ResolvedInvariant {
    type V = ResolvedInvariantModel;

    open spec fn deep_view(&self) -> ResolvedInvariantModel {
        ResolvedInvariantModel {
            name: self.name@,
            check: self.check.deep_view(),
            severity: self.severity,
            description: self.description.deep_view(),
        }
    }
}

impl InvariantDefModel {
    /// The invariant, ready to run.
    pub open spec fn resolved(self) -> ResolvedInvariantModel {
        ResolvedInvariantModel {
            name: self.name,
            check: self.check,
            severity: self.severity,
            description: self.description,
        }
    }
}

/// Each invariant of `defs` ready to run, in order.
pub open spec fn resolved_all(defs: Seq<InvariantDefModel>) -> Seq<ResolvedInvariantModel> {
    defs.map_values(|d: InvariantDefModel| d.resolved())
}

fn resolve_list(defs: &Vec<InvariantDef>) -> (r: Vec<ResolvedInvariant>)
    ensures
        r.deep_view() == resolved_all(defs.deep_view()),
{
    let mut out: Vec<ResolvedInvariant> = Vec::new();
    let mut i: usize = 0;
    while i < defs.len()
        invariant
            i <= defs.len(),
            out.deep_view() == resolved_all(defs.deep_view()).take(i as int),
        decreases defs.len() - i,
    {
        let def = &defs[i];
        let ghost before = out.deep_view();
        out.push(
            ResolvedInvariant {
                name: def.name.clone(),
                check: def.check.clone(),
                severity: def.severity,
                description: clone_opt_string(&def.description),
            },
        );
        i += 1;
        assert(out.deep_view() =~= before.push(defs.deep_view()[i - 1].resolved()));
    }
    out
}

/// Splits the invariants of a version into those to run before the write and those to
/// run after it, each list in the order of the declaration.
pub fn resolve_invariants_def(def: &InvariantsDef) -> (r: (
    Vec<ResolvedInvariant>,
    Vec<ResolvedInvariant>,
))
    ensures
        r.0.deep_view() == resolved_all(def.deep_view().before),
        r.1.deep_view() == resolved_all(def.deep_view().after),
{
    (resolve_list(&def.before), resolve_list(&def.after))
}

/// Whether some check of `results` failed with error severity.
pub open spec fn blocks_write(results: Seq<CheckResultModel>) -> bool {
    exists|i: int| 0 <= i < results.len() && (#[trigger] results[i]).is_blocking()
}

/// The condition that picks the rows of the day `day` in a table partitioned by
/// `field`; every row of a table without a partition column.
pub open spec fn day_filter(field: Option<Seq<char>>, day: (int, int, int)) -> Seq<char> {
    match field {
        Some(name) => name + " = DATE('"@ + iso_date(day) + "')"@,
        None => "TRUE"@,
    }
}

/// The query that counts what a check is about, among the rows of `table` that
/// `filter` picks: the rows for a row count, the rows with a null in the column,
/// the keys that occur more than once, and the rows that a custom predicate returns.
pub open spec fn count_sql(check: InvariantCheckModel, table: Seq<char>, filter: Seq<char>) -> Seq<
    char,
> {
    match check {
        InvariantCheckModel::RowCount { .. } => "SELECT COUNT(*) FROM `"@ + table + "` WHERE "@
            + filter,
        InvariantCheckModel::NotNull { column } => "SELECT COUNT(*) FROM `"@ + table + "` WHERE "@
            + filter + " AND "@ + column + " IS NULL"@,
        InvariantCheckModel::Unique { columns } => "SELECT COUNT(*) FROM (SELECT "@ + joined(
            columns,
            ", "@,
        ) + " FROM `"@ + table + "` WHERE "@ + filter + " GROUP BY "@ + joined(columns, ", "@)
            + " HAVING COUNT(*) > 1)"@,
        InvariantCheckModel::Custom { sql } => "SELECT COUNT(*) FROM ("@ + sql + ")"@,
    }
}

/// The first cell of the first row, if there is one.
pub open spec fn first_cell(rows: Seq<Seq<Seq<char>>>) -> Option<Seq<char>> {
    if rows.len() > 0 && rows[0].len() > 0 {
        Some(rows[0][0])
    } else {
        None
    }
}

impl InvariantCheckModel {
    /// Whether the check holds of the count `value`: a row count within its bounds, and
    /// no offending row for the other checks.
    pub open spec fn holds_of(self, value: u64) -> bool {
        match self {
            InvariantCheckModel::RowCount { min, max } => (match min {
                Some(lo) => lo <= value,
                None => true,
            }) && (match max {
                Some(hi) => value <= hi,
                None => true,
            }),
            _ => value == 0,
        }
    }

    /// What is said of a check that does not hold of the count `value`.
    pub open spec fn failure_text(self, value: u64) -> Seq<char> {
        match self {
            InvariantCheckModel::RowCount { .. } => "row count "@ + decimal(value as nat)
                + " is out of bounds"@,
            InvariantCheckModel::NotNull { column } => decimal(value as nat)
                + " null value(s) in column "@ + column,
            InvariantCheckModel::Unique { .. } => decimal(value as nat) + " duplicated key(s)"@,
            InvariantCheckModel::Custom { .. } => decimal(value as nat)
                + " row(s) returned by the check"@,
        }
    }
}

/// The outcome of an invariant, given what the warehouse answered to its query: failed
/// with the message of the warehouse's error; skipped when the answer holds no count;
/// and otherwise passed or failed as the check holds of the count or not.
pub open spec fn judged(
    resolved: ResolvedInvariantModel,
    answer: Result<Seq<Seq<Seq<char>>>, Seq<char>>,
) -> CheckResultModel {
    let (status, message) = match answer {
        Err(error) => (CheckStatus::Failed, Some(error)),
        Ok(rows) => match first_cell(rows) {
            None => (CheckStatus::Skipped, Some("the check returned no count"@)),
            Some(cell) => match parsed_u64(cell) {
                None => (CheckStatus::Skipped, Some("the check returned no count"@)),
                Some(value) => if resolved.check.holds_of(value) {
                    (CheckStatus::Passed, None)
                } else {
                    (CheckStatus::Failed, Some(resolved.check.failure_text(value)))
                },
            },
        },
    };
    CheckResultModel { name: resolved.name, status, severity: resolved.severity, message }
}

/// Words the queries of checks for one day of one destination table, and judges the
/// answers.
pub struct InvariantChecker {
    table: String,
    filter: String,
}

impl InvariantChecker {
    /// The table that is checked, with its dataset.
    pub closed spec fn table(self) -> Seq<char> {
        self.table@
    }

    /// The condition that picks the rows that are checked.
    pub closed spec fn filter(self) -> Seq<char> {
        self.filter@
    }

    /// A checker of the partition `partition_date` of `destination`.
    pub fn new(destination: &Destination, partition_date: Date) -> (r: Self)
        ensures
            r.table() == destination.deep_view().qualified_name(),
            r.filter() == day_filter(
                destination.deep_view().partition.field,
                day_number_civil(partition_date@),
            ),
    {
        let filter = match destination.partition.field_name() {
            Some(name) => {
                let mut out = String::from_str(name);
                out.append(" = DATE('");
                let day = partition_date.to_string();
                out.append(day.as_str());
                out.append("')");
                out
            },
            None => String::from_str("TRUE"),
        };
        InvariantChecker { table: destination.qualified_name(), filter }
    }

    /// The query whose answer tells whether `check` holds: it returns one count.
    pub fn sql_for(&self, resolved: &ResolvedInvariant) -> (r: String)
        ensures
            r@ == count_sql(resolved.deep_view().check, self.table(), self.filter()),
    {
        let mut out = String::from_str("SELECT COUNT(*) FROM ");
        match &resolved.check {
            InvariantCheck::RowCount { .. } => {
                out.append("`");
                out.append(self.table.as_str());
                out.append("` WHERE ");
                out.append(self.filter.as_str());
            },
            InvariantCheck::NotNull { column } => {
                out.append("`");
                out.append(self.table.as_str());
                out.append("` WHERE ");
                out.append(self.filter.as_str());
                out.append(" AND ");
                out.append(column.as_str());
                out.append(" IS NULL");
            },
            InvariantCheck::Unique { columns } => {
                out.append("(SELECT ");
                push_joined(&mut out, columns, ", ");
                out.append(" FROM `");
                out.append(self.table.as_str());
                out.append("` WHERE ");
                out.append(self.filter.as_str());
                out.append(" GROUP BY ");
                push_joined(&mut out, columns, ", ");
                out.append(" HAVING COUNT(*) > 1)");
            },
            InvariantCheck::Custom { sql } => {
                out.append("(");
                out.append(sql.as_str());
                out.append(")");
            },
        }
        proof {
            reveal_strlit("SELECT COUNT(*) FROM ");
            reveal_strlit("SELECT COUNT(*) FROM `");
            reveal_strlit("SELECT COUNT(*) FROM (");
            reveal_strlit("SELECT COUNT(*) FROM (SELECT ");
            reveal_strlit("`");
            reveal_strlit("(");
            reveal_strlit("(SELECT ");
        }
        out
    }

    /// The outcome of `check`, given what the warehouse answered to its query: the
    /// rows of the result, or the message of the error.
    pub fn judge(resolved: &ResolvedInvariant, answer: Result<QueryResult, String>) -> (r:
        CheckResult)
        ensures
            r.deep_view() == judged(
                resolved.deep_view(),
                match answer {
                    Ok(result) => Ok(result.rows.deep_view()),
                    Err(error) => Err(error@),
                },
            ),
    {
        let (status, message): (CheckStatus, Option<String>) = match answer {
            Err(error) => (CheckStatus::Failed, Some(error)),
            Ok(result) => {
                if result.rows.len() == 0 || result.rows[0].len() == 0 {
                    (CheckStatus::Skipped, Some(String::from_str("the check returned no count")))
                } else {
                    match parse_u64(result.rows[0][0].as_str()) {
                        None => (
                            CheckStatus::Skipped,
                            Some(String::from_str("the check returned no count")),
                        ),
                        Some(value) => {
                            if holds_of(&resolved.check, value) {
                                (CheckStatus::Passed, None)
                            } else {
                                (CheckStatus::Failed, Some(failure_text(&resolved.check, value)))
                            }
                        },
                    }
                }
            },
        };
        CheckResult { name: resolved.name.clone(), status, severity: resolved.severity, message }
    }

    /// Whether the outcomes of the checks before a write forbid the write: one of them
    /// failed with error severity.
    pub fn has_blocking_failure(results: &Vec<CheckResult>) -> (r: bool)
        ensures
            r == blocks_write(results.deep_view()),
    {
        let mut i: usize = 0;
        while i < results.len()
            invariant
                i <= results.len(),
                forall|j: int| 0 <= j < i ==> !(#[trigger] results.deep_view()[j]).is_blocking(),
            decreases results.len() - i,
        {
            if results[i].is_blocking() {
                assert(results.deep_view()[i as int].is_blocking());
                return true;
            }
            i += 1;
        }
        false
    }
}

fn holds_of(check: &InvariantCheck, value: u64) -> (r: bool)
    ensures
        r == check.deep_view().holds_of(value),
{
    match check {
        InvariantCheck::RowCount { min, max } => {
            let above = match min {
                Some(lo) => *lo <= 0 || (*lo as u64) <= value,
                None => true,
            };
            let below = match max {
                Some(hi) => *hi >= 0 && value <= (*hi as u64),
                None => true,
            };
            above && below
        },
        _ => value == 0,
    }
}

fn failure_text(check: &InvariantCheck, value: u64) -> (r: String)
    ensures
        r@ == check.deep_view().failure_text(value),
{
    match check {
        InvariantCheck::RowCount { .. } => {
            let mut out = String::from_str("row count ");
            push_decimal(&mut out, value);
            out.append(" is out of bounds");
            out
        },
        InvariantCheck::NotNull { column } => {
            let mut out = String::new();
            push_decimal(&mut out, value);
            out.append(" null value(s) in column ");
            out.append(column.as_str());
            out
        },
        InvariantCheck::Unique { .. } => {
            let mut out = String::new();
            push_decimal(&mut out, value);
            out.append(" duplicated key(s)");
            out
        },
        InvariantCheck::Custom { .. } => {
            let mut out = String::new();
            push_decimal(&mut out, value);
            out.append(" row(s) returned by the check");
            out
        },
    }
}

} // verus!

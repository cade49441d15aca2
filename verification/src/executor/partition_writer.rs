//! What one write of one partition consists of.

use vstd::prelude::*;
use super::sql_builder::{build_insert_sql, insert_sql_text, merge_sql_text};
use crate::calendar::Date;
use crate::dsl::{QueryDef, QueryDefModel};
use crate::error::{deep_result, BqDriftError, BqDriftErrorModel};
use crate::invariants::{
    resolve_invariants_def, resolved_all, InvariantReport, InvariantReportModel, ResolvedInvariant,
    ResolvedInvariantModel,
};
use crate::schema::PartitionKey;

verus! {

/// What a write of a partition did.
#[derive(Clone, Debug, PartialEq, Eq)]
pub struct PartitionWriteStats {
    pub query_name: String,
    pub version: u32,
    pub partition_key: PartitionKey,
    pub invariant_report: Option<InvariantReport>,
}

/// What a [`PartitionWriteStats`] holds.
pub struct PartitionWriteStatsModel {
    pub query_name: Seq<char>,
    pub version: u32,
    pub partition_key: PartitionKey,
    pub invariant_report: Option<InvariantReportModel>,
}

impl DeepView for PartitionWriteStats {
    type V = PartitionWriteStatsModel;

    open spec fn deep_view(&self) -> PartitionWriteStatsModel {
        PartitionWriteStatsModel {
            query_name: self.query_name@,
            version: self.version,
            partition_key: self.partition_key,
            invariant_report: self.invariant_report.deep_view(),
        }
    }
}

/// What a write of a partition will do: the statements to run, in order, and the checks
/// to run before and after them.
#[derive(Clone, Debug, PartialEq, Eq)]
pub struct WritePlan {
    pub query_name: String,
    pub version: u32,
    pub partition_key: PartitionKey,
    pub partition_date: Date,
    pub statements: Vec<String>,
    pub run_invariants: bool,
    pub before_checks: Vec<ResolvedInvariant>,
    pub after_checks: Vec<ResolvedInvariant>,
}

/// What a [`WritePlan`] holds.
pub struct WritePlanModel {
    pub query_name: Seq<char>,
    pub version: u32,
    pub partition_key: PartitionKey,
    pub partition_date: int,
    pub statements: Seq<Seq<char>>,
    pub run_invariants: bool,
    pub before_checks: Seq<ResolvedInvariantModel>,
    pub after_checks: Seq<ResolvedInvariantModel>,
}

impl DeepView for WritePlan {
    type V = WritePlanModel;

    open spec fn deep_view(&self) -> WritePlanModel {
        WritePlanModel {
            query_name: self.query_name@,
            version: self.version,
            partition_key: self.partition_key,
            partition_date: self.partition_date@,
            statements: self.statements.deep_view(),
            run_invariants: self.run_invariants,
            before_checks: self.before_checks.deep_view(),
            after_checks: self.after_checks.deep_view(),
        }
    }
}

/// The error for a partition on whose day no version is in effect.
pub open spec fn no_version_error(key: PartitionKey) -> BqDriftErrorModel {
    BqDriftErrorModel::Partition("No version found for partition "@ + key.value_text())
}

/// The error for a query whose destination names no partition column.
pub open spec fn no_field_error(query_name: Seq<char>) -> BqDriftErrorModel {
    BqDriftErrorModel::Partition(
        "Partition field not specified for query '"@ + query_name + "'"@,
    )
}

/// The merge statement for the partition `key` of `query` with the SQL text `sql`;
/// rejected where the destination names no partition column.
pub open spec fn query_merge_sql(query: QueryDefModel, sql: Seq<char>, key: PartitionKey) -> Result<
    Seq<char>,
    BqDriftErrorModel,
> {
    match query.destination.partition.field {
        Some(field) => Ok(merge_sql_text(query.destination.qualified_name(), field, sql, key)),
        None => Err(no_field_error(query.name)),
    }
}

/// The statement that empties the partition `key` of the destination of `query`.
pub open spec fn delete_sql_text(query: QueryDefModel, key: PartitionKey) -> Seq<char> {
    "DELETE FROM `"@ + query.destination.qualified_name() + key.decorator_text() + "` WHERE TRUE"@
}

/// The write of the partition `key` of `query` with the given statements, by the
/// version in effect on the key's day; rejected where no version is in effect.
pub open spec fn plan_with(
    query: QueryDefModel,
    key: PartitionKey,
    run_invariants: bool,
    statements: Seq<Seq<char>>,
) -> Result<WritePlanModel, BqDriftErrorModel> {
    match query.version_for(key.day()) {
        None => Err(no_version_error(key)),
        Some(v) => Ok(
            WritePlanModel {
                query_name: query.name,
                version: v.version,
                partition_key: key,
                partition_date: key.day(),
                statements,
                run_invariants,
                before_checks: if run_invariants {
                    resolved_all(v.invariants.before)
                } else {
                    Seq::empty()
                },
                after_checks: if run_invariants {
                    resolved_all(v.invariants.after)
                } else {
                    Seq::empty()
                },
            },
        ),
    }
}

/// The write that replaces the partition by one merge statement. The SQL is that of
/// the version in effect on the key's day, as it is in effect on `today`.
pub open spec fn merge_plan(
    query: QueryDefModel,
    key: PartitionKey,
    run_invariants: bool,
    today: int,
) -> Result<WritePlanModel, BqDriftErrorModel> {
    match query.version_for(key.day()) {
        None => Err(no_version_error(key)),
        Some(v) => match query_merge_sql(query, v.sql_for(today), key) {
            Err(e) => Err(e),
            Ok(sql) => plan_with(query, key, run_invariants, seq![sql]),
        },
    }
}

/// The write that replaces the partition by two statements: one that empties the
/// partition, addressed by its decorator, and one that inserts the new rows.
pub open spec fn truncate_plan(
    query: QueryDefModel,
    key: PartitionKey,
    run_invariants: bool,
    today: int,
) -> Result<WritePlanModel, BqDriftErrorModel> {
    match query.version_for(key.day()) {
        None => Err(no_version_error(key)),
        Some(v) => plan_with(
            query,
            key,
            run_invariants,
            seq![
                delete_sql_text(query, key),
                insert_sql_text(
                    query.destination.qualified_name() + key.decorator_text(),
                    v.sql_for(today),
                    key,
                ),
            ],
        ),
    }
}

/// Plans the writes of partitions.
pub struct PartitionWriter {}

impl PartitionWriter {
    /// A writer.
    pub fn new() -> (r: Self) {
        PartitionWriter {  }
    }

    /// The merge statement that replaces the partition `partition_key` of the
    /// destination of `query_def` by the rows of `sql`. Rejected with `Partition` where
    /// the destination names no partition column.
    pub fn build_merge_sql(query_def: &QueryDef, sql: &str, partition_key: &PartitionKey) -> (r:
        Result<String, BqDriftError>)
        ensures
            match r {
                Ok(text) => query_merge_sql(query_def.deep_view(), sql@, *partition_key) == Ok::<
                    Seq<char>,
                    BqDriftErrorModel,
                >(text@),
                Err(e) => query_merge_sql(query_def.deep_view(), sql@, *partition_key) == Err::<
                    Seq<char>,
                    BqDriftErrorModel,
                >(e.deep_view()),
            },
    {
        let dest_table = query_def.destination.qualified_name();
        match query_def.destination.partition.field_name() {
            Some(partition_field) => Ok(
                super::sql_builder::build_merge_sql(
                    dest_table.as_str(),
                    partition_field,
                    sql,
                    partition_key,
                ),
            ),
            None => {
                let mut message = String::from_str("Partition field not specified for query '");
                message.append(query_def.name.as_str());
                message.append("'");
                Err(BqDriftError::Partition(message))
            },
        }
    }

    fn plan(
        query_def: &QueryDef,
        version_index: usize,
        partition_key: PartitionKey,
        partition_date: Date,
        run_invariants: bool,
        statements: Vec<String>,
    ) -> (r: WritePlan)
        requires
            partition_date@ == partition_key.day(),
            query_def.deep_view().version_index_for(partition_date@) == Some(version_index as int),
            version_index < query_def.versions.len(),
        ensures
            Ok::<WritePlanModel, BqDriftErrorModel>(r.deep_view()) == plan_with(
                query_def.deep_view(),
                partition_key,
                run_invariants,
                statements.deep_view(),
            ),
    {
        let version = &query_def.versions[version_index];
        let (before_checks, after_checks) = if run_invariants {
            resolve_invariants_def(&version.invariants)
        } else {
            let none_before: Vec<ResolvedInvariant> = Vec::new();
            let none_after: Vec<ResolvedInvariant> = Vec::new();
            assert(none_after.deep_view() =~= Seq::empty());
            (none_before, none_after)
        };
        WritePlan {
            query_name: query_def.name.clone(),
            version: version.version,
            partition_key,
            partition_date,
            statements,
            run_invariants,
            before_checks,
            after_checks,
        }
    }

    fn no_version(partition_key: &PartitionKey) -> (r: BqDriftError)
        ensures
            r.deep_view() == no_version_error(*partition_key),
    {
        let mut message = String::from_str("No version found for partition ");
        let value = partition_key.sql_value();
        message.append(value.as_str());
        BqDriftError::Partition(message)
    }

    /// Plans the write that replaces the partition by one merge statement, as of
    /// `today`. Rejected with `Partition` where no version is in effect on the key's
    /// day, or where the destination names no partition column.
    pub fn plan_partition(
        &self,
        query_def: &QueryDef,
        partition_key: PartitionKey,
        today: Date,
        run_invariants: bool,
    ) -> (r: Result<WritePlan, BqDriftError>)
        ensures
            deep_result(r) == merge_plan(
                query_def.deep_view(),
                partition_key,
                run_invariants,
                today@,
            ),
    {
        let partition_date = partition_key.to_naive_date();
        let index = match query_def.version_index_for_date(partition_date) {
            Some(i) => i,
            None => {
                return Err(Self::no_version(&partition_key));
            },
        };
        let sql = query_def.versions[index].get_sql_for_date(today);
        let full_sql = match Self::build_merge_sql(query_def, sql, &partition_key) {
            Ok(text) => text,
            Err(e) => {
                return Err(e);
            },
        };
        let mut statements: Vec<String> = Vec::new();
        statements.push(full_sql);
        assert(statements.deep_view() =~= seq![full_sql@]);
        Ok(Self::plan(query_def, index, partition_key, partition_date, run_invariants, statements))
    }

    /// Plans the write that empties the partition and then inserts the new rows, as of
    /// `today`. Rejected with `Partition` where no version is in effect on the key's
    /// day.
    pub fn plan_partition_truncate(
        &self,
        query_def: &QueryDef,
        partition_key: PartitionKey,
        today: Date,
        run_invariants: bool,
    ) -> (r: Result<WritePlan, BqDriftError>)
        ensures
            deep_result(r) == truncate_plan(
                query_def.deep_view(),
                partition_key,
                run_invariants,
                today@,
            ),
    {
        let partition_date = partition_key.to_naive_date();
        let index = match query_def.version_index_for_date(partition_date) {
            Some(i) => i,
            None => {
                return Err(Self::no_version(&partition_key));
            },
        };
        let mut dest_table = query_def.destination.qualified_name();
        let decorator = partition_key.decorator();
        dest_table.append(decorator.as_str());
        let sql = query_def.versions[index].get_sql_for_date(today);
        let insert_sql = build_insert_sql(dest_table.as_str(), sql, &partition_key);
        let mut delete_sql = String::from_str("DELETE FROM `");
        delete_sql.append(dest_table.as_str());
        delete_sql.append("` WHERE TRUE");
        assert(delete_sql@ =~= delete_sql_text(query_def.deep_view(), partition_key));
        let mut statements: Vec<String> = Vec::new();
        statements.push(delete_sql);
        statements.push(insert_sql);
        assert(statements.deep_view() =~= seq![delete_sql@, insert_sql@]);
        Ok(Self::plan(query_def, index, partition_key, partition_date, run_invariants, statements))
    }

    /// What a write did, once it has succeeded with the given report of its checks.
    pub fn stats(plan: &WritePlan, invariant_report: Option<InvariantReport>) -> (r:
        PartitionWriteStats)
        ensures
            r.deep_view() == (PartitionWriteStatsModel {
                query_name: plan.query_name@,
                version: plan.version,
                partition_key: plan.partition_key,
                invariant_report: invariant_report.deep_view(),
            }),
    {
        PartitionWriteStats {
            query_name: plan.query_name.clone(),
            version: plan.version,
            partition_key: plan.partition_key,
            invariant_report,
        }
    }
}

} // verus!

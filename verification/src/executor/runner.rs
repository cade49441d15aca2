//! Runs over many partitions: which partitions a backfill covers, and what is reported
//! of the writes.

use std::sync::Arc;
use vstd::prelude::*;
use super::partition_writer::{PartitionWriteStats, PartitionWriteStatsModel, PartitionWriter};
use crate::calendar::Date;
use crate::dsl::{QueryDef, QueryDefModel};
use crate::error::{BqDriftError, BqDriftErrorModel};
use crate::schema::PartitionKey;
use crate::text::{parse_u32, parsed_u32};

verus! {

/// How many writes run at a time unless told otherwise.
pub const DEFAULT_PARALLELISM: usize = 5;

/// How many writes run at a time, given the text of the setting for it if there is
/// one: the number that the text denotes, at least 1, and 5 without a readable number.
pub open spec fn parallelism_of(setting: Option<Seq<char>>) -> nat {
    match setting {
        Some(text) => match parsed_u32(text) {
            Some(n) => if n >= 1 {
                n as nat
            } else {
                1
            },
            None => DEFAULT_PARALLELISM as nat,
        },
        None => DEFAULT_PARALLELISM as nat,
    }
}

/// A write that failed.
#[derive(Clone, Debug, PartialEq, Eq)]
pub struct RunFailure {
    pub query_name: String,
    pub partition_key: PartitionKey,
    pub error: String,
}

/// What a [`RunFailure`] holds.
pub struct RunFailureModel {
    pub query_name: Seq<char>,
    pub partition_key: PartitionKey,
    pub error: Seq<char>,
}

impl DeepView for RunFailure {
    type V = RunFailureModel;

    open spec fn deep_view(&self) -> RunFailureModel {
        RunFailureModel {
            query_name: self.query_name@,
            partition_key: self.partition_key,
            error: self.error@,
        }
    }
}

/// What a run did: the writes that succeeded and those that failed.
#[derive(Clone, Debug, PartialEq, Eq)]
pub struct RunReport {
    pub stats: Vec<PartitionWriteStats>,
    pub failures: Vec<RunFailure>,
}

/// What a [`RunReport`] holds.
pub struct RunReportModel {
    pub stats: Seq<PartitionWriteStatsModel>,
    pub failures: Seq<RunFailureModel>,
}

impl DeepView for RunReport {
    type V = RunReportModel;

    open spec fn deep_view(&self) -> RunReportModel {
        RunReportModel { stats: self.stats.deep_view(), failures: self.failures.deep_view() }
    }
}

/// How the write of one partition of one query ended.
#[derive(Debug, PartialEq, Eq)]
pub struct RunOutcome {
    pub query_name: String,
    pub partition_key: PartitionKey,
    pub result: Result<PartitionWriteStats, BqDriftError>,
}

/// What a [`RunOutcome`] holds.
pub struct OutcomeModel {
    pub query_name: Seq<char>,
    pub partition_key: PartitionKey,
    pub result: Result<PartitionWriteStatsModel, BqDriftErrorModel>,
}

impl DeepView for RunOutcome {
    type V = OutcomeModel;

    open spec fn deep_view(&self) -> OutcomeModel {
        OutcomeModel {
            query_name: self.query_name@,
            partition_key: self.partition_key,
            result: match self.result {
                Ok(stats) => Ok(stats.deep_view()),
                Err(e) => Err(e.deep_view()),
            },
        }
    }
}

impl BqDriftErrorModel {
    /// The message that the error carries.
    pub open spec fn message(self) -> Seq<char> {
        match self {
            BqDriftErrorModel::Io(m) => m,
            BqDriftErrorModel::DslParse(m) => m,
            BqDriftErrorModel::InvalidVersionRef(m) => m,
            BqDriftErrorModel::VariableResolution(m) => m,
            BqDriftErrorModel::Validation(m) => m,
            BqDriftErrorModel::Partition(m) => m,
            BqDriftErrorModel::QueryNotFound(m) => m,
            BqDriftErrorModel::InvariantFailed(m) => m,
            BqDriftErrorModel::Execution(m) => m,
        }
    }

    /// What the error's kind is called in its text.
    pub open spec fn label(self) -> Seq<char> {
        match self {
            BqDriftErrorModel::Io(_) => "IO error"@,
            BqDriftErrorModel::DslParse(_) => "DSL parse error"@,
            BqDriftErrorModel::InvalidVersionRef(_) => "Invalid version reference"@,
            BqDriftErrorModel::VariableResolution(_) => "Variable resolution error"@,
            BqDriftErrorModel::Validation(_) => "Validation error"@,
            BqDriftErrorModel::Partition(_) => "Partition error"@,
            BqDriftErrorModel::QueryNotFound(_) => "Query not found"@,
            BqDriftErrorModel::InvariantFailed(_) => "Invariant check failed"@,
            BqDriftErrorModel::Execution(_) => "Execution error"@,
        }
    }

    /// The error as one line of text.
    pub open spec fn text(self) -> Seq<char> {
        self.label() + ": "@ + self.message()
    }
}

/// The report of `outcomes`: each success among the stats and each failure among the
/// failures, both in the order of the outcomes.
pub open spec fn splits(outcomes: Seq<OutcomeModel>) -> RunReportModel
    decreases outcomes.len(),
{
    if outcomes.len() == 0 {
        RunReportModel { stats: Seq::empty(), failures: Seq::empty() }
    } else {
        let front = splits(outcomes.drop_last());
        let last = outcomes.last();
        match last.result {
            Ok(stats) => RunReportModel { stats: front.stats.push(stats), ..front },
            Err(e) => RunReportModel {
                failures: front.failures.push(
                    RunFailureModel {
                        query_name: last.query_name,
                        partition_key: last.partition_key,
                        error: e.text(),
                    },
                ),
                ..front
            },
        }
    }
}

/// Every outcome is reported once: as a success or as a failure.
pub proof fn lemma_report_is_total(outcomes: Seq<OutcomeModel>)
    ensures
        splits(outcomes).stats.len() + splits(outcomes).failures.len() == outcomes.len(),
    decreases outcomes.len(),
{
    if outcomes.len() > 0 {
        lemma_report_is_total(outcomes.drop_last());
    }
}

impl RunReport {
    /// The report of a run whose writes ended as `outcomes` say. No outcome is left
    /// out: the stats and the failures together are as many as the outcomes.
    pub fn collect(outcomes: Vec<RunOutcome>) -> (r: RunReport)
        ensures
            r.deep_view() == splits(outcomes.deep_view()),
            r.stats@.len() + r.failures@.len() == outcomes@.len(),
    {
        let ghost items = outcomes@;
        let ghost all = outcomes.deep_view();
        let mut stats: Vec<PartitionWriteStats> = Vec::new();
        let mut failures: Vec<RunFailure> = Vec::new();
        proof {
            assert(stats.deep_view() =~= Seq::empty());
            assert(failures.deep_view() =~= Seq::empty());
        }
        for outcome in it: outcomes.into_iter()
            invariant
                it.seq() == items,
                all.len() == items.len(),
                forall|k: int| 0 <= k < items.len() ==> all[k] == (#[trigger] items[k]).deep_view(),
                (RunReportModel { stats: stats.deep_view(), failures: failures.deep_view() })
                    == splits(all.take(it.index() as int)),
                stats@.len() + failures@.len() == it.index(),
        {
            let ghost done = it.index() as int;
            let ghost before_stats = stats.deep_view();
            let ghost before_failures = failures.deep_view();
            proof {
                assert(all.take(done + 1).drop_last() =~= all.take(done));
            }
            let RunOutcome { query_name, partition_key, result } = outcome;
            match result {
                Ok(s) => {
                    stats.push(s);
                    assert(stats.deep_view() =~= before_stats.push(s.deep_view()));
                },
                Err(e) => {
                    let failure = RunFailure { query_name, partition_key, error: e.to_string() };
                    failures.push(failure);
                    assert(failures.deep_view() =~= before_failures.push(failure.deep_view()));
                },
            }
        }
        proof {
            assert(all.take(items.len() as int) =~= all);
        }
        RunReport { stats, failures }
    }
}

/// Whether `keys` are the partitions from `from` to `to` in steps of `stride`: the first
/// is `from`, each following one is `stride` units after the one before it, none comes
/// after `to`, and the one that would follow the last does. There is none where `from`
/// comes after `to`, where the two are of different kinds, or where `stride` is less
/// than 1.
pub open spec fn enumerates(
    keys: Seq<PartitionKey>,
    from: PartitionKey,
    to: PartitionKey,
    stride: int,
) -> bool {
    if from.same_kind(to) && stride >= 1 && from.precedes_or_is(to) {
        &&& keys.len() >= 1
        &&& keys[0] == from
        &&& forall|k: int| 0 <= k < keys.len() ==> (#[trigger] keys[k]).precedes_or_is(to)
        &&& forall|k: int| 0 <= k < keys.len() - 1 ==> (#[trigger] keys[k]).step(stride) == Some(
            keys[k + 1],
        )
        &&& match keys.last().step(stride) {
            Some(next) => !next.precedes_or_is(to),
            None => true,
        }
    } else {
        keys.len() == 0
    }
}

/// The place of the query that stands for `name`: the last of that name.
pub open spec fn query_named(queries: Seq<QueryDefModel>, name: Seq<char>) -> Option<int>
    decreases queries.len(),
{
    if queries.len() == 0 {
        None
    } else if queries.last().name == name {
        Some(queries.len() - 1)
    } else {
        query_named(queries.drop_last(), name)
    }
}

/// The error for a name that no known query has.
pub open spec fn not_found_error(name: Seq<char>) -> BqDriftErrorModel {
    BqDriftErrorModel::QueryNotFound(name)
}

/// Runs the known queries over partitions.
pub struct Runner {
    writer: PartitionWriter,
    queries: Arc<Vec<QueryDef>>,
    parallelism: usize,
}

impl Runner {
    /// The queries that the runner knows, in the order in which they were given.
    pub closed spec fn known_queries(self) -> Seq<QueryDefModel> {
        self.queries.deep_view()
    }

    /// How many writes the runner lets run at a time.
    pub closed spec fn width(self) -> nat {
        self.parallelism as nat
    }

    /// A runner over `queries` that lets five writes run at a time.
    pub fn new(queries: Arc<Vec<QueryDef>>) -> (r: Self)
        ensures
            r.known_queries() == queries.deep_view(),
            r.width() == DEFAULT_PARALLELISM,
    {
        Runner { writer: PartitionWriter::new(), queries, parallelism: DEFAULT_PARALLELISM }
    }

    /// How many writes run at a time by the setting `setting`, if there is one.
    pub fn default_parallelism(setting: Option<&str>) -> (r: usize)
        ensures
            r == parallelism_of(setting.deep_view()),
            r >= 1,
    {
        match setting {
            Some(text) => match parse_u32(text) {
                Some(n) => if n >= 1 {
                    n as usize
                } else {
                    1
                },
                None => DEFAULT_PARALLELISM,
            },
            None => DEFAULT_PARALLELISM,
        }
    }

    /// The same runner with `parallelism` writes at a time, and one if `parallelism`
    /// is 0.
    pub fn with_parallelism(self, parallelism: usize) -> (r: Self)
        ensures
            r.known_queries() == self.known_queries(),
            r.width() == if parallelism >= 1 {
                parallelism as nat
            } else {
                1
            },
    {
        Runner {
            writer: self.writer,
            queries: self.queries,
            parallelism: if parallelism >= 1 {
                parallelism
            } else {
                1
            },
        }
    }

    /// How many writes the runner lets run at a time.
    pub fn parallelism(&self) -> (r: usize)
        ensures
            r == self.width(),
    {
        self.parallelism
    }

    /// The queries that the runner knows.
    pub fn queries(&self) -> (r: &Vec<QueryDef>)
        ensures
            r.deep_view() == self.known_queries(),
    {
        &self.queries
    }

    /// The planner of the runner's writes.
    pub fn writer(&self) -> (r: &PartitionWriter) {
        &self.writer
    }

    /// The query that stands for `name`: the last of that name.
    pub fn get_query(&self, name: &str) -> (r: Option<&QueryDef>)
        ensures
            match r {
                Some(q) => query_named(self.known_queries(), name@) matches Some(i) && q.deep_view()
                    == self.known_queries()[i],
                None => query_named(self.known_queries(), name@).is_none(),
            },
    {
        let queries: &Vec<QueryDef> = &self.queries;
        let ghost all = queries.deep_view();
        let mut i: usize = queries.len();
        assert(all.take(i as int) == all);
        while i > 0
            invariant
                i <= queries.len(),
                all == queries.deep_view(),
                all == self.known_queries(),
                query_named(all, name@) == query_named(all.take(i as int), name@),
            decreases i,
        {
            i -= 1;
            proof {
                assert(all.take(i + 1).drop_last() == all.take(i as int));
            }
            if queries[i].name.as_str().eq(name) {
                return Some(&queries[i]);
            }
        }
        None
    }

    /// The partitions from `from` to `to`, both included, in steps of `interval`, or of
    /// one unit without an interval.
    pub fn partitions_between(from: PartitionKey, to: PartitionKey, interval: Option<i64>) -> (r:
        Vec<PartitionKey>)
        ensures
            enumerates(
                r@,
                from,
                to,
                match interval {
                    Some(i) => i as int,
                    None => 1,
                },
            ),
    {
        let stride: i64 = match interval {
            Some(i) => i,
            None => 1,
        };
        let mut keys: Vec<PartitionKey> = Vec::new();
        if !same_kind(&from, &to) || stride < 1 || !from.le(&to) {
            return keys;
        }
        let mut current = from;
        loop
            invariant_except_break
                current.precedes_or_is(to),
                keys.len() == 0 ==> current == from,
                keys.len() > 0 ==> keys@[0] == from && keys@.last().step(stride as int) == Some(
                    current,
                ),
            invariant
                stride >= 1,
                from.same_kind(to),
                from.precedes_or_is(to),
                current.same_kind(to),
                forall|k: int| 0 <= k < keys.len() ==> (#[trigger] keys@[k]).precedes_or_is(to),
                forall|k: int|
                    0 <= k < keys.len() - 1 ==> (#[trigger] keys@[k]).step(stride as int) == Some(
                        keys@[k + 1],
                    ),
            ensures
                enumerates(keys@, from, to, stride as int),
            decreases (to.position().0 - current.position().0) * 0x2_0000_0000 + (to.position().1
                    - current.position().1) + 0x1_0000_0000,
        {
            keys.push(current);
            match current.checked_next_by(stride) {
                None => {
                    break ;
                },
                Some(next) => {
                    if !next.le(&to) {
                        break ;
                    }
                    current = next;
                },
            }
        }
        keys
    }

    /// The partitions that a backfill of the query `query_name` covers: those from
    /// `from` to `to` in steps of `interval`. Rejected with `QueryNotFound` for a name
    /// that no known query has.
    pub fn backfill_keys(
        &self,
        query_name: &str,
        from: PartitionKey,
        to: PartitionKey,
        interval: Option<i64>,
    ) -> (r: Result<Vec<PartitionKey>, BqDriftError>)
        ensures
            match r {
                Ok(keys) => query_named(self.known_queries(), query_name@).is_some() && enumerates(
                    keys@,
                    from,
                    to,
                    match interval {
                        Some(i) => i as int,
                        None => 1,
                    },
                ),
                Err(e) => query_named(self.known_queries(), query_name@).is_none() && e.deep_view()
                    == not_found_error(query_name@),
            },
    {
        match self.get_query(query_name) {
            Some(_) => Ok(Self::partitions_between(from, to, interval)),
            None => Err(BqDriftError::QueryNotFound(String::from_str(query_name))),
        }
    }

    /// The days that a backfill by day covers: each day from `from` to `to`.
    pub fn backfill_days(&self, query_name: &str, from: Date, to: Date) -> (r: Result<
        Vec<PartitionKey>,
        BqDriftError,
    >)
        ensures
            match r {
                Ok(keys) => query_named(self.known_queries(), query_name@).is_some() && enumerates(
                    keys@,
                    PartitionKey::Day(from),
                    PartitionKey::Day(to),
                    1,
                ),
                Err(e) => query_named(self.known_queries(), query_name@).is_none() && e.deep_view()
                    == not_found_error(query_name@),
            },
    {
        self.backfill_keys(query_name, PartitionKey::Day(from), PartitionKey::Day(to), None)
    }
}

fn same_kind(a: &PartitionKey, b: &PartitionKey) -> (r: bool)
    ensures
        r == a.same_kind(*b),
{
    match (a, b) {
        (PartitionKey::Hour(_), PartitionKey::Hour(_)) => true,
        (PartitionKey::Day(_), PartitionKey::Day(_)) => true,
        (PartitionKey::Month { .. }, PartitionKey::Month { .. }) => true,
        (PartitionKey::Year(_), PartitionKey::Year(_)) => true,
        (PartitionKey::Range(_), PartitionKey::Range(_)) => true,
        _ => false,
    }
}

} // verus!

//! Classifies every partition of every query in a window of days.
//!
//! Detection compares what is stored of a partition's last execution with what is
//! declared now. It never reports a partition as changed upstream: whether a query
//! that a partition read from has run again is told by a pass of its own,
//! [`DriftDetector::detect_upstream_changed`], which names the upstream query.

use vstd::prelude::*;
use super::checksum::{fingerprint, Checksums, ChecksumsModel};
use super::state::{
    DriftReport, DriftState, ExecutionStatus, PartitionDrift, PartitionDriftModel, PartitionState,
    PartitionStateModel,
};
use crate::calendar::{day_in_range, Date, MAX_DAY_NUMBER};
use crate::dsl::{QueryDef, QueryDefModel, VersionDefModel};
use crate::error::BqDriftError;
use crate::schema::{canonical_text, PartitionKey};
use crate::text::{clone_opt_string, decimal, push_decimal};

verus! {

/// The widest window that one detection may span: the last day is at most this many
/// days after the first.
pub const MAX_DETECTION_DAYS: i64 = 3650;

/// Whether `i` is the place of the stored state that counts for the partition `day` of the
/// query `name`: it is a state of that partition, none of that partition was executed
/// later, and of those executed at the same instant it is the first.
pub open spec fn is_latest_stored(
    stored: Seq<PartitionStateModel>,
    name: Seq<char>,
    day: int,
    i: int,
) -> bool {
    &&& 0 <= i < stored.len()
    &&& stored[i].query_name == name
    &&& stored[i].partition_date == day
    &&& forall|j: int|
        0 <= j < stored.len() && (#[trigger] stored[j]).query_name == name && stored[j].partition_date
            == day ==> stored[j].executed_at < stored[i].executed_at || (stored[j].executed_at
            == stored[i].executed_at && i <= j)
}

/// The place of the stored state that counts for the partition `day` of the query `name`,
/// if any state of that partition is stored.
pub open spec fn latest_stored(stored: Seq<PartitionStateModel>, name: Seq<char>, day: int) -> Option<
    int,
>
    decreases stored.len(),
{
    if stored.len() == 0 {
        None
    } else {
        let last = stored.len() - 1;
        let of_partition = stored[last].query_name == name && stored[last].partition_date == day;
        match latest_stored(stored.drop_last(), name, day) {
            Some(i) => if of_partition && stored[i].executed_at < stored[last].executed_at {
                Some(last)
            } else {
                Some(i)
            },
            None => if of_partition {
                Some(last)
            } else {
                None
            },
        }
    }
}

/// `latest_stored` finds the state that counts, and finds none only if the partition has
/// no stored state.
pub proof fn lemma_latest_stored(stored: Seq<PartitionStateModel>, name: Seq<char>, day: int)
    ensures
        match latest_stored(stored, name, day) {
            Some(i) => is_latest_stored(stored, name, day, i),
            None => forall|j: int|
                0 <= j < stored.len() ==> !((#[trigger] stored[j]).query_name == name
                    && stored[j].partition_date == day),
        },
    decreases stored.len(),
{
    if stored.len() > 0 {
        let front = stored.drop_last();
        lemma_latest_stored(front, name, day);
        assert forall|j: int| 0 <= j < front.len() implies front[j] == stored[j] by {}
    }
}

/// The stored state that counts for the partition `day` of the query `name`, if any.
pub open spec fn stored_for(stored: Seq<PartitionStateModel>, name: Seq<char>, day: int) -> Option<
    PartitionStateModel,
> {
    match latest_stored(stored, name, day) {
        Some(i) => Some(stored[i]),
        None => None,
    }
}

/// How a partition stands: never run without a version in effect or without a stored
/// state; failed if its last execution failed; otherwise told by the schema
/// fingerprint, then the SQL fingerprint, then the version number.
pub open spec fn classify(
    version: Option<VersionDefModel>,
    stored: Option<PartitionStateModel>,
    today: int,
) -> DriftState {
    match (version, stored) {
        (Some(v), Some(s)) => if s.status == ExecutionStatus::Failed {
            DriftState::Failed
        } else if fingerprint(canonical_text(v.schema)) != s.schema_checksum {
            DriftState::SchemaChanged
        } else if fingerprint(v.sql_for(today)) != s.sql_checksum {
            DriftState::SqlChanged
        } else if v.version != s.version {
            DriftState::VersionUpgraded
        } else {
            DriftState::Current
        },
        _ => DriftState::NeverRun,
    }
}

/// What detection says of the partition `day` of `query`, given the stored state that
/// counts for it and the day on which detection runs.
pub open spec fn partition_drift(
    query: QueryDefModel,
    day: int,
    stored: Option<PartitionStateModel>,
    today: int,
) -> PartitionDriftModel {
    let version = query.version_for(day);
    let state = classify(version, stored, today);
    PartitionDriftModel {
        query_name: query.name,
        partition_key: PartitionKey::Day(Date::at(day)),
        state,
        current_version: match version {
            Some(v) => v.version,
            None => 0,
        },
        executed_version: match (version, stored) {
            (Some(_), Some(s)) => Some(s.version),
            _ => None,
        },
        caused_by: None,
        executed_sql_b64: match stored {
            Some(s) => s.executed_sql_b64,
            None => None,
        },
        current_sql: match version {
            Some(v) => if state.spec_needs_rerun() {
                Some(v.sql_for(today))
            } else {
                None
            },
            None => None,
        },
    }
}

/// What detection says of `query` for each day from `from` to `to`, in order.
pub open spec fn query_drifts(
    query: QueryDefModel,
    stored: Seq<PartitionStateModel>,
    from: int,
    to: int,
    today: int,
) -> Seq<PartitionDriftModel> {
    Seq::new(
        if from <= to {
            (to - from + 1) as nat
        } else {
            0
        },
        |k: int| partition_drift(query, from + k, stored_for(stored, query.name, from + k), today),
    )
}

/// Whether a later query of the list has the name of the query at place `i`: the later
/// one then stands for the name.
pub open spec fn shadowed(queries: Seq<QueryDefModel>, i: int) -> bool {
    exists|j: int| i < j < queries.len() && (#[trigger] queries[j]).name == queries[i].name
}

/// What detection says of the first `n` queries: for each query that is not shadowed,
/// in the order of the list, its partitions in the order of the days.
pub open spec fn detection(
    queries: Seq<QueryDefModel>,
    n: int,
    stored: Seq<PartitionStateModel>,
    from: int,
    to: int,
    today: int,
) -> Seq<PartitionDriftModel>
    decreases n,
{
    if n <= 0 {
        Seq::empty()
    } else {
        detection(queries, n - 1, stored, from, to, today) + if shadowed(queries, n - 1) {
            Seq::empty()
        } else {
            query_drifts(queries[n - 1], stored, from, to, today)
        }
    }
}

/// The text of the error for a window that is too wide.
pub open spec fn too_large_message(days: int) -> Seq<char> {
    "Date range too large: "@ + decimal(days as nat) + " days exceeds maximum of 3650 days"@
}

/// The name of the first upstream, from place `k` on, whose partition `day` was executed
/// after the instant recorded for it.
pub open spec fn first_changed_upstream(
    upstreams: Seq<(Seq<char>, int)>,
    k: int,
    all: Seq<PartitionStateModel>,
    day: int,
) -> Option<Seq<char>>
    decreases upstreams.len() - k,
{
    if k < 0 || k >= upstreams.len() {
        None
    } else {
        match stored_for(all, upstreams[k].0, day) {
            Some(s) if s.executed_at > upstreams[k].1 => Some(upstreams[k].0),
            _ => first_changed_upstream(upstreams, k + 1, all, day),
        }
    }
}

/// A partition whose last execution failed is reported as failed, whatever its
/// fingerprints say, as long as a version is in effect on its day.
pub proof fn lemma_failed_is_reported(
    query: QueryDefModel,
    day: int,
    stored: PartitionStateModel,
    today: int,
)
    requires
        stored.status == ExecutionStatus::Failed,
        query.version_for(day).is_some(),
    ensures
        partition_drift(query, day, Some(stored), today).state == DriftState::Failed,
{
}

/// A partition without a stored state has never run, and it is given the SQL to run
/// exactly if a version is in effect on its day.
pub proof fn lemma_unstored_is_never_run(query: QueryDefModel, day: int, today: int)
    ensures
        partition_drift(query, day, None, today).state == DriftState::NeverRun,
        partition_drift(query, day, None, today).current_sql.is_some() == query.version_for(
            day,
        ).is_some(),
        partition_drift(query, day, None, today).executed_sql_b64.is_none(),
{
}

/// A partition that was executed with success by the version in effect, and whose stored
/// fingerprints are those of the declaration, is current and is given no SQL to run.
pub proof fn lemma_matching_is_current(
    query: QueryDefModel,
    day: int,
    stored: PartitionStateModel,
    yaml: Seq<char>,
    today: int,
)
    requires
        query.version_for(day) matches Some(v) && {
            let current = ChecksumsModel::of_version(v, yaml, today);
            &&& stored.sql_checksum == current.sql
            &&& stored.schema_checksum == current.schema
            &&& stored.yaml_checksum == current.yaml
            &&& stored.version == v.version
        },
        stored.status == ExecutionStatus::Success,
    ensures
        partition_drift(query, day, Some(stored), today).state == DriftState::Current,
        partition_drift(query, day, Some(stored), today).current_sql.is_none(),
        partition_drift(query, day, Some(stored), today).executed_sql_b64 == stored.executed_sql_b64,
{
}

/// A partition is given the SQL to run exactly if it has to run again and a version is
/// in effect; what was stored of the executed SQL is always handed on.
pub proof fn lemma_current_sql_iff_rerun(
    query: QueryDefModel,
    day: int,
    stored: Option<PartitionStateModel>,
    today: int,
)
    ensures
        partition_drift(query, day, stored, today).current_sql.is_some() == (partition_drift(
            query,
            day,
            stored,
            today,
        ).state.spec_needs_rerun() && query.version_for(day).is_some()),
        partition_drift(query, day, stored, today).caused_by.is_none(),
        stored matches Some(s) ==> partition_drift(query, day, stored, today).executed_sql_b64
            == s.executed_sql_b64,
{
}

/// The report of a window holds one partition for each day of the window and each
/// query that is not shadowed.
pub proof fn lemma_detection_len(
    queries: Seq<QueryDefModel>,
    n: int,
    stored: Seq<PartitionStateModel>,
    from: int,
    to: int,
    today: int,
)
    requires
        0 <= n <= queries.len(),
        from <= to,
    ensures
        detection(queries, n, stored, from, to, today).len() <= n * (to - from + 1),
        (forall|i: int| 0 <= i < n ==> !shadowed(queries, i)) ==> detection(
            queries,
            n,
            stored,
            from,
            to,
            today,
        ).len() == n * (to - from + 1),
    decreases n,
{
    if n > 0 {
        lemma_detection_len(queries, n - 1, stored, from, to, today);
        assert(n * (to - from + 1) == (n - 1) * (to - from + 1) + (to - from + 1))
            by (nonlinear_arith);
    }
}

/// Finds drift between the queries as they are declared and the partitions as they
/// were last executed.
pub struct DriftDetector<'a> {
    queries: &'a [QueryDef],
    yaml_contents: &'a [(String, String)],
}

/// The declaration text recorded for the query `name`: that of the last pair with this
/// name, and the empty text where there is none.
pub open spec fn yaml_for(yaml: Seq<(Seq<char>, Seq<char>)>, name: Seq<char>) -> Seq<char>
    decreases yaml.len(),
{
    if yaml.len() == 0 {
        Seq::empty()
    } else if yaml.last().0 == name {
        yaml.last().1
    } else {
        yaml_for(yaml.drop_last(), name)
    }
}

impl<'a> DriftDetector<'a> {
    /// The queries that the detector knows, in the order in which they were given.
    pub closed spec fn queries(self) -> Seq<QueryDefModel> {
        self.queries.deep_view()
    }

    /// The declaration texts that the detector knows, as pairs of query name and text.
    pub closed spec fn yaml_contents(self) -> Seq<(Seq<char>, Seq<char>)> {
        self.yaml_contents.deep_view()
    }

    /// A detector over `queries`, with the declaration text of each by name.
    pub fn new(queries: &'a [QueryDef], yaml_contents: &'a [(String, String)]) -> (r: Self)
        ensures
            r.queries() == queries.deep_view(),
            r.yaml_contents() == yaml_contents.deep_view(),
    {
        DriftDetector { queries, yaml_contents }
    }

    /// The error for a window that is too wide: `to` is more than 3650 days after `from`.
    pub fn window_error(from: Date, to: Date) -> (r: Option<BqDriftError>)
        ensures
            r.is_some() == (to@ - from@ > MAX_DETECTION_DAYS),
            r matches Some(e) ==> e is Partition && e.message() == too_large_message(to@ - from@),
    {
        let num_days: i64 = to.days_since(from);
        if num_days > MAX_DETECTION_DAYS {
            let mut message = String::from_str("Date range too large: ");
            push_decimal(&mut message, num_days as u64);
            message.append(" days exceeds maximum of 3650 days");
            Some(BqDriftError::Partition(message))
        } else {
            None
        }
    }

    /// The places of the queries that detection reports: those that no later query of
    /// the same name shadows, in the order of the list.
    pub fn reported_queries(&self) -> (r: Vec<usize>)
        ensures
            forall|k: int| 0 <= k < r.len() ==> (#[trigger] r@[k]) < self.queries().len() && !shadowed(
                self.queries(),
                r@[k] as int,
            ),
            forall|i: int|
                0 <= i < self.queries().len() && !shadowed(self.queries(), i) ==> exists|k: int|
                    0 <= k < r.len() && #[trigger] r@[k] == i,
            forall|k: int, l: int| 0 <= k < l < r.len() ==> r@[k] < r@[l],
    {
        let mut out: Vec<usize> = Vec::new();
        let count = self.queries.len();
        let mut i: usize = 0;
        while i < count
            invariant
                i <= count,
                count == self.queries().len(),
                forall|k: int| 0 <= k < out.len() ==> (#[trigger] out@[k]) < i && !shadowed(
                    self.queries(),
                    out@[k] as int,
                ),
                forall|j: int|
                    0 <= j < i && !shadowed(self.queries(), j) ==> exists|k: int|
                        0 <= k < out.len() && #[trigger] out@[k] == j,
                forall|k: int, l: int| 0 <= k < l < out.len() ==> out@[k] < out@[l],
            decreases count - i,
        {
            if !self.is_shadowed(i) {
                let ghost before = out@;
                out.push(i);
                proof {
                    assert forall|j: int| 0 <= j < i + 1 && !shadowed(self.queries(), j) implies exists|
                        k: int,
                    | 0 <= k < out.len() && #[trigger] out@[k] == j by {
                        if j < i {
                            let k = choose|k: int| 0 <= k < before.len() && #[trigger] before[k] == j;
                            assert(out@[k] == j);
                        } else {
                            assert(out@[before.len() as int] == j);
                        }
                    }
                }
            }
            i += 1;
        }
        out
    }

    fn yaml_content(&self, name: &str) -> (r: &str)
        ensures
            r@ == yaml_for(self.yaml_contents(), name@),
    {
        let ghost all = self.yaml_contents.deep_view();
        let mut i: usize = self.yaml_contents.len();
        assert(all.take(i as int) == all);
        while i > 0
            invariant
                i <= self.yaml_contents.len(),
                all == self.yaml_contents.deep_view(),
                yaml_for(all, name@) == yaml_for(all.take(i as int), name@),
            decreases i,
        {
            i -= 1;
            proof {
                assert(all.take(i + 1).drop_last() == all.take(i as int));
            }
            if self.yaml_contents[i].0.as_str().eq(name) {
                return self.yaml_contents[i].1.as_str();
            }
        }
        proof {
            reveal_strlit("");
        }
        ""
    }

    fn is_shadowed(&self, i: usize) -> (r: bool)
        requires
            i < self.queries().len(),
        ensures
            r == shadowed(self.queries(), i as int),
    {
        let ghost all = self.queries.deep_view();
        let count = self.queries.len();
        let mut j: usize = i + 1;
        while j < count
            invariant
                i < j <= count,
                count == self.queries.len(),
                all == self.queries.deep_view(),
                forall|k: int| i < k < j ==> (#[trigger] all[k]).name != all[i as int].name,
            decreases self.queries.len() - j,
        {
            if self.queries[j].name.as_str().eq(self.queries[i].name.as_str()) {
                assert(all[j as int].name == all[i as int].name);
                return true;
            }
            j += 1;
        }
        false
    }

    /// Classifies each partition of each known query for the days from `from` to `to`,
    /// as of today. Rejected with `Partition` when `to` is more than 3650 days after
    /// `from`; otherwise the report is that of [`DriftDetector::detect_at`] for the
    /// current day.
    pub fn detect(&self, stored_states: &[PartitionState], from: Date, to: Date) -> (r: Result<
        DriftReport,
        BqDriftError,
    >)
        ensures
            match r {
                Ok(report) => to@ - from@ <= MAX_DETECTION_DAYS && exists|today: int|
                    day_in_range(today) && report.deep_view() == #[trigger] detection(
                        self.queries(),
                        self.queries().len() as int,
                        stored_states.deep_view(),
                        from@,
                        to@,
                        today,
                    ),
                Err(e) => to@ - from@ > MAX_DETECTION_DAYS && e is Partition && e.message()
                    == too_large_message(to@ - from@),
            },
    {
        let today = Date::today();
        self.detect_at(stored_states, from, to, today)
    }

    /// Classifies each partition of each known query for the days from `from` to `to`,
    /// as of the day `today`: the SQL in effect on `today` is what the stored
    /// fingerprints are held against. Rejected with `Partition` when `to` is more
    /// than 3650 days after `from`.
    pub fn detect_at(
        &self,
        stored_states: &[PartitionState],
        from: Date,
        to: Date,
        today: Date,
    ) -> (r: Result<DriftReport, BqDriftError>)
        ensures
            match r {
                Ok(report) => to@ - from@ <= MAX_DETECTION_DAYS && report.deep_view() == detection(
                    self.queries(),
                    self.queries().len() as int,
                    stored_states.deep_view(),
                    from@,
                    to@,
                    today@,
                ),
                Err(e) => to@ - from@ > MAX_DETECTION_DAYS && e is Partition && e.message()
                    == too_large_message(to@ - from@),
            },
    {
        match Self::window_error(from, to) {
            Some(e) => {
                return Err(e);
            },
            None => {},
        }
        let mut report = DriftReport::new();
        let mut i: usize = 0;
        while i < self.queries.len()
            invariant
                i <= self.queries.len(),
                report.deep_view() == detection(
                    self.queries(),
                    i as int,
                    stored_states.deep_view(),
                    from@,
                    to@,
                    today@,
                ),
            decreases self.queries.len() - i,
        {
            if !self.is_shadowed(i) {
                let mut drifts = self.detect_query(&self.queries[i], stored_states, from, to, today);
                report.partitions.append(&mut drifts);
            }
            i += 1;
        }
        Ok(report)
    }

    /// Classifies each partition of `query` for the days from `from` to `to`, in the
    /// order of the days, as of the day `today`.
    pub fn detect_query(
        &self,
        query: &QueryDef,
        stored_states: &[PartitionState],
        from: Date,
        to: Date,
        today: Date,
    ) -> (r: Vec<PartitionDrift>)
        ensures
            r.deep_view() == query_drifts(
                query.deep_view(),
                stored_states.deep_view(),
                from@,
                to@,
                today@,
            ),
    {
        let yaml_content = self.yaml_content(query.name.as_str());
        let mut cache: Vec<Option<Checksums>> = Vec::new();
        let mut v: usize = 0;
        while v < query.versions.len()
            invariant
                v <= query.versions.len(),
                cache.len() == v,
                forall|k: int| 0 <= k < v ==> (#[trigger] cache@[k]).is_none(),
            decreases query.versions.len() - v,
        {
            cache.push(None);
            v += 1;
        }
        let ghost expected = query_drifts(
            query.deep_view(),
            stored_states.deep_view(),
            from@,
            to@,
            today@,
        );
        let mut results: Vec<PartitionDrift> = Vec::new();
        if !from.le(&to) {
            return results;
        }
        let slots = index_states(stored_states, query.name.as_str(), from, to);
        let last_day = to.day_number();
        let mut current = from;
        loop
            invariant_except_break
                from@ <= current@ <= to@,
                results.deep_view() == expected.take(current@ - from@),
            invariant
                expected == query_drifts(
                    query.deep_view(),
                    stored_states.deep_view(),
                    from@,
                    to@,
                    today@,
                ),
                from@ <= to@,
                last_day == to@,
                to@ <= MAX_DAY_NUMBER,
                slots.len() == to@ - from@ + 1,
                forall|d: int|
                    0 <= d < slots.len() ==> placed(#[trigger] slots@[d]) == latest_stored(
                        stored_states.deep_view(),
                        query.name@,
                        from@ + d,
                    ) && (slots@[d] matches Some(b) ==> b < stored_states@.len()),
                yaml_content@ == yaml_for(self.yaml_contents(), query.name@),
                cache.len() == query.versions.len(),
                cache_holds(cache@, query.deep_view(), yaml_content@, today@),
            ensures
                results.deep_view() == expected,
            decreases to@ - current@,
        {
            let offset: usize = current.days_since(from) as usize;
            let stored = match slots[offset] {
                Some(b) => Some(&stored_states[b]),
                None => None,
            };
            let drift = self.detect_partition_cached(
                query,
                current,
                stored,
                yaml_content,
                &mut cache,
                today,
            );
            results.push(drift);
            proof {
                let k = current@ - from@;
                assert(expected.take(k).push(expected[k]) =~= expected.take(k + 1));
            }
            if current.day_number() == last_day {
                assert(expected.take(to@ - from@ + 1) == expected);
                break ;
            }
            match current.succ_opt() {
                Some(next) => {
                    current = next;
                },
                None => {
                    break ;
                },
            }
        }
        results
    }

    fn detect_partition_cached(
        &self,
        query: &QueryDef,
        partition_date: Date,
        stored: Option<&PartitionState>,
        yaml_content: &str,
        checksum_cache: &mut Vec<Option<Checksums>>,
        today: Date,
    ) -> (r: PartitionDrift)
        requires
            old(checksum_cache).len() == query.versions.len(),
            cache_holds(old(checksum_cache)@, query.deep_view(), yaml_content@, today@),
        ensures
            final(checksum_cache).len() == query.versions.len(),
            cache_holds(final(checksum_cache)@, query.deep_view(), yaml_content@, today@),
            r.deep_view() == partition_drift(
                query.deep_view(),
                partition_date@,
                stored.deep_view(),
                today@,
            ),
    {
        proof {
            Date::lemma_at_self(partition_date);
        }
        let index = query.version_index_for_date(partition_date);
        let (state, executed_version): (DriftState, Option<u32>) = match (index, stored) {
            (Some(i), Some(s)) => {
                let version = &query.versions[i];
                match s.status {
                    ExecutionStatus::Failed => (DriftState::Failed, Some(s.version)),
                    ExecutionStatus::Success => {
                        if checksum_cache[i].is_none() {
                            let computed = Checksums::from_version(version, yaml_content, today);
                            checksum_cache.set(i, Some(computed));
                        }
                        match &checksum_cache[i] {
                            Some(current) => {
                                if !(current.schema == s.schema_checksum) {
                                    (DriftState::SchemaChanged, Some(s.version))
                                } else if !(current.sql == s.sql_checksum) {
                                    (DriftState::SqlChanged, Some(s.version))
                                } else if version.version != s.version {
                                    (DriftState::VersionUpgraded, Some(s.version))
                                } else {
                                    (DriftState::Current, Some(s.version))
                                }
                            },
                            None => unreached(),
                        }
                    },
                }
            },
            _ => (DriftState::NeverRun, None),
        };
        let executed_sql_b64 = match stored {
            Some(s) => clone_opt_string(&s.executed_sql_b64),
            None => None,
        };
        let current_sql = match index {
            Some(i) => if state.needs_rerun() {
                Some(String::from_str(query.versions[i].get_sql_for_date(today)))
            } else {
                None
            },
            None => None,
        };
        PartitionDrift {
            query_name: query.name.clone(),
            partition_key: PartitionKey::Day(partition_date),
            state,
            current_version: match index {
                Some(i) => query.versions[i].version,
                None => 0,
            },
            executed_version,
            caused_by: None,
            executed_sql_b64,
            current_sql,
        }
    }

    /// The name of an upstream query whose partition was executed again after `stored`
    /// was: the first of `stored.upstream_states`, in their order, whose partition of
    /// the same day has in `all_states` a state executed after the instant recorded
    /// for it.
    pub fn detect_upstream_changed(
        &self,
        _query: &QueryDef,
        stored: &PartitionState,
        all_states: &[PartitionState],
    ) -> (r: Option<String>)
        ensures
            r.deep_view() == first_changed_upstream(
                stored.deep_view().upstream_states,
                0,
                all_states.deep_view(),
                stored.partition_date@,
            ),
    {
        let ghost upstreams = stored.deep_view().upstream_states;
        let ghost all = all_states.deep_view();
        let ghost day = stored.partition_date@;
        let mut k: usize = 0;
        while k < stored.upstream_states.len()
            invariant
                k <= stored.upstream_states.len(),
                upstreams == stored.upstream_states.deep_view(),
                all == all_states.deep_view(),
                day == stored.partition_date@,
                first_changed_upstream(upstreams, 0, all, day) == first_changed_upstream(
                    upstreams,
                    k as int,
                    all,
                    day,
                ),
            decreases stored.upstream_states.len() - k,
        {
            let upstream_name = &stored.upstream_states[k].0;
            let recorded_time = &stored.upstream_states[k].1;
            match find_stored(all_states, upstream_name.as_str(), stored.partition_date) {
                Some(upstream) => {
                    if upstream.executed_at.is_after(recorded_time) {
                        return Some(upstream_name.clone());
                    }
                },
                None => {},
            }
            k += 1;
        }
        None
    }
}

/// A place in a list, as the number it is.
pub open spec fn placed(slot: Option<usize>) -> Option<int> {
    match slot {
        Some(i) => Some(i as int),
        None => None,
    }
}

/// For each day from `from` to `to`, the place of the stored state that counts for that
/// day's partition of the query `name`.
fn index_states(stored_states: &[PartitionState], name: &str, from: Date, to: Date) -> (r: Vec<
    Option<usize>,
>)
    requires
        from@ <= to@,
    ensures
        r.len() == to@ - from@ + 1,
        forall|d: int|
            0 <= d < r.len() ==> placed(#[trigger] r@[d]) == latest_stored(
                stored_states.deep_view(),
                name@,
                from@ + d,
            ) && (r@[d] matches Some(b) ==> b < stored_states@.len()),
{
    let ghost all = stored_states.deep_view();
    let first_day = from.day_number();
    let last_day = to.day_number();
    let days: usize = (last_day as i64 - first_day as i64 + 1) as usize;
    let mut slots: Vec<Option<usize>> = Vec::new();
    let mut d: usize = 0;
    while d < days
        invariant
            d <= days,
            slots.len() == d,
            forall|k: int| 0 <= k < d ==> (#[trigger] slots@[k]).is_none(),
        decreases days - d,
    {
        slots.push(None);
        d += 1;
    }
    let mut i: usize = 0;
    while i < stored_states.len()
        invariant
            i <= stored_states.len(),
            all == stored_states.deep_view(),
            days == to@ - from@ + 1,
            slots.len() == days,
            forall|k: int|
                0 <= k < days ==> placed(#[trigger] slots@[k]) == latest_stored(
                    all.take(i as int),
                    name@,
                    from@ + k,
                ) && (slots@[k] matches Some(b) ==> b < i),
        decreases stored_states.len() - i,
    {
        let state = &stored_states[i];
        proof {
            assert(all.take(i + 1).drop_last() == all.take(i as int));
        }
        if from.le(&state.partition_date) && state.partition_date.le(&to)
            && state.query_name.as_str().eq(name) {
            let offset: usize = state.partition_date.days_since(from) as usize;
            match slots[offset] {
                Some(b) => {
                    if state.executed_at.is_after(&stored_states[b].executed_at) {
                        slots.set(offset, Some(i));
                    }
                },
                None => {
                    slots.set(offset, Some(i));
                },
            }
        }
        i += 1;
    }
    assert(all.take(i as int) == all);
    slots
}

/// Whether each fingerprint that the cache holds is that of the version at its place.
pub open spec fn cache_holds(
    cache: Seq<Option<Checksums>>,
    query: QueryDefModel,
    yaml: Seq<char>,
    today: int,
) -> bool {
    forall|i: int|
        0 <= i < cache.len() && i < query.versions.len() ==> ((#[trigger] cache[i]) matches Some(c)
            ==> c.deep_view() == ChecksumsModel::of_version(query.versions[i], yaml, today))
}

/// The stored state that counts for the partition `date` of the query `name`: the one
/// that was executed last, and of those executed at the same instant the first.
pub fn find_stored<'s>(stored_states: &'s [PartitionState], name: &str, date: Date) -> (r: Option<
    &'s PartitionState,
>)
    ensures
        r.deep_view() == stored_for(stored_states.deep_view(), name@, date@),
        match latest_stored(stored_states.deep_view(), name@, date@) {
            Some(i) => is_latest_stored(stored_states.deep_view(), name@, date@, i),
            None => r.is_none(),
        },
{
    let ghost all = stored_states.deep_view();
    proof {
        lemma_latest_stored(all, name@, date@);
    }
    let mut best: Option<usize> = None;
    let mut i: usize = 0;
    while i < stored_states.len()
        invariant
            i <= stored_states.len(),
            all == stored_states.deep_view(),
            match best {
                Some(b) => latest_stored(all.take(i as int), name@, date@) == Some(b as int) && b
                    < i,
                None => latest_stored(all.take(i as int), name@, date@).is_none(),
            },
        decreases stored_states.len() - i,
    {
        let state = &stored_states[i];
        proof {
            assert(all.take(i + 1).drop_last() == all.take(i as int));
        }
        if state.partition_date.same_day(&date) && state.query_name.as_str().eq(name) {
            match best {
                Some(b) => {
                    if state.executed_at.is_after(&stored_states[b].executed_at) {
                        best = Some(i);
                    }
                },
                None => {
                    best = Some(i);
                },
            }
        }
        i += 1;
    }
    assert(all.take(i as int) == all);
    match best {
        Some(b) => Some(&stored_states[b]),
        None => None,
    }
}

} // verus!

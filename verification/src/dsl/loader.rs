//! Turns the raw record of a declaration into a resolved query.

use std::collections::HashMap;
use vstd::prelude::*;
use super::dependencies::{dependencies_of, SqlDependencies};
use super::parser::{
    QueryDef, QueryDefModel, RawQueryDef, RawQueryDefModel, RawVersionDef, RawVersionDefModel,
    ResolvedRevision, ResolvedRevisionModel, Revision, RevisionModel, VersionDef, VersionDefModel,
};
use super::resolver::{
    invariants_models, parsed_ref, reference_target, resolved_invariants, resolved_schema,
    schema_models, VariableResolver,
};
use crate::error::{deep_result, BqDriftError, BqDriftErrorModel};
use crate::invariants::{InvariantsDef, InvariantsDefModel};
use crate::schema::{cluster_problem, ClusterConfig, FieldModel, Schema};
use crate::text::{clone_opt_string, clone_strings};

verus! {

/// Whether version `a` sorts before version `b` or with it: by the day of taking effect,
/// then by version number.
pub open spec fn sorts_before_or_with(a: RawVersionDefModel, b: RawVersionDefModel) -> bool {
    a.effective_from < b.effective_from || (a.effective_from == b.effective_from && a.version
        <= b.version)
}

/// Where `item` goes into `order`, a sorted list of places in `versions`: behind the
/// last place whose version sorts before `item` or with it.
pub open spec fn insertion_point(
    versions: Seq<RawVersionDefModel>,
    order: Seq<int>,
    item: RawVersionDefModel,
) -> int
    decreases order.len(),
{
    if order.len() == 0 {
        0
    } else if sorts_before_or_with(versions[order.last()], item) {
        order.len() as int
    } else {
        insertion_point(versions, order.drop_last(), item)
    }
}

/// The places of the first `n` versions in sorted order; versions that sort alike keep
/// the order in which they were declared.
pub open spec fn sort_order(versions: Seq<RawVersionDefModel>, n: int) -> Seq<int>
    decreases n,
{
    if n <= 0 {
        Seq::empty()
    } else {
        let front = sort_order(versions, n - 1);
        front.insert(insertion_point(versions, front, versions[n - 1]), n - 1)
    }
}

/// The versions in sorted order.
pub open spec fn sorted_versions(versions: Seq<RawVersionDefModel>) -> Seq<RawVersionDefModel> {
    sort_order(versions, versions.len() as int).map_values(|i: int| versions[i])
}

/// An insertion point lies within the list, what stands before it sorts before the item
/// or with it, and what stands behind it sorts after the item.
pub proof fn lemma_insertion_point(
    versions: Seq<RawVersionDefModel>,
    order: Seq<int>,
    item: RawVersionDefModel,
)
    requires
        forall|a: int, b: int|
            0 <= a <= b < order.len() ==> sorts_before_or_with(
                versions[#[trigger] order[a]],
                versions[#[trigger] order[b]],
            ),
    ensures
        0 <= insertion_point(versions, order, item) <= order.len(),
        forall|a: int|
            0 <= a < insertion_point(versions, order, item) ==> sorts_before_or_with(
                versions[#[trigger] order[a]],
                item,
            ),
        forall|a: int|
            insertion_point(versions, order, item) <= a < order.len() ==> !sorts_before_or_with(
                versions[#[trigger] order[a]],
                item,
            ),
    decreases order.len(),
{
    if order.len() > 0 {
        let front = order.drop_last();
        lemma_insertion_point(versions, front, item);
        if !sorts_before_or_with(versions[order.last()], item) {
            let p = insertion_point(versions, front, item);
            assert forall|a: int| 0 <= a < p implies sorts_before_or_with(
                versions[#[trigger] order[a]],
                item,
            ) by {
                assert(front[a] == order[a]);
            }
            assert forall|a: int| p <= a < order.len() implies !sorts_before_or_with(
                versions[#[trigger] order[a]],
                item,
            ) by {
                if a < front.len() {
                    assert(front[a] == order[a]);
                }
            }
        }
    }
}

/// The sorted order holds each of the first `n` places once, and the versions stand in
/// it by the day of taking effect and then by version number; versions that sort
/// alike stand as they were declared.
pub proof fn lemma_sort_order(versions: Seq<RawVersionDefModel>, n: int)
    requires
        0 <= n <= versions.len(),
    ensures
        sort_order(versions, n).len() == n,
        forall|a: int| 0 <= a < n ==> 0 <= #[trigger] sort_order(versions, n)[a] < n,
        forall|i: int| 0 <= i < n ==> sort_order(versions, n).contains(i),
        forall|a: int, b: int|
            0 <= a <= b < n ==> sorts_before_or_with(
                versions[#[trigger] sort_order(versions, n)[a]],
                versions[#[trigger] sort_order(versions, n)[b]],
            ),
        forall|a: int, b: int|
            0 <= a < b < n && sorts_before_or_with(
                versions[#[trigger] sort_order(versions, n)[b]],
                versions[#[trigger] sort_order(versions, n)[a]],
            ) ==> sort_order(versions, n)[a] < sort_order(versions, n)[b],
    decreases n,
{
    if n > 0 {
        lemma_sort_order(versions, n - 1);
        let front = sort_order(versions, n - 1);
        let item = versions[n - 1];
        lemma_insertion_point(versions, front, item);
        let p = insertion_point(versions, front, item);
        let order = sort_order(versions, n);
        assert forall|a: int| 0 <= a < n implies 0 <= #[trigger] order[a] < n by {}
        assert forall|i: int| 0 <= i < n implies order.contains(i) by {
            if i == n - 1 {
                assert(order[p] == i);
            } else {
                assert(front.contains(i));
                let a = choose|a: int| 0 <= a < front.len() && front[a] == i;
                if a < p {
                    assert(order[a] == i);
                } else {
                    assert(order[a + 1] == i);
                }
            }
        }
        assert forall|a: int, b: int| 0 <= a <= b < n implies sorts_before_or_with(
            versions[#[trigger] order[a]],
            versions[#[trigger] order[b]],
        ) by {}
        assert forall|a: int, b: int|
            0 <= a < b < n && sorts_before_or_with(
                versions[#[trigger] order[b]],
                versions[#[trigger] order[a]],
            ) implies order[a] < order[b] by {}
    }
}

impl RevisionModel {
    /// The revision with its SQL text and the tables that the SQL reads.
    pub open spec fn resolved(self) -> ResolvedRevisionModel {
        ResolvedRevisionModel {
            revision: self.revision,
            effective_from: self.effective_from,
            source: "<inline>"@,
            sql_content: self.source,
            reason: self.reason,
            backfill_since: self.backfill_since,
            dependencies: dependencies_of(self.source),
        }
    }
}

/// Each revision resolved, in order.
pub open spec fn resolved_revisions(revisions: Seq<RevisionModel>) -> Seq<ResolvedRevisionModel> {
    revisions.map_values(|r: RevisionModel| r.resolved())
}

/// The version that `raw` resolves to, given the schemas and invariants of the versions
/// resolved before it. Its schema is resolved first, then its invariants.
pub open spec fn resolved_version(
    raw: RawVersionDefModel,
    schemas: Map<u32, Seq<FieldModel>>,
    invariants: Map<u32, InvariantsDefModel>,
) -> Result<VersionDefModel, BqDriftErrorModel> {
    match resolved_schema(raw.schema, schemas) {
        Err(e) => Err(e),
        Ok(schema) => match resolved_invariants(raw.invariants, invariants) {
            Err(e) => Err(e),
            Ok(checks) => Ok(
                VersionDefModel {
                    version: raw.version,
                    effective_from: raw.effective_from,
                    source: "<inline>"@,
                    sql_content: raw.source,
                    revisions: resolved_revisions(raw.revisions),
                    description: raw.description,
                    backfill_since: raw.backfill_since,
                    schema,
                    dependencies: dependencies_of(raw.source),
                    invariants: checks,
                },
            ),
        },
    }
}

/// What resolution has reached: the versions resolved so far, and their schemas and
/// invariants by version number.
pub struct Resolution {
    pub versions: Seq<VersionDefModel>,
    pub schemas: Map<u32, Seq<FieldModel>>,
    pub invariants: Map<u32, InvariantsDefModel>,
}

/// The resolution of the first `n` of `sorted`, one version after the other; the first
/// error ends it.
pub open spec fn resolution(sorted: Seq<RawVersionDefModel>, n: int) -> Result<
    Resolution,
    BqDriftErrorModel,
>
    decreases n,
{
    if n <= 0 {
        Ok(Resolution { versions: Seq::empty(), schemas: Map::empty(), invariants: Map::empty() })
    } else {
        match resolution(sorted, n - 1) {
            Err(e) => Err(e),
            Ok(state) => match resolved_version(sorted[n - 1], state.schemas, state.invariants) {
                Err(e) => Err(e),
                Ok(version) => Ok(
                    Resolution {
                        versions: state.versions.push(version),
                        schemas: state.schemas.insert(version.version, version.schema),
                        invariants: state.invariants.insert(version.version, version.invariants),
                    },
                ),
            },
        }
    }
}

/// The query that `raw` resolves to: its versions sorted and resolved in that order,
/// then its cluster columns checked.
pub open spec fn resolved_query(raw: RawQueryDefModel) -> Result<QueryDefModel, BqDriftErrorModel> {
    match resolution(sorted_versions(raw.versions), raw.versions.len() as int) {
        Err(e) => Err(e),
        Ok(state) => match raw.destination.cluster {
            Some(fields) => match cluster_problem(fields.len()) {
                Some(problem) => Err(BqDriftErrorModel::Validation(problem)),
                None => Ok(
                    QueryDefModel {
                        name: raw.name,
                        destination: raw.destination,
                        description: raw.description,
                        owner: raw.owner,
                        tags: raw.tags,
                        versions: state.versions,
                        cluster: Some(fields),
                    },
                ),
            },
            None => Ok(
                QueryDefModel {
                    name: raw.name,
                    destination: raw.destination,
                    description: raw.description,
                    owner: raw.owner,
                    tags: raw.tags,
                    versions: state.versions,
                    cluster: None,
                },
            ),
        },
    }
}

/// After `n` versions are resolved, the versions known by number are those `n`.
pub proof fn lemma_known_versions(sorted: Seq<RawVersionDefModel>, n: int)
    requires
        0 <= n <= sorted.len(),
        resolution(sorted, n).is_ok(),
    ensures
        resolution(sorted, n)->Ok_0.versions.len() == n,
        forall|v: u32|
            resolution(sorted, n)->Ok_0.schemas.contains_key(v) <==> exists|j: int|
                0 <= j < n && (#[trigger] sorted[j]).version == v,
        forall|v: u32|
            resolution(sorted, n)->Ok_0.invariants.contains_key(v) <==> exists|j: int|
                0 <= j < n && (#[trigger] sorted[j]).version == v,
    decreases n,
{
    if n > 0 {
        lemma_known_versions(sorted, n - 1);
        let after = resolution(sorted, n)->Ok_0;
        assert forall|v: u32| after.schemas.contains_key(v) <==> exists|j: int|
            0 <= j < n && (#[trigger] sorted[j]).version == v by {
            assert(after.schemas.contains_key(sorted[n - 1].version));
        }
        assert forall|v: u32| after.invariants.contains_key(v) <==> exists|j: int|
            0 <= j < n && (#[trigger] sorted[j]).version == v by {
            assert(after.invariants.contains_key(sorted[n - 1].version));
        }
    }
}

/// Each resolved version keeps the number and the day of taking effect of the raw
/// version at its place.
pub proof fn lemma_resolution_keeps_places(sorted: Seq<RawVersionDefModel>, n: int)
    requires
        0 <= n <= sorted.len(),
        resolution(sorted, n).is_ok(),
    ensures
        resolution(sorted, n)->Ok_0.versions.len() == n,
        forall|k: int|
            0 <= k < n ==> (#[trigger] resolution(sorted, n)->Ok_0.versions[k]).version
                == sorted[k].version && resolution(sorted, n)->Ok_0.versions[k].effective_from
                == sorted[k].effective_from,
    decreases n,
{
    if n > 0 {
        lemma_resolution_keeps_places(sorted, n - 1);
    }
}

/// Whether the versions stand by the day of taking effect, and by version number where
/// two take effect on the same day.
pub open spec fn in_order(versions: Seq<VersionDefModel>) -> bool {
    forall|i: int, j: int|
        0 <= i <= j < versions.len() ==> (#[trigger] versions[i]).effective_from < (
        #[trigger] versions[j]).effective_from || (versions[i].effective_from
            == versions[j].effective_from && versions[i].version <= versions[j].version)
}

/// The versions of a resolved query stand in order, however they were declared.
pub proof fn lemma_resolved_versions_in_order(raw: RawQueryDefModel)
    ensures
        resolved_query(raw) matches Ok(query) ==> in_order(query.versions) && query.versions.len()
            == raw.versions.len(),
{
    let n = raw.versions.len() as int;
    let sorted = sorted_versions(raw.versions);
    lemma_sort_order(raw.versions, n);
    if resolution(sorted, n).is_ok() {
        lemma_resolution_keeps_places(sorted, n);
    }
}

/// Once resolution has failed, it has failed with that error for good.
pub proof fn lemma_error_is_final(sorted: Seq<RawVersionDefModel>, k: int, n: int)
    requires
        0 <= k <= n,
        resolution(sorted, k).is_err(),
    ensures
        resolution(sorted, n) == resolution(sorted, k),
    decreases n - k,
{
    if k < n {
        lemma_error_is_final(sorted, k, n - 1);
    }
}

/// The version number that a schema declaration refers to, if it refers to one: that of
/// a reference, and that of the base of an extension.
pub open spec fn schema_target(raw: RawVersionDefModel) -> Option<u32> {
    match raw.schema {
        crate::dsl::SchemaRefModel::Inline(_) => None,
        crate::dsl::SchemaRefModel::Reference(text) => match reference_target(
            parsed_ref(text),
            text,
            "schema"@,
        ) {
            Ok(v) => Some(v),
            Err(_) => None,
        },
        crate::dsl::SchemaRefModel::Extended(ext) => match reference_target(
            parsed_ref(ext.base),
            ext.base,
            "schema"@,
        ) {
            Ok(v) => Some(v),
            Err(_) => None,
        },
    }
}

/// The version number that an invariants declaration refers to, if it refers to one.
pub open spec fn invariants_target(raw: RawVersionDefModel) -> Option<u32> {
    match raw.invariants {
        Some(crate::invariants::InvariantsRefModel::Reference(text)) => match reference_target(
            parsed_ref(text),
            text,
            "invariants"@,
        ) {
            Ok(v) => Some(v),
            Err(_) => None,
        },
        Some(crate::invariants::InvariantsRefModel::Extended(ext)) => match reference_target(
            parsed_ref(ext.base),
            ext.base,
            "invariants"@,
        ) {
            Ok(v) => Some(v),
            Err(_) => None,
        },
        _ => None,
    }
}

/// A version cannot refer forward: if the schema of the version at place `k` of the sorted
/// order refers to a version number that no version before it has, resolution fails
/// with an invalid version reference, however many versions follow.
pub proof fn lemma_forward_schema_reference_fails(sorted: Seq<RawVersionDefModel>, k: int, n: int)
    requires
        0 <= k < n <= sorted.len(),
        resolution(sorted, k).is_ok(),
        schema_target(sorted[k]) matches Some(target) && forall|j: int|
            0 <= j < k ==> (#[trigger] sorted[j]).version != target,
    ensures
        resolution(sorted, n) matches Err(e) && e is InvalidVersionRef,
{
    lemma_known_versions(sorted, k);
    lemma_error_is_final(sorted, k + 1, n);
}

/// The same for invariants: if the schema of the version at place `k` resolves and its
/// invariants refer to a version number that no version before it has, resolution
/// fails with an invalid version reference.
pub proof fn lemma_forward_invariants_reference_fails(
    sorted: Seq<RawVersionDefModel>,
    k: int,
    n: int,
)
    requires
        0 <= k < n <= sorted.len(),
        resolution(sorted, k) matches Ok(state) && resolved_schema(
            sorted[k].schema,
            state.schemas,
        ).is_ok(),
        invariants_target(sorted[k]) matches Some(target) && forall|j: int|
            0 <= j < k ==> (#[trigger] sorted[j]).version != target,
    ensures
        resolution(sorted, n) matches Err(e) && e is InvalidVersionRef,
{
    lemma_known_versions(sorted, k);
    lemma_error_is_final(sorted, k + 1, n);
}

/// What a load of several declarations gives: the resolved queries in the order of the
/// declarations, and for each the pair of its name and its text.
pub struct Loaded {
    pub queries: Seq<QueryDefModel>,
    pub contents: Seq<(Seq<char>, Seq<char>)>,
}

/// The load of the first `n` declarations, each a raw record with the text that it was
/// read from. The first declaration that fails to resolve fails the whole load.
pub open spec fn loaded(declarations: Seq<(RawQueryDefModel, Seq<char>)>, n: int) -> Result<
    Loaded,
    BqDriftErrorModel,
>
    decreases n,
{
    if n <= 0 {
        Ok(Loaded { queries: Seq::empty(), contents: Seq::empty() })
    } else {
        match loaded(declarations, n - 1) {
            Err(e) => Err(e),
            Ok(front) => match resolved_query(declarations[n - 1].0) {
                Err(e) => Err(e),
                Ok(query) => Ok(
                    Loaded {
                        queries: front.queries.push(query),
                        contents: front.contents.push((query.name, declarations[n - 1].1)),
                    },
                ),
            },
        }
    }
}

/// A load that has failed stays failed with the same error.
pub proof fn lemma_load_error_is_final(
    declarations: Seq<(RawQueryDefModel, Seq<char>)>,
    k: int,
    n: int,
)
    requires
        0 <= k <= n,
        loaded(declarations, k).is_err(),
    ensures
        loaded(declarations, n) == loaded(declarations, k),
    decreases n - k,
{
    if k < n {
        lemma_load_error_is_final(declarations, k, n - 1);
    }
}

/// Resolves the raw record of a declaration: sorts the versions, resolves the references
/// between them and reads the tables that each SQL text depends on.
pub struct QueryLoader {
    resolver: VariableResolver,
}

impl QueryLoader {
    /// A loader.
    pub fn new() -> (r: Self) {
        QueryLoader { resolver: VariableResolver::new() }
    }

    /// The places of `versions` in sorted order: by the day of taking effect, then by
    /// version number, and as declared where both agree.
    pub fn sorted_order(versions: &Vec<RawVersionDef>) -> (r: Vec<usize>)
        ensures
            r@.map_values(|i: usize| i as int) == sort_order(
                versions.deep_view(),
                versions.len() as int,
            ),
            forall|a: int| 0 <= a < r.len() ==> #[trigger] r@[a] < versions.len(),
            r.len() == versions.len(),
    {
        let ghost all = versions.deep_view();
        let mut order: Vec<usize> = Vec::new();
        let mut n: usize = 0;
        while n < versions.len()
            invariant
                n <= versions.len(),
                all == versions.deep_view(),
                order@.map_values(|i: usize| i as int) == sort_order(all, n as int),
                order.len() == n,
                forall|a: int| 0 <= a < order.len() ==> #[trigger] order@[a] < n,
            decreases versions.len() - n,
        {
            let ghost front = sort_order(all, n as int);
            let item = &versions[n];
            let mut p: usize = order.len();
            assert(front.take(p as int) == front);
            while p > 0 && !Self::sorts_not_after(&versions[order[p - 1]], item)
                invariant
                    p <= order.len(),
                    n < versions.len(),
                    all == versions.deep_view(),
                    front == order@.map_values(|i: usize| i as int),
                    forall|a: int| 0 <= a < order.len() ==> #[trigger] order@[a] < n,
                    item.deep_view() == all[n as int],
                    insertion_point(all, front, all[n as int]) == insertion_point(
                        all,
                        front.take(p as int),
                        all[n as int],
                    ),
                decreases p,
            {
                proof {
                    assert(front.take(p as int).drop_last() == front.take(p - 1));
                }
                p -= 1;
            }
            order.insert(p, n);
            n += 1;
        }
        order
    }

    fn sorts_not_after(a: &RawVersionDef, b: &RawVersionDef) -> (r: bool)
        ensures
            r == sorts_before_or_with(a.deep_view(), b.deep_view()),
    {
        a.effective_from.lt(&b.effective_from) || (a.effective_from.same_day(&b.effective_from)
            && a.version <= b.version)
    }

    /// The query that `raw` resolves to. Its versions are taken in sorted order, and each
    /// may refer only to versions before it; the first error ends the resolution.
    pub fn resolve_query(&self, raw: RawQueryDef) -> (r: Result<QueryDef, BqDriftError>)
        ensures
            deep_result(r) == resolved_query(raw.deep_view()),
            r matches Ok(query) ==> in_order(query.deep_view().versions),
    {
        broadcast use vstd::std_specs::hash::group_hash_axioms;

        let ghost model = raw.deep_view();
        proof {
            lemma_resolved_versions_in_order(model);
        }
        let ghost sorted = sorted_versions(model.versions);
        let RawQueryDef { name, destination, description, owner, tags, versions: raw_versions } =
            raw;
        let order = Self::sorted_order(&raw_versions);
        let mut resolved_schemas: HashMap<u32, Schema> = HashMap::new();
        let mut resolved_invariants: HashMap<u32, InvariantsDef> = HashMap::new();
        let mut versions: Vec<VersionDef> = Vec::new();
        let mut k: usize = 0;
        proof {
            lemma_sort_order(model.versions, model.versions.len() as int);
            assert(schema_models(resolved_schemas@) =~= Map::empty());
            assert(invariants_models(resolved_invariants@) =~= Map::empty());
            assert(versions.deep_view() =~= Seq::empty());
        }
        while k < order.len()
            invariant
                k <= order.len(),
                order.len() == raw_versions.len(),
                model.versions == raw_versions.deep_view(),
                sorted == sorted_versions(model.versions),
                order@.map_values(|i: usize| i as int) == sort_order(
                    model.versions,
                    model.versions.len() as int,
                ),
                forall|a: int| 0 <= a < order.len() ==> #[trigger] order@[a] < raw_versions.len(),
                sorted.len() == raw_versions.len(),
                model == raw.deep_view(),
                versions.len() == k,
                resolution(sorted, k as int) == Ok::<Resolution, BqDriftErrorModel>(
                    Resolution {
                        versions: versions.deep_view(),
                        schemas: schema_models(resolved_schemas@),
                        invariants: invariants_models(resolved_invariants@),
                    },
                ),
            decreases order.len() - k,
        {
            let raw_version = &raw_versions[order[k]];
            let version = match self.resolve_version(
                raw_version,
                &resolved_schemas,
                &resolved_invariants,
            ) {
                Ok(v) => v,
                Err(e) => {
                    proof {
                        lemma_error_is_final(sorted, k + 1, sorted.len() as int);
                    }
                    return Err(e);
                },
            };
            let ghost schemas_before = schema_models(resolved_schemas@);
            let ghost invariants_before = invariants_models(resolved_invariants@);
            let ghost versions_before = versions.deep_view();
            let ghost added = version.deep_view();
            let schema_copy = version.schema.clone();
            let invariants_copy = version.invariants.clone();
            resolved_schemas.insert(raw_version.version, schema_copy);
            resolved_invariants.insert(raw_version.version, invariants_copy);
            versions.push(version);
            proof {
                assert(schema_models(resolved_schemas@) =~= schemas_before.insert(
                    added.version,
                    added.schema,
                ));
                assert(invariants_models(resolved_invariants@) =~= invariants_before.insert(
                    added.version,
                    added.invariants,
                ));
                assert(versions.deep_view() =~= versions_before.push(added));
            }
            k += 1;
        }
        let cluster = match &destination.cluster {
            Some(fields) => match ClusterConfig::new(clone_strings(fields)) {
                Ok(c) => Some(c),
                Err(e) => {
                    return Err(e);
                },
            },
            None => None,
        };
        Ok(QueryDef { name, destination, description, owner, tags, versions, cluster })
    }

    fn resolve_version(
        &self,
        raw_version: &RawVersionDef,
        resolved_schemas: &HashMap<u32, Schema>,
        resolved_invariants: &HashMap<u32, InvariantsDef>,
    ) -> (r: Result<VersionDef, BqDriftError>)
        ensures
            deep_result(r) == resolved_version(
                raw_version.deep_view(),
                schema_models(resolved_schemas@),
                invariants_models(resolved_invariants@),
            ),
    {
        let schema = match self.resolver.resolve_schema(&raw_version.schema, resolved_schemas) {
            Ok(s) => s,
            Err(e) => {
                return Err(e);
            },
        };
        let dependencies = SqlDependencies::extract(raw_version.source.as_str()).tables;
        let sql_content = raw_version.source.clone();
        let revisions = self.resolve_revisions(&raw_version.revisions);
        let invariants = match self.resolver.resolve_invariants(
            &raw_version.invariants,
            resolved_invariants,
        ) {
            Ok(i) => i,
            Err(e) => {
                return Err(e);
            },
        };
        Ok(
            VersionDef {
                version: raw_version.version,
                effective_from: raw_version.effective_from,
                source: String::from_str("<inline>"),
                sql_content,
                revisions,
                description: clone_opt_string(&raw_version.description),
                backfill_since: raw_version.backfill_since,
                schema,
                dependencies,
                invariants,
            },
        )
    }

    /// Resolves each of `declarations`, a raw record with the text that it was read
    /// from, in order. All of them resolve or the load fails: the first error ends it.
    /// With the queries come the pairs of each query's name and text.
    pub fn resolve_all(&self, declarations: Vec<(RawQueryDef, String)>) -> (r: Result<
        (Vec<QueryDef>, Vec<(String, String)>),
        BqDriftError,
    >)
        ensures
            match r {
                Ok(pair) => loaded(declarations.deep_view(), declarations.len() as int) == Ok::<
                    Loaded,
                    BqDriftErrorModel,
                >(Loaded { queries: pair.0.deep_view(), contents: pair.1.deep_view() }),
                Err(e) => loaded(declarations.deep_view(), declarations.len() as int) == Err::<
                    Loaded,
                    BqDriftErrorModel,
                >(e.deep_view()),
            },
    {
        let ghost items = declarations@;
        let ghost all = declarations.deep_view();
        let mut queries: Vec<QueryDef> = Vec::new();
        let mut contents: Vec<(String, String)> = Vec::new();
        proof {
            assert(queries.deep_view() =~= Seq::empty());
            assert(contents.deep_view() =~= Seq::empty());
        }
        for declaration in it: declarations.into_iter()
            invariant
                it.seq() == items,
                all == declarations.deep_view(),
                items.len() == declarations.len(),
                all.len() == items.len(),
                forall|k: int| 0 <= k < items.len() ==> all[k] == (#[trigger] items[k]).deep_view(),
                loaded(all, it.index() as int) == Ok::<Loaded, BqDriftErrorModel>(
                    Loaded { queries: queries.deep_view(), contents: contents.deep_view() },
                ),
        {
            let ghost done = it.index() as int;
            let ghost queries_before = queries.deep_view();
            let ghost contents_before = contents.deep_view();
            let (raw, text) = declaration;
            let query = match self.resolve_query(raw) {
                Ok(q) => q,
                Err(e) => {
                    proof {
                        lemma_load_error_is_final(all, done + 1, all.len() as int);
                    }
                    return Err(e);
                },
            };
            let name = query.name.clone();
            queries.push(query);
            contents.push((name, text));
            proof {
                assert(queries.deep_view() =~= queries_before.push(query.deep_view()));
                assert(contents.deep_view() =~= contents_before.push((name@, text@)));
            }
        }
        Ok((queries, contents))
    }

    /// Each revision with its SQL text and the tables that the SQL reads, in order.
    pub fn resolve_revisions(&self, revisions: &Vec<Revision>) -> (r: Vec<ResolvedRevision>)
        ensures
            r.deep_view() == resolved_revisions(revisions.deep_view()),
    {
        let ghost all = revisions.deep_view();
        let mut out: Vec<ResolvedRevision> = Vec::new();
        let mut i: usize = 0;
        while i < revisions.len()
            invariant
                i <= revisions.len(),
                all == revisions.deep_view(),
                out.deep_view() == resolved_revisions(all).take(i as int),
            decreases revisions.len() - i,
        {
            let rev = &revisions[i];
            let sql_content = rev.source.clone();
            let dependencies = SqlDependencies::extract(sql_content.as_str()).tables;
            let ghost before = out.deep_view();
            out.push(
                ResolvedRevision {
                    revision: rev.revision,
                    effective_from: rev.effective_from,
                    source: String::from_str("<inline>"),
                    sql_content,
                    reason: clone_opt_string(&rev.reason),
                    backfill_since: rev.backfill_since,
                    dependencies,
                },
            );
            i += 1;
            assert(out.deep_view() =~= before.push(all[i - 1].resolved()));
        }
        out
    }
}

impl Default for QueryLoader {
    fn default() -> (r: Self) {
        QueryLoader::new()
    }
}

} // verus!

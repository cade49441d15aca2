//! The records of a declaration file, before and after resolution.

use vstd::prelude::*;
use crate::calendar::Date;
use crate::invariants::{InvariantsDef, InvariantsDefModel, InvariantsRef, InvariantsRefModel};
use crate::schema::{
    ClusterConfig, Field, FieldModel, PartitionConfig, PartitionConfigModel, Schema,
};

verus! {

/// Where a query writes: a table of a dataset, with its partitioning.
#[derive(Clone, Debug, PartialEq, Eq)]
pub struct Destination {
    pub dataset: String,
    pub table: String,
    pub partition: PartitionConfig,
    pub cluster: Option<Vec<String>>,
}

/// What a [`Destination`] holds.
pub struct DestinationModel {
    pub dataset: Seq<char>,
    pub table: Seq<char>,
    pub partition: PartitionConfigModel,
    pub cluster: Option<Seq<Seq<char>>>,
}

impl DeepView for Destination {
    type V = DestinationModel;

    open spec fn deep_view(&self) -> DestinationModel {
        DestinationModel {
            dataset: self.dataset@,
            table: self.table@,
            partition: self.partition.deep_view(),
            cluster: self.cluster.deep_view(),
        }
    }
}

impl DestinationModel {
    /// The table's name with its dataset: `dataset.table`.
    pub open spec fn qualified_name(self) -> Seq<char> {
        self.dataset + seq!['.'] + self.table
    }
}

impl Destination {
    /// The table's name with its dataset: `dataset.table`.
    pub fn qualified_name(&self) -> (r: String)
        ensures
            r@ == self.deep_view().qualified_name(),
    {
        let mut out = self.dataset.clone();
        out.push('.');
        out.append(self.table.as_str());
        out
    }
}

/// A change of a version's SQL that takes effect at a later date.
#[derive(Clone, Debug, PartialEq, Eq)]
pub struct Revision {
    pub revision: u32,
    pub effective_from: Date,
    pub source: String,
    pub reason: Option<String>,
    pub backfill_since: Option<Date>,
}

/// What a [`Revision`] holds.
pub struct RevisionModel {
    pub revision: u32,
    pub effective_from: int,
    pub source: Seq<char>,
    pub reason: Option<Seq<char>>,
    pub backfill_since: Option<int>,
}

impl DeepView for Revision {
    type V = RevisionModel;

    open spec fn deep_view(&self) -> RevisionModel {
        RevisionModel {
            revision: self.revision,
            effective_from: self.effective_from@,
            source: self.source@,
            reason: self.reason.deep_view(),
            backfill_since: self.backfill_since.deep_view(),
        }
    }
}

/// A revision with its SQL text and the tables that the SQL reads.
#[derive(Clone, Debug, PartialEq, Eq)]
pub struct ResolvedRevision {
    pub revision: u32,
    pub effective_from: Date,
    pub source: String,
    pub sql_content: String,
    pub reason: Option<String>,
    pub backfill_since: Option<Date>,
    pub dependencies: Vec<String>,
}

/// What a [`ResolvedRevision`] holds.
pub struct ResolvedRevisionModel {
    pub revision: u32,
    pub effective_from: int,
    pub source: Seq<char>,
    pub sql_content: Seq<char>,
    pub reason: Option<Seq<char>>,
    pub backfill_since: Option<int>,
    pub dependencies: Seq<Seq<char>>,
}

impl DeepView for ResolvedRevision {
    type V = ResolvedRevisionModel;

    open spec fn deep_view(&self) -> ResolvedRevisionModel {
        ResolvedRevisionModel {
            revision: self.revision,
            effective_from: self.effective_from@,
            source: self.source@,
            sql_content: self.sql_content@,
            reason: self.reason.deep_view(),
            backfill_since: self.backfill_since.deep_view(),
            dependencies: self.dependencies.deep_view(),
        }
    }
}

/// The schema of an earlier version with columns dropped, replaced and added.
#[derive(Clone, Debug, PartialEq, Eq)]
pub struct ExtendedSchema {
    pub base: String,
    pub add: Vec<Field>,
    pub remove: Vec<String>,
    pub modify: Vec<Field>,
}

/// What an [`ExtendedSchema`] holds.
pub struct ExtendedSchemaModel {
    pub base: Seq<char>,
    pub add: Seq<FieldModel>,
    pub remove: Seq<Seq<char>>,
    pub modify: Seq<FieldModel>,
}

impl DeepView for ExtendedSchema {
    type V = ExtendedSchemaModel;

    open spec fn deep_view(&self) -> ExtendedSchemaModel {
        ExtendedSchemaModel {
            base: self.base@,
            add: self.add.deep_view(),
            remove: self.remove.deep_view(),
            modify: self.modify.deep_view(),
        }
    }
}

/// The schema of a version as the declaration names it.
#[derive(Clone, Debug, PartialEq, Eq)]
pub enum SchemaRef {
    /// Written out in place.
    Inline(Vec<Field>),
    /// That of another version, named by a reference such as `${{ versions.1.schema }}`.
    Reference(String),
    /// That of another version with changes.
    Extended(ExtendedSchema),
}

/// What a [`SchemaRef`] holds.
pub enum SchemaRefModel {
    Inline(Seq<FieldModel>),
    Reference(Seq<char>),
    Extended(ExtendedSchemaModel),
}

impl DeepView for SchemaRef {
    type V = SchemaRefModel;

    open spec fn deep_view(&self) -> SchemaRefModel {
        match self {
            SchemaRef::Inline(fields) => SchemaRefModel::Inline(fields.deep_view()),
            SchemaRef::Reference(text) => SchemaRefModel::Reference(text@),
            SchemaRef::Extended(ext) => SchemaRefModel::Extended(ext.deep_view()),
        }
    }
}

/// One version of a query as its declaration states it.
#[derive(Clone, Debug, PartialEq, Eq)]
pub struct RawVersionDef {
    pub version: u32,
    pub effective_from: Date,
    pub source: String,
    pub schema: SchemaRef,
    pub revisions: Vec<Revision>,
    pub description: Option<String>,
    pub backfill_since: Option<Date>,
    pub invariants: Option<InvariantsRef>,
}

/// What a [`RawVersionDef`] holds.
pub struct RawVersionDefModel {
    pub version: u32,
    pub effective_from: int,
    pub source: Seq<char>,
    pub schema: SchemaRefModel,
    pub revisions: Seq<RevisionModel>,
    pub description: Option<Seq<char>>,
    pub backfill_since: Option<int>,
    pub invariants: Option<InvariantsRefModel>,
}

impl DeepView for RawVersionDef {
    type V = RawVersionDefModel;

    open spec fn deep_view(&self) -> RawVersionDefModel {
        RawVersionDefModel {
            version: self.version,
            effective_from: self.effective_from@,
            source: self.source@,
            schema: self.schema.deep_view(),
            revisions: self.revisions.deep_view(),
            description: self.description.deep_view(),
            backfill_since: self.backfill_since.deep_view(),
            invariants: self.invariants.deep_view(),
        }
    }
}

/// A query as its declaration states it.
#[derive(Clone, Debug, PartialEq, Eq)]
pub struct RawQueryDef {
    pub name: String,
    pub destination: Destination,
    pub description: Option<String>,
    pub owner: Option<String>,
    pub tags: Vec<String>,
    pub versions: Vec<RawVersionDef>,
}

/// What a [`RawQueryDef`] holds.
pub struct RawQueryDefModel {
    pub name: Seq<char>,
    pub destination: DestinationModel,
    pub description: Option<Seq<char>>,
    pub owner: Option<Seq<char>>,
    pub tags: Seq<Seq<char>>,
    pub versions: Seq<RawVersionDefModel>,
}

impl DeepView for RawQueryDef {
    type V = RawQueryDefModel;

    open spec fn deep_view(&self) -> RawQueryDefModel {
        RawQueryDefModel {
            name: self.name@,
            destination: self.destination.deep_view(),
            description: self.description.deep_view(),
            owner: self.owner.deep_view(),
            tags: self.tags.deep_view(),
            versions: self.versions.deep_view(),
        }
    }
}

/// One version of a query, resolved: its SQL, its revisions, its schema and its invariants.
#[derive(Clone, Debug, PartialEq, Eq)]
pub struct VersionDef {
    pub version: u32,
    pub effective_from: Date,
    pub source: String,
    pub sql_content: String,
    pub revisions: Vec<ResolvedRevision>,
    pub description: Option<String>,
    pub backfill_since: Option<Date>,
    pub schema: Schema,
    pub dependencies: Vec<String>,
    pub invariants: InvariantsDef,
}

/// What a [`VersionDef`] holds.
pub struct VersionDefModel {
    pub version: u32,
    pub effective_from: int,
    pub source: Seq<char>,
    pub sql_content: Seq<char>,
    pub revisions: Seq<ResolvedRevisionModel>,
    pub description: Option<Seq<char>>,
    pub backfill_since: Option<int>,
    pub schema: Seq<FieldModel>,
    pub dependencies: Seq<Seq<char>>,
    pub invariants: InvariantsDefModel,
}

impl DeepView for VersionDef {
    type V = VersionDefModel;

    open spec fn deep_view(&self) -> VersionDefModel {
        VersionDefModel {
            version: self.version,
            effective_from: self.effective_from@,
            source: self.source@,
            sql_content: self.sql_content@,
            revisions: self.revisions.deep_view(),
            description: self.description.deep_view(),
            backfill_since: self.backfill_since.deep_view(),
            schema: self.schema.deep_view(),
            dependencies: self.dependencies.deep_view(),
            invariants: self.invariants.deep_view(),
        }
    }
}

/// Whether `i` is the place of the item in effect on `day`, among items that take effect
/// on the days `starts`: it has taken effect, no other item that has taken effect did so
/// later, and of those that did so on the same day it is the last.
pub open spec fn in_effect(starts: Seq<int>, day: int, i: int) -> bool {
    &&& 0 <= i < starts.len()
    &&& starts[i] <= day
    &&& forall|j: int|
        0 <= j < starts.len() && #[trigger] starts[j] <= day ==> starts[j] < starts[i] || (starts[j]
            == starts[i] && j <= i)
}

/// Whether no item has taken effect on `day`.
pub open spec fn none_in_effect(starts: Seq<int>, day: int) -> bool {
    forall|j: int| 0 <= j < starts.len() ==> #[trigger] starts[j] > day
}

/// The place of the item in effect on `day`, if one has taken effect.
pub open spec fn effective_index(starts: Seq<int>, day: int) -> Option<int>
    decreases starts.len(),
{
    if starts.len() == 0 {
        None
    } else {
        let last = starts.len() - 1;
        match effective_index(starts.drop_last(), day) {
            Some(i) => if starts[i] <= starts[last] && starts[last] <= day {
                Some(last)
            } else {
                Some(i)
            },
            None => if starts[last] <= day {
                Some(last)
            } else {
                None
            },
        }
    }
}

/// `effective_index` finds the item in effect, and finds none only if none has taken effect.
pub proof fn lemma_effective_index(starts: Seq<int>, day: int)
    ensures
        match effective_index(starts, day) {
            Some(i) => in_effect(starts, day, i),
            None => none_in_effect(starts, day),
        },
    decreases starts.len(),
{
    if starts.len() > 0 {
        let front = starts.drop_last();
        lemma_effective_index(front, day);
        assert forall|j: int| 0 <= j < front.len() implies front[j] == starts[j] by {}
    }
}

/// At most one item is in effect on a day.
pub proof fn lemma_in_effect_unique(starts: Seq<int>, day: int, i: int, k: int)
    requires
        in_effect(starts, day, i),
        in_effect(starts, day, k),
    ensures
        i == k,
{
}

/// The days on which the revisions take effect, in order.
pub open spec fn revision_starts(revisions: Seq<ResolvedRevisionModel>) -> Seq<int> {
    revisions.map_values(|r: ResolvedRevisionModel| r.effective_from)
}

/// The days on which the versions take effect, in order.
pub open spec fn version_starts(versions: Seq<VersionDefModel>) -> Seq<int> {
    versions.map_values(|v: VersionDefModel| v.effective_from)
}

impl VersionDefModel {
    /// The SQL in effect on `day`: that of the revision in effect, and the version's own
    /// SQL while no revision has taken effect.
    pub open spec fn sql_for(self, day: int) -> Seq<char> {
        match effective_index(revision_starts(self.revisions), day) {
            Some(i) => self.revisions[i].sql_content,
            None => self.sql_content,
        }
    }

    /// The revision number in effect on `day`, if a revision has taken effect.
    pub open spec fn revision_for(self, day: int) -> Option<u32> {
        match effective_index(revision_starts(self.revisions), day) {
            Some(i) => Some(self.revisions[i].revision),
            None => None,
        }
    }

    /// Whether the revisions take effect after the version does, each later than the one
    /// before it.
    pub open spec fn well_formed(self) -> bool {
        &&& forall|i: int|
            0 <= i < self.revisions.len() ==> self.effective_from < (
            #[trigger] self.revisions[i]).effective_from
        &&& forall|i: int, j: int|
            0 <= i < j < self.revisions.len() ==> (#[trigger] self.revisions[i]).effective_from < (
            #[trigger] self.revisions[j]).effective_from
    }
}

impl VersionDef {
    /// Whether the revisions take effect after the version does, each later than the one
    /// before it.
    pub fn is_well_formed(&self) -> (r: bool)
        ensures
            r == self.deep_view().well_formed(),
    {
        let ghost model = self.deep_view();
        let mut last = self.effective_from;
        let mut i: usize = 0;
        while i < self.revisions.len()
            invariant
                i <= self.revisions.len(),
                model == self.deep_view(),
                forall|k: int| 0 <= k < i ==> model.effective_from < (
                #[trigger] model.revisions[k]).effective_from,
                forall|k: int, l: int|
                    0 <= k < l < i ==> (#[trigger] model.revisions[k]).effective_from < (
                    #[trigger] model.revisions[l]).effective_from,
                last@ == if i == 0 {
                    model.effective_from
                } else {
                    model.revisions[i - 1].effective_from
                },
            decreases self.revisions.len() - i,
        {
            let next = self.revisions[i].effective_from;
            if !last.lt(&next) {
                return false;
            }
            proof {
                assert forall|k: int| 0 <= k < i implies (#[trigger] model.revisions[k]).effective_from
                    < model.revisions[i as int].effective_from by {
                }
            }
            last = next;
            i += 1;
        }
        true
    }

    /// The place of the revision in effect on `date`, if a revision has taken effect.
    pub fn revision_index_for_date(&self, date: Date) -> (r: Option<usize>)
        ensures
            match r {
                Some(i) => effective_index(revision_starts(self.deep_view().revisions), date@)
                    == Some(i as int) && i < self.revisions.len(),
                None => effective_index(
                    revision_starts(self.deep_view().revisions),
                    date@,
                ).is_none(),
            },
    {
        let ghost starts = revision_starts(self.deep_view().revisions);
        let mut best: Option<usize> = None;
        let mut i: usize = 0;
        while i < self.revisions.len()
            invariant
                i <= self.revisions.len(),
                starts == revision_starts(self.deep_view().revisions),
                match best {
                    Some(b) => effective_index(starts.take(i as int), date@) == Some(b as int) && b
                        < i,
                    None => effective_index(starts.take(i as int), date@).is_none(),
                },
            decreases self.revisions.len() - i,
        {
            proof {
                assert(starts.take(i + 1).drop_last() == starts.take(i as int));
            }
            if self.revisions[i].effective_from.le(&date) {
                match best {
                    Some(b) => {
                        if self.revisions[b].effective_from.le(&self.revisions[i].effective_from) {
                            best = Some(i);
                        }
                    },
                    None => {
                        best = Some(i);
                    },
                }
            }
            i += 1;
        }
        assert(starts.take(i as int) == starts);
        best
    }

    /// The SQL in effect on `date`: that of the latest revision that has taken effect,
    /// and the version's own SQL while none has.
    pub fn get_sql_for_date(&self, date: Date) -> (r: &str)
        ensures
            r@ == self.deep_view().sql_for(date@),
            match effective_index(revision_starts(self.deep_view().revisions), date@) {
                Some(i) => in_effect(revision_starts(self.deep_view().revisions), date@, i),
                None => none_in_effect(revision_starts(self.deep_view().revisions), date@),
            },
    {
        proof {
            lemma_effective_index(revision_starts(self.deep_view().revisions), date@);
        }
        match self.revision_index_for_date(date) {
            Some(i) => self.revisions[i].sql_content.as_str(),
            None => self.sql_content.as_str(),
        }
    }

    /// The number of the revision in effect on `date`, if a revision has taken effect.
    pub fn get_revision_for_date(&self, date: Date) -> (r: Option<u32>)
        ensures
            r == self.deep_view().revision_for(date@),
    {
        match self.revision_index_for_date(date) {
            Some(i) => Some(self.revisions[i].revision),
            None => None,
        }
    }
}

/// A query: where it writes, and its versions.
#[derive(Clone, Debug, PartialEq, Eq)]
pub struct QueryDef {
    pub name: String,
    pub destination: Destination,
    pub description: Option<String>,
    pub owner: Option<String>,
    pub tags: Vec<String>,
    pub versions: Vec<VersionDef>,
    pub cluster: Option<ClusterConfig>,
}

/// What a [`QueryDef`] holds.
pub struct QueryDefModel {
    pub name: Seq<char>,
    pub destination: DestinationModel,
    pub description: Option<Seq<char>>,
    pub owner: Option<Seq<char>>,
    pub tags: Seq<Seq<char>>,
    pub versions: Seq<VersionDefModel>,
    pub cluster: Option<Seq<Seq<char>>>,
}

impl DeepView for QueryDef {
    type V = QueryDefModel;

    open spec fn deep_view(&self) -> QueryDefModel {
        QueryDefModel {
            name: self.name@,
            destination: self.destination.deep_view(),
            description: self.description.deep_view(),
            owner: self.owner.deep_view(),
            tags: self.tags.deep_view(),
            versions: self.versions.deep_view(),
            cluster: self.cluster.deep_view(),
        }
    }
}

impl QueryDefModel {
    /// The place of the version in effect on `day`, if one has taken effect.
    pub open spec fn version_index_for(self, day: int) -> Option<int> {
        effective_index(version_starts(self.versions), day)
    }

    /// The version in effect on `day`, if one has taken effect.
    pub open spec fn version_for(self, day: int) -> Option<VersionDefModel> {
        match self.version_index_for(day) {
            Some(i) => Some(self.versions[i]),
            None => None,
        }
    }

    /// Whether the versions stand in the order in which they take effect, no two on the
    /// same day, with rising version numbers, and each is well formed.
    pub open spec fn well_formed(self) -> bool {
        &&& forall|i: int, j: int|
            0 <= i < j < self.versions.len() ==> (#[trigger] self.versions[i]).effective_from < (
            #[trigger] self.versions[j]).effective_from
        &&& forall|i: int, j: int|
            0 <= i < j < self.versions.len() ==> (#[trigger] self.versions[i]).version < (
            #[trigger] self.versions[j]).version
        &&& forall|i: int| 0 <= i < self.versions.len() ==> (#[trigger] self.versions[i]).well_formed()
    }
}

impl QueryDef {
    /// Whether the versions stand in the order in which they take effect, no two on the
    /// same day, with rising version numbers, and each is well formed.
    pub fn is_well_formed(&self) -> (r: bool)
        ensures
            r == self.deep_view().well_formed(),
    {
        let ghost model = self.deep_view();
        let mut i: usize = 0;
        while i < self.versions.len()
            invariant
                i <= self.versions.len(),
                model == self.deep_view(),
                forall|k: int, l: int|
                    0 <= k < l < i ==> (#[trigger] model.versions[k]).effective_from < (
                    #[trigger] model.versions[l]).effective_from,
                forall|k: int, l: int|
                    0 <= k < l < i ==> (#[trigger] model.versions[k]).version < (
                    #[trigger] model.versions[l]).version,
                forall|k: int| 0 <= k < i ==> (#[trigger] model.versions[k]).well_formed(),
            decreases self.versions.len() - i,
        {
            let version = &self.versions[i];
            if !version.is_well_formed() {
                return false;
            }
            if i > 0 {
                let previous = &self.versions[i - 1];
                if !previous.effective_from.lt(&version.effective_from) || previous.version
                    >= version.version {
                    return false;
                }
                proof {
                    assert forall|k: int| 0 <= k < i implies (
                    #[trigger] model.versions[k]).effective_from
                        < model.versions[i as int].effective_from && model.versions[k].version
                        < model.versions[i as int].version by {
                        if k < i - 1 {
                            assert(model.versions[k].version < model.versions[i - 1].version);
                        }
                    }
                }
            }
            i += 1;
        }
        true
    }

    /// The place of the version in effect on `date`, if one has taken effect.
    pub fn version_index_for_date(&self, date: Date) -> (r: Option<usize>)
        ensures
            match r {
                Some(i) => self.deep_view().version_index_for(date@) == Some(i as int) && i
                    < self.versions.len(),
                None => self.deep_view().version_index_for(date@).is_none(),
            },
    {
        let ghost starts = version_starts(self.deep_view().versions);
        let mut best: Option<usize> = None;
        let mut i: usize = 0;
        while i < self.versions.len()
            invariant
                i <= self.versions.len(),
                starts == version_starts(self.deep_view().versions),
                match best {
                    Some(b) => effective_index(starts.take(i as int), date@) == Some(b as int) && b
                        < i,
                    None => effective_index(starts.take(i as int), date@).is_none(),
                },
            decreases self.versions.len() - i,
        {
            proof {
                assert(starts.take(i + 1).drop_last() == starts.take(i as int));
            }
            if self.versions[i].effective_from.le(&date) {
                match best {
                    Some(b) => {
                        if self.versions[b].effective_from.le(&self.versions[i].effective_from) {
                            best = Some(i);
                        }
                    },
                    None => {
                        best = Some(i);
                    },
                }
            }
            i += 1;
        }
        assert(starts.take(i as int) == starts);
        best
    }

    /// The version in effect on `date`: the one that took effect last among those that
    /// have taken effect by `date`, and `None` if `date` is before all of them.
    pub fn get_version_for_date(&self, date: Date) -> (r: Option<&VersionDef>)
        ensures
            r.deep_view() == self.deep_view().version_for(date@),
            match self.deep_view().version_index_for(date@) {
                Some(i) => in_effect(version_starts(self.deep_view().versions), date@, i),
                None => none_in_effect(version_starts(self.deep_view().versions), date@),
            },
    {
        proof {
            lemma_effective_index(version_starts(self.deep_view().versions), date@);
        }
        match self.version_index_for_date(date) {
            Some(i) => Some(&self.versions[i]),
            None => None,
        }
    }

    /// The version that is declared last, if there is any.
    pub fn latest_version(&self) -> (r: Option<&VersionDef>)
        ensures
            match r {
                Some(v) => self.versions@.len() > 0 && v.deep_view()
                    == self.deep_view().versions.last(),
                None => self.versions@.len() == 0,
            },
    {
        if self.versions.len() == 0 {
            None
        } else {
            Some(&self.versions[self.versions.len() - 1])
        }
    }
}

} // verus!

//! Declarations of invariants, as they stand in a query's versions.

use vstd::prelude::*;
use crate::text::{clone_opt_string, clone_strings};

verus! {

/// How much a failed check matters.
#[derive(Clone, Copy, Debug, PartialEq, Eq, Hash)]
pub enum Severity {
    /// A failure before the write blocks the write.
    Error,
    /// A failure is reported and nothing else.
    Warning,
}

/// What a check looks at.
#[derive(Debug, PartialEq, Eq)]
pub enum InvariantCheck {
    /// The partition's row count lies between the bounds that are given.
    RowCount { min: Option<i64>, max: Option<i64> },
    /// The column holds no null.
    NotNull { column: String },
    /// No two rows agree on all of the columns.
    Unique { columns: Vec<String> },
    /// The SQL predicate returns no offending row.
    Custom { sql: String },
}

/// What an [`InvariantCheck`] holds.
pub enum InvariantCheckModel {
    RowCount { min: Option<i64>, max: Option<i64> },
    NotNull { column: Seq<char> },
    Unique { columns: Seq<Seq<char>> },
    Custom { sql: Seq<char> },
}

impl DeepView for InvariantCheck {
    type V = InvariantCheckModel;

    open spec fn deep_view(&self) -> InvariantCheckModel {
        match self {
            InvariantCheck::RowCount { min, max } => InvariantCheckModel::RowCount {
                min: *min,
                max: *max,
            },
            InvariantCheck::NotNull { column } => InvariantCheckModel::NotNull { column: column@ },
            InvariantCheck::Unique { columns } => InvariantCheckModel::Unique {
                columns: columns.deep_view(),
            },
            InvariantCheck::Custom { sql } => InvariantCheckModel::Custom { sql: sql@ },
        }
    }
}

impl InvariantCheckModel {
    /// What is wrong with the check's configuration, if anything: a row count without a
    /// bound or with its bounds crossed, a column list without a column, an empty
    /// column name or an empty predicate.
    pub open spec fn problem(self) -> Option<Seq<char>> {
        match self {
            InvariantCheckModel::RowCount { min, max } => match (min, max) {
                (None, None) => Some("row_count needs min or max"@),
                (Some(lo), Some(hi)) => if lo > hi {
                    Some("row_count min exceeds max"@)
                } else {
                    None
                },
                _ => None,
            },
            InvariantCheckModel::NotNull { column } => if column.len() == 0 {
                Some("not_null needs a column"@)
            } else {
                None
            },
            InvariantCheckModel::Unique { columns } => if columns.len() == 0 {
                Some("unique needs at least one column"@)
            } else {
                None
            },
            InvariantCheckModel::Custom { sql } => if sql.len() == 0 {
                Some("custom check needs sql"@)
            } else {
                None
            },
        }
    }
}

impl Clone for InvariantCheck {
    fn clone(&self) -> (r: Self)
        ensures
            r.deep_view() == self.deep_view(),
    {
        match self {
            InvariantCheck::RowCount { min, max } => InvariantCheck::RowCount {
                min: *min,
                max: *max,
            },
            InvariantCheck::NotNull { column } => InvariantCheck::NotNull {
                column: column.clone(),
            },
            InvariantCheck::Unique { columns } => InvariantCheck::Unique {
                columns: clone_strings(columns),
            },
            InvariantCheck::Custom { sql } => InvariantCheck::Custom { sql: sql.clone() },
        }
    }
}

impl InvariantCheck {
    /// Checks the configuration: `Ok` when nothing is wrong with it, and otherwise the
    /// problem in words.
    pub fn validate(&self) -> (r: Result<(), String>)
        ensures
            match r {
                Ok(_) => self.deep_view().problem().is_none(),
                Err(msg) => self.deep_view().problem() == Some(msg@),
            },
    {
        match self {
            InvariantCheck::RowCount { min, max } => match (min, max) {
                (None, None) => Err(String::from_str("row_count needs min or max")),
                (Some(lo), Some(hi)) => if *lo > *hi {
                    Err(String::from_str("row_count min exceeds max"))
                } else {
                    Ok(())
                },
                _ => Ok(()),
            },
            InvariantCheck::NotNull { column } => if column.as_str().is_empty() {
                Err(String::from_str("not_null needs a column"))
            } else {
                Ok(())
            },
            InvariantCheck::Unique { columns } => if columns.len() == 0 {
                Err(String::from_str("unique needs at least one column"))
            } else {
                Ok(())
            },
            InvariantCheck::Custom { sql } => if sql.as_str().is_empty() {
                Err(String::from_str("custom check needs sql"))
            } else {
                Ok(())
            },
        }
    }
}

/// A named check with its severity.
#[derive(Debug, PartialEq, Eq)]
pub struct InvariantDef {
    pub name: String,
    pub check: InvariantCheck,
    pub severity: Severity,
    pub description: Option<String>,
}

/// What an [`InvariantDef`] holds.
pub struct InvariantDefModel {
    pub name: Seq<char>,
    pub check: InvariantCheckModel,
    pub severity: Severity,
    pub description: Option<Seq<char>>,
}

impl DeepView for InvariantDef {
    type V = InvariantDefModel;

    open spec fn deep_view(&self) -> InvariantDefModel {
        InvariantDefModel {
            name: self.name@,
            check: self.check.deep_view(),
            severity: self.severity,
            description: self.description.deep_view(),
        }
    }
}

impl Clone for InvariantDef {
    fn clone(&self) -> (r: Self)
        ensures
            r.deep_view() == self.deep_view(),
    {
        InvariantDef {
            name: self.name.clone(),
            check: self.check.clone(),
            severity: self.severity,
            description: clone_opt_string(&self.description),
        }
    }
}

/// A copy of a list of invariants.
pub fn clone_invariants(v: &Vec<InvariantDef>) -> (r: Vec<InvariantDef>)
    ensures
        r.deep_view() == v.deep_view(),
{
    let out = v.clone();
    out
}

/// The invariants of one version: those checked before the write, and those checked after it.
#[derive(Debug, PartialEq, Eq)]
pub struct InvariantsDef {
    pub before: Vec<InvariantDef>,
    pub after: Vec<InvariantDef>,
}

/// What an [`InvariantsDef`] holds.
pub struct InvariantsDefModel {
    pub before: Seq<InvariantDefModel>,
    pub after: Seq<InvariantDefModel>,
}

impl InvariantsDefModel {
    /// No invariant at all.
    pub open spec fn empty() -> Self {
        InvariantsDefModel { before: Seq::empty(), after: Seq::empty() }
    }
}

impl DeepView for InvariantsDef {
    type V = InvariantsDefModel;

    open spec fn deep_view(&self) -> InvariantsDefModel {
        InvariantsDefModel { before: self.before.deep_view(), after: self.after.deep_view() }
    }
}

impl Clone for InvariantsDef {
    fn clone(&self) -> (r: Self)
        ensures
            r.deep_view() == self.deep_view(),
    {
        InvariantsDef { before: clone_invariants(&self.before), after: clone_invariants(&self.after) }
    }
}

impl Default for InvariantsDef {
    fn default() -> (r: Self)
        ensures
            r.deep_view() == InvariantsDefModel::empty(),
    {
        let r = InvariantsDef { before: Vec::new(), after: Vec::new() };
        assert(r.after.deep_view() =~= Seq::empty());
        r
    }
}

/// The names of the invariants that an extension drops.
#[derive(Clone, Debug, PartialEq, Eq)]
pub struct InvariantsRemove {
    pub before: Vec<String>,
    pub after: Vec<String>,
}

/// What an [`InvariantsRemove`] holds.
pub struct InvariantsRemoveModel {
    pub before: Seq<Seq<char>>,
    pub after: Seq<Seq<char>>,
}

impl DeepView for InvariantsRemove {
    type V = InvariantsRemoveModel;

    open spec fn deep_view(&self) -> InvariantsRemoveModel {
        InvariantsRemoveModel { before: self.before.deep_view(), after: self.after.deep_view() }
    }
}

/// The invariants of an earlier version, with some dropped, some replaced and some added.
#[derive(Clone, Debug, PartialEq, Eq)]
pub struct ExtendedInvariants {
    pub base: String,
    pub add: Option<InvariantsDef>,
    pub modify: Option<InvariantsDef>,
    pub remove: Option<InvariantsRemove>,
}

/// What an [`ExtendedInvariants`] holds.
pub struct ExtendedInvariantsModel {
    pub base: Seq<char>,
    pub add: Option<InvariantsDefModel>,
    pub modify: Option<InvariantsDefModel>,
    pub remove: Option<InvariantsRemoveModel>,
}

impl DeepView for ExtendedInvariants {
    type V = ExtendedInvariantsModel;

    open spec fn deep_view(&self) -> ExtendedInvariantsModel {
        ExtendedInvariantsModel {
            base: self.base@,
            add: self.add.deep_view(),
            modify: self.modify.deep_view(),
            remove: self.remove.deep_view(),
        }
    }
}

/// The invariants of a version as the declaration names them.
#[derive(Clone, Debug, PartialEq, Eq)]
pub enum InvariantsRef {
    /// Written out in place.
    Inline(InvariantsDef),
    /// Those of another version, named by a reference such as `${{ versions.1.invariants }}`.
    Reference(String),
    /// Those of another version with changes.
    Extended(ExtendedInvariants),
}

/// What an [`InvariantsRef`] holds.
pub enum InvariantsRefModel {
    Inline(InvariantsDefModel),
    Reference(Seq<char>),
    Extended(ExtendedInvariantsModel),
}

impl DeepView for InvariantsRef {
    type V = InvariantsRefModel;

    open spec fn deep_view(&self) -> InvariantsRefModel {
        match self {
            InvariantsRef::Inline(def) => InvariantsRefModel::Inline(def.deep_view()),
            InvariantsRef::Reference(text) => InvariantsRefModel::Reference(text@),
            InvariantsRef::Extended(ext) => InvariantsRefModel::Extended(ext.deep_view()),
        }
    }
}

} // verus!

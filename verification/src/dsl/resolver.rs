//! Resolves references from one version of a query to another.
//!
//! A version may name the schema or the invariants of an earlier version by a reference
//! such as `${{ versions.1.schema }}`, or extend them: drop some items by name, replace
//! some by name, then add some.

use std::collections::HashMap;
use vstd::prelude::*;
use super::parser::{ExtendedSchema, ExtendedSchemaModel, SchemaRef, SchemaRefModel};
use crate::error::{deep_result, BqDriftError, BqDriftErrorModel};
use crate::invariants::{
    ExtendedInvariants, ExtendedInvariantsModel, InvariantDef, InvariantDefModel, InvariantsDef,
    InvariantsDefModel, InvariantsRef, InvariantsRefModel,
};
use crate::matcher::{first_match, regex_captures};
use crate::schema::{clone_fields, find_field, position_of, Field, FieldModel, Schema};
use crate::text::{decimal, parse_u32, parsed_u32, push_decimal};

verus! {

/// A reference to a field of a version: `${{ versions.N.field }}`, with any white space
/// inside the braces. Group 1 is the version number, group 2 the field.
pub const VARIABLE_PATTERN: &'static str = r"\$\{\{\s*versions\.(\d+)\.(\w+)\s*\}\}";

/// What a text says as a reference.
#[derive(Clone, Debug, PartialEq, Eq)]
pub enum ParsedRef {
    /// The text holds no reference.
    NoMatch,
    /// The text holds a reference whose version number cannot be read.
    Malformed,
    /// The text refers to the field `field` of the version numbered `version`.
    Version { version: u32, field: String },
}

/// What a [`ParsedRef`] holds.
pub enum ParsedRefModel {
    NoMatch,
    Malformed,
    Version { version: u32, field: Seq<char> },
}

impl DeepView for ParsedRef {
    type V = ParsedRefModel;

    open spec fn deep_view(&self) -> ParsedRefModel {
        match self {
            ParsedRef::NoMatch => ParsedRefModel::NoMatch,
            ParsedRef::Malformed => ParsedRefModel::Malformed,
            ParsedRef::Version { version, field } => ParsedRefModel::Version {
                version: *version,
                field: field@,
            },
        }
    }
}

/// What the capture groups of the reference pattern say: no reference without a match;
/// a reference to a version where group 1 is a number that fits and group 2 took part;
/// and a malformed reference otherwise.
pub open spec fn interpreted(groups: Option<Seq<Option<Seq<char>>>>) -> ParsedRefModel {
    match groups {
        None => ParsedRefModel::NoMatch,
        Some(g) => if g.len() >= 3 && g[1].is_some() && parsed_u32(g[1].unwrap()).is_some()
            && g[2].is_some() {
            ParsedRefModel::Version {
                version: parsed_u32(g[1].unwrap()).unwrap(),
                field: g[2].unwrap(),
            }
        } else {
            ParsedRefModel::Malformed
        },
    }
}

/// What `text` says as a reference.
pub open spec fn parsed_ref(text: Seq<char>) -> ParsedRefModel {
    interpreted(first_match(VARIABLE_PATTERN@, text))
}

/// The text of the error for a reference to another field than the expected one.
pub open spec fn wrong_field_message(expected: Seq<char>, got: Seq<char>) -> Seq<char> {
    "Expected '"@ + expected + "' field, got '"@ + got + "'"@
}

/// The version that a reference names, where the reference is well formed and names
/// the field `expected`. A text without a readable reference is an invalid version
/// reference; a reference to another field is a variable resolution error.
pub open spec fn reference_target(parsed: ParsedRefModel, text: Seq<char>, expected: Seq<char>) -> Result<
    u32,
    BqDriftErrorModel,
> {
    match parsed {
        ParsedRefModel::Version { version, field } => if field == expected {
            Ok(version)
        } else {
            Err(BqDriftErrorModel::VariableResolution(wrong_field_message(expected, field)))
        },
        _ => Err(BqDriftErrorModel::InvalidVersionRef(text)),
    }
}

/// `fields` without those whose name is among `names`.
pub open spec fn fields_without(fields: Seq<FieldModel>, names: Seq<Seq<char>>) -> Seq<FieldModel>
    decreases fields.len(),
{
    if fields.len() == 0 {
        Seq::empty()
    } else {
        let front = fields_without(fields.drop_last(), names);
        if names.contains(fields.last().name) {
            front
        } else {
            front.push(fields.last())
        }
    }
}

/// `fields` with the first field that has the name of `change` replaced by `change`,
/// and unchanged if no field has that name.
pub open spec fn field_replaced(fields: Seq<FieldModel>, change: FieldModel) -> Seq<FieldModel> {
    match position_of(fields, change.name) {
        Some(i) => fields.update(i, change),
        None => fields,
    }
}

/// `fields` after each of `changes` has replaced the field of its name, in order.
pub open spec fn fields_modified(fields: Seq<FieldModel>, changes: Seq<FieldModel>) -> Seq<
    FieldModel,
>
    decreases changes.len(),
{
    if changes.len() == 0 {
        fields
    } else {
        field_replaced(fields_modified(fields, changes.drop_last()), changes.last())
    }
}

/// The schema that an extension makes of `base`: remove, then modify, then add.
pub open spec fn extended_fields(base: Seq<FieldModel>, ext: ExtendedSchemaModel) -> Seq<
    FieldModel,
> {
    fields_modified(fields_without(base, ext.remove), ext.modify) + ext.add
}

/// The text of an error that names a version: `before`, the number, `after`.
pub open spec fn version_message(before: Seq<char>, version: u32, after: Seq<char>) -> Seq<char> {
    before + decimal(version as nat) + after
}

/// The schema that `schema_ref` stands for, given what its reference text says (for a
/// reference or an extension) and the schemas of the versions resolved so far.
pub open spec fn resolved_schema(
    schema_ref: SchemaRefModel,
    known: Map<u32, Seq<FieldModel>>,
) -> Result<Seq<FieldModel>, BqDriftErrorModel> {
    match schema_ref {
        SchemaRefModel::Inline(fields) => Ok(fields),
        SchemaRefModel::Reference(text) => match reference_target(
            parsed_ref(text),
            text,
            "schema"@,
        ) {
            Ok(version) => if known.contains_key(version) {
                Ok(known[version])
            } else {
                Err(
                    BqDriftErrorModel::InvalidVersionRef(
                        version_message("Version "@, version, " not found or not yet resolved"@),
                    ),
                )
            },
            Err(e) => Err(e),
        },
        SchemaRefModel::Extended(ext) => match reference_target(
            parsed_ref(ext.base),
            ext.base,
            "schema"@,
        ) {
            Ok(version) => if known.contains_key(version) {
                Ok(extended_fields(known[version], ext))
            } else {
                Err(
                    BqDriftErrorModel::InvalidVersionRef(
                        version_message("Base version "@, version, " not found"@),
                    ),
                )
            },
            Err(e) => Err(e),
        },
    }
}

/// `defs` without those whose name is among `names`.
pub open spec fn invariants_without(defs: Seq<InvariantDefModel>, names: Seq<Seq<char>>) -> Seq<
    InvariantDefModel,
>
    decreases defs.len(),
{
    if defs.len() == 0 {
        Seq::empty()
    } else {
        let front = invariants_without(defs.drop_last(), names);
        if names.contains(defs.last().name) {
            front
        } else {
            front.push(defs.last())
        }
    }
}

/// The place of the first of `defs` called `name`, if there is one.
pub open spec fn invariant_position(defs: Seq<InvariantDefModel>, name: Seq<char>) -> Option<int>
    decreases defs.len(),
{
    if defs.len() == 0 {
        None
    } else {
        match invariant_position(defs.drop_last(), name) {
            Some(i) => Some(i),
            None => if defs.last().name == name {
                Some(defs.len() - 1)
            } else {
                None
            },
        }
    }
}

/// `defs` after each of `changes` has replaced the first invariant of its name, in order.
pub open spec fn invariants_modified(
    defs: Seq<InvariantDefModel>,
    changes: Seq<InvariantDefModel>,
) -> Seq<InvariantDefModel>
    decreases changes.len(),
{
    if changes.len() == 0 {
        defs
    } else {
        let front = invariants_modified(defs, changes.drop_last());
        match invariant_position(front, changes.last().name) {
            Some(i) => front.update(i, changes.last()),
            None => front,
        }
    }
}

/// One list of invariants after an extension: remove, then modify, then add.
pub open spec fn extended_list(
    base: Seq<InvariantDefModel>,
    remove: Option<Seq<Seq<char>>>,
    modify: Option<Seq<InvariantDefModel>>,
    add: Option<Seq<InvariantDefModel>>,
) -> Seq<InvariantDefModel> {
    let kept = match remove {
        Some(names) => invariants_without(base, names),
        None => base,
    };
    let changed = match modify {
        Some(changes) => invariants_modified(kept, changes),
        None => kept,
    };
    match add {
        Some(more) => changed + more,
        None => changed,
    }
}

/// The invariants that an extension makes of `base`.
pub open spec fn extended_invariants(
    base: InvariantsDefModel,
    ext: ExtendedInvariantsModel,
) -> InvariantsDefModel {
    InvariantsDefModel {
        before: extended_list(
            base.before,
            match ext.remove {
                Some(r) => Some(r.before),
                None => None,
            },
            match ext.modify {
                Some(m) => Some(m.before),
                None => None,
            },
            match ext.add {
                Some(a) => Some(a.before),
                None => None,
            },
        ),
        after: extended_list(
            base.after,
            match ext.remove {
                Some(r) => Some(r.after),
                None => None,
            },
            match ext.modify {
                Some(m) => Some(m.after),
                None => None,
            },
            match ext.add {
                Some(a) => Some(a.after),
                None => None,
            },
        ),
    }
}

/// The place of the first of `defs` whose check is misconfigured, if there is one.
pub open spec fn first_invalid(defs: Seq<InvariantDefModel>) -> Option<int>
    decreases defs.len(),
{
    if defs.len() == 0 {
        None
    } else {
        match first_invalid(defs.drop_last()) {
            Some(i) => Some(i),
            None => if defs.last().check.problem().is_some() {
                Some(defs.len() - 1)
            } else {
                None
            },
        }
    }
}

/// The text of the error for a misconfigured invariant: its name, its phase and
/// what is wrong with it.
pub open spec fn invalid_message(def: InvariantDefModel, phase: Seq<char>) -> Seq<char> {
    "Invariant '"@ + def.name + "' ("@ + phase + "): "@ + def.check.problem().unwrap()
}

/// What is wrong with the invariants, if anything: the first misconfigured check among
/// those before the write, else the first among those after it.
pub open spec fn validation_error(def: InvariantsDefModel) -> Option<BqDriftErrorModel> {
    match first_invalid(def.before) {
        Some(i) => Some(BqDriftErrorModel::Validation(invalid_message(def.before[i], "before"@))),
        None => match first_invalid(def.after) {
            Some(i) => Some(BqDriftErrorModel::Validation(invalid_message(def.after[i], "after"@))),
            None => None,
        },
    }
}

/// The invariants that `inv_ref` stands for before they are validated.
pub open spec fn referenced_invariants(
    inv_ref: Option<InvariantsRefModel>,
    known: Map<u32, InvariantsDefModel>,
) -> Result<InvariantsDefModel, BqDriftErrorModel> {
    match inv_ref {
        None => Ok(InvariantsDefModel::empty()),
        Some(InvariantsRefModel::Inline(def)) => Ok(def),
        Some(InvariantsRefModel::Reference(text)) => match reference_target(
            parsed_ref(text),
            text,
            "invariants"@,
        ) {
            Ok(version) => if known.contains_key(version) {
                Ok(known[version])
            } else {
                Err(
                    BqDriftErrorModel::InvalidVersionRef(
                        version_message(
                            "Invariants for version "@,
                            version,
                            " not found or not yet resolved"@,
                        ),
                    ),
                )
            },
            Err(e) => Err(e),
        },
        Some(InvariantsRefModel::Extended(ext)) => match reference_target(
            parsed_ref(ext.base),
            ext.base,
            "invariants"@,
        ) {
            Ok(version) => if known.contains_key(version) {
                Ok(extended_invariants(known[version], ext))
            } else {
                Err(
                    BqDriftErrorModel::InvalidVersionRef(
                        version_message("Base invariants version "@, version, " not found"@),
                    ),
                )
            },
            Err(e) => Err(e),
        },
    }
}

/// The invariants that `inv_ref` stands for: those it names, if every check among
/// them is well configured.
pub open spec fn resolved_invariants(
    inv_ref: Option<InvariantsRefModel>,
    known: Map<u32, InvariantsDefModel>,
) -> Result<InvariantsDefModel, BqDriftErrorModel> {
    match referenced_invariants(inv_ref, known) {
        Ok(def) => match validation_error(def) {
            Some(e) => Err(e),
            None => Ok(def),
        },
        Err(e) => Err(e),
    }
}

/// The SQL that `sql_ref` stands for: the text itself where it holds no reference, and
/// the SQL of the version it names otherwise.
pub open spec fn resolved_sql(sql_ref: Seq<char>, known: Map<u32, Seq<char>>) -> Result<
    Seq<char>,
    BqDriftErrorModel,
> {
    match parsed_ref(sql_ref) {
        ParsedRefModel::NoMatch => Ok(sql_ref),
        parsed => match reference_target(parsed, sql_ref, "sql"@) {
            Ok(version) => if known.contains_key(version) {
                Ok(known[version])
            } else {
                Err(
                    BqDriftErrorModel::InvalidVersionRef(
                        version_message("SQL for version "@, version, " not found"@),
                    ),
                )
            },
            Err(e) => Err(e),
        },
    }
}

/// The schemas of a map of versions.
pub open spec fn schema_models(known: Map<u32, Schema>) -> Map<u32, Seq<FieldModel>> {
    known.map_values(|s: Schema| s.deep_view())
}

/// The invariants of a map of versions.
pub open spec fn invariants_models(known: Map<u32, InvariantsDef>) -> Map<u32, InvariantsDefModel> {
    known.map_values(|d: InvariantsDef| d.deep_view())
}

/// The SQL texts of a map of versions.
pub open spec fn sql_models(known: Map<u32, String>) -> Map<u32, Seq<char>> {
    known.map_values(|s: String| s@)
}

fn version_error(before: &str, version: u32, after: &str) -> (r: BqDriftError)
    ensures
        r.deep_view() == BqDriftErrorModel::InvalidVersionRef(
            version_message(before@, version, after@),
        ),
{
    let mut message = String::from_str(before);
    push_decimal(&mut message, version as u64);
    message.append(after);
    BqDriftError::InvalidVersionRef(message)
}

fn contains_text(names: &Vec<String>, name: &str) -> (r: bool)
    ensures
        r == names.deep_view().contains(name@),
{
    let mut i: usize = 0;
    while i < names.len()
        invariant
            i <= names.len(),
            forall|j: int| 0 <= j < i ==> names.deep_view()[j] != name@,
        decreases names.len() - i,
    {
        if names[i].as_str().eq(name) {
            assert(names.deep_view()[i as int] == name@);
            return true;
        }
        i += 1;
    }
    false
}

fn remove_fields(fields: &Vec<Field>, names: &Vec<String>) -> (r: Vec<Field>)
    ensures
        r.deep_view() == fields_without(fields.deep_view(), names.deep_view()),
{
    let ghost all = fields.deep_view();
    let mut out: Vec<Field> = Vec::new();
    let mut i: usize = 0;
    while i < fields.len()
        invariant
            i <= fields.len(),
            all == fields.deep_view(),
            out.deep_view() == fields_without(all.take(i as int), names.deep_view()),
        decreases fields.len() - i,
    {
        proof {
            assert(all.take(i + 1).drop_last() == all.take(i as int));
        }
        if !contains_text(names, fields[i].name.as_str()) {
            out.push(fields[i].clone());
        }
        i += 1;
    }
    assert(all.take(i as int) == all);
    out
}

fn modify_fields(fields: Vec<Field>, changes: &Vec<Field>) -> (r: Vec<Field>)
    ensures
        r.deep_view() == fields_modified(fields.deep_view(), changes.deep_view()),
{
    let ghost start = fields.deep_view();
    let ghost all = changes.deep_view();
    let mut out = fields;
    let mut i: usize = 0;
    while i < changes.len()
        invariant
            i <= changes.len(),
            all == changes.deep_view(),
            out.deep_view() == fields_modified(start, all.take(i as int)),
        decreases changes.len() - i,
    {
        proof {
            assert(all.take(i + 1).drop_last() == all.take(i as int));
        }
        match find_field(&out, changes[i].name.as_str()) {
            Some(at) => {
                let ghost before = out.deep_view();
                proof {
                    crate::schema::lemma_position_of(before, changes@[i as int].name@);
                }
                out.set(at, changes[i].clone());
            },
            None => {},
        }
        i += 1;
    }
    assert(all.take(i as int) == all);
    out
}

fn append_fields(fields: Vec<Field>, more: &Vec<Field>) -> (r: Vec<Field>)
    ensures
        r.deep_view() == fields.deep_view() + more.deep_view(),
{
    let mut out = fields;
    let mut extra = clone_fields(more);
    out.append(&mut extra);
    out
}

fn find_invariant(defs: &Vec<InvariantDef>, name: &str) -> (r: Option<usize>)
    ensures
        match r {
            Some(i) => invariant_position(defs.deep_view(), name@) == Some(i as int) && i
                < defs.len(),
            None => invariant_position(defs.deep_view(), name@).is_none(),
        },
{
    let ghost all = defs.deep_view();
    let mut i: usize = 0;
    while i < defs.len()
        invariant
            i <= defs.len(),
            all == defs.deep_view(),
            invariant_position(all.take(i as int), name@).is_none(),
        decreases defs.len() - i,
    {
        proof {
            assert(all.take(i + 1).drop_last() == all.take(i as int));
        }
        if defs[i].name.as_str().eq(name) {
            proof {
                lemma_invariant_position_prefix(all, name@, i + 1);
            }
            return Some(i);
        }
        i += 1;
    }
    assert(all.take(i as int) == all);
    None
}

/// What is found in a prefix is found at the same place in the whole list.
pub proof fn lemma_invariant_position_prefix(defs: Seq<InvariantDefModel>, name: Seq<char>, k: int)
    requires
        0 <= k <= defs.len(),
        invariant_position(defs.take(k), name).is_some(),
    ensures
        invariant_position(defs, name) == invariant_position(defs.take(k), name),
    decreases defs.len() - k,
{
    if k < defs.len() {
        assert(defs.take(k + 1).drop_last() == defs.take(k));
        lemma_invariant_position_prefix(defs, name, k + 1);
    } else {
        assert(defs.take(k) == defs);
    }
}

fn remove_invariants(defs: &Vec<InvariantDef>, names: &Vec<String>) -> (r: Vec<InvariantDef>)
    ensures
        r.deep_view() == invariants_without(defs.deep_view(), names.deep_view()),
{
    let ghost all = defs.deep_view();
    let mut out: Vec<InvariantDef> = Vec::new();
    let mut i: usize = 0;
    while i < defs.len()
        invariant
            i <= defs.len(),
            all == defs.deep_view(),
            out.deep_view() == invariants_without(all.take(i as int), names.deep_view()),
        decreases defs.len() - i,
    {
        proof {
            assert(all.take(i + 1).drop_last() == all.take(i as int));
        }
        if !contains_text(names, defs[i].name.as_str()) {
            out.push(defs[i].clone());
        }
        i += 1;
    }
    assert(all.take(i as int) == all);
    out
}

fn modify_invariants(defs: Vec<InvariantDef>, changes: &Vec<InvariantDef>) -> (r: Vec<InvariantDef>)
    ensures
        r.deep_view() == invariants_modified(defs.deep_view(), changes.deep_view()),
{
    let ghost start = defs.deep_view();
    let ghost all = changes.deep_view();
    let mut out = defs;
    let mut i: usize = 0;
    while i < changes.len()
        invariant
            i <= changes.len(),
            all == changes.deep_view(),
            out.deep_view() == invariants_modified(start, all.take(i as int)),
        decreases changes.len() - i,
    {
        proof {
            assert(all.take(i + 1).drop_last() == all.take(i as int));
        }
        match find_invariant(&out, changes[i].name.as_str()) {
            Some(at) => {
                out.set(at, changes[i].clone());
            },
            None => {},
        }
        i += 1;
    }
    assert(all.take(i as int) == all);
    out
}

fn extend_list(
    base: &Vec<InvariantDef>,
    remove: Option<&Vec<String>>,
    modify: Option<&Vec<InvariantDef>>,
    add: Option<&Vec<InvariantDef>>,
) -> (r: Vec<InvariantDef>)
    ensures
        r.deep_view() == extended_list(
            base.deep_view(),
            remove.deep_view(),
            modify.deep_view(),
            add.deep_view(),
        ),
{
    let kept = match remove {
        Some(names) => remove_invariants(base, names),
        None => crate::invariants::clone_invariants(base),
    };
    let changed = match modify {
        Some(changes) => modify_invariants(kept, changes),
        None => kept,
    };
    match add {
        Some(more) => {
            let mut out = changed;
            let mut extra = crate::invariants::clone_invariants(more);
            out.append(&mut extra);
            out
        },
        None => changed,
    }
}

fn find_invalid(defs: &Vec<InvariantDef>) -> (r: Option<(usize, String)>)
    ensures
        match r {
            Some((i, msg)) => first_invalid(defs.deep_view()) == Some(i as int) && i < defs.len()
                && defs.deep_view()[i as int].check.problem() == Some(msg@),
            None => first_invalid(defs.deep_view()).is_none(),
        },
{
    let ghost all = defs.deep_view();
    let mut i: usize = 0;
    while i < defs.len()
        invariant
            i <= defs.len(),
            all == defs.deep_view(),
            first_invalid(all.take(i as int)).is_none(),
        decreases defs.len() - i,
    {
        proof {
            assert(all.take(i + 1).drop_last() == all.take(i as int));
        }
        match defs[i].check.validate() {
            Err(msg) => {
                proof {
                    lemma_first_invalid_prefix(all, i + 1);
                }
                return Some((i, msg));
            },
            Ok(_) => {},
        }
        i += 1;
    }
    assert(all.take(i as int) == all);
    None
}

/// What is found in a prefix is found at the same place in the whole list.
pub proof fn lemma_first_invalid_prefix(defs: Seq<InvariantDefModel>, k: int)
    requires
        0 <= k <= defs.len(),
        first_invalid(defs.take(k)).is_some(),
    ensures
        first_invalid(defs) == first_invalid(defs.take(k)),
    decreases defs.len() - k,
{
    if k < defs.len() {
        assert(defs.take(k + 1).drop_last() == defs.take(k));
        lemma_first_invalid_prefix(defs, k + 1);
    } else {
        assert(defs.take(k) == defs);
    }
}

fn invalid_error(def: &InvariantDef, phase: &str, problem: &String) -> (r: BqDriftError)
    requires
        def.deep_view().check.problem() == Some(problem@),
    ensures
        r.deep_view() == BqDriftErrorModel::Validation(invalid_message(def.deep_view(), phase@)),
{
    let mut message = String::from_str("Invariant '");
    message.append(def.name.as_str());
    message.append("' (");
    message.append(phase);
    message.append("): ");
    message.append(problem.as_str());
    BqDriftError::Validation(message)
}

/// Resolves references between the versions of one query.
pub struct VariableResolver {}

impl VariableResolver {
    /// A resolver.
    pub fn new() -> (r: Self) {
        VariableResolver {  }
    }

    /// Whether `s` holds a reference to a field of a version.
    pub fn is_variable_ref(&self, s: &str) -> (r: bool)
        ensures
            r == first_match(VARIABLE_PATTERN@, s@).is_some(),
            r == !(parsed_ref(s@) is NoMatch),
    {
        regex_captures(VARIABLE_PATTERN, s).is_some()
    }

    /// What `s` says as a reference.
    pub fn parse_reference(&self, s: &str) -> (r: ParsedRef)
        ensures
            r.deep_view() == parsed_ref(s@),
    {
        Self::interpret_captures(regex_captures(VARIABLE_PATTERN, s))
    }

    /// What the capture groups of the reference pattern say.
    pub fn interpret_captures(groups: Option<Vec<Option<String>>>) -> (r: ParsedRef)
        ensures
            r.deep_view() == interpreted(groups.deep_view()),
    {
        match groups {
            None => ParsedRef::NoMatch,
            Some(g) => {
                if g.len() < 3 {
                    return ParsedRef::Malformed;
                }
                let version = match &g[1] {
                    Some(digits) => match parse_u32(digits.as_str()) {
                        Some(v) => v,
                        None => {
                            return ParsedRef::Malformed;
                        },
                    },
                    None => {
                        return ParsedRef::Malformed;
                    },
                };
                match &g[2] {
                    Some(field) => ParsedRef::Version { version, field: field.clone() },
                    None => ParsedRef::Malformed,
                }
            },
        }
    }

    /// The version that the reference text `text` names, where it names the field
    /// `expected`.
    pub fn target_version(&self, text: &str, expected: &str) -> (r: Result<u32, BqDriftError>)
        ensures
            match r {
                Ok(version) => reference_target(parsed_ref(text@), text@, expected@) == Ok::<
                    u32,
                    BqDriftErrorModel,
                >(version),
                Err(e) => reference_target(parsed_ref(text@), text@, expected@) == Err::<
                    u32,
                    BqDriftErrorModel,
                >(e.deep_view()),
            },
    {
        Self::target_of(self.parse_reference(text), text, expected)
    }

    /// The version that a parsed reference names, where it names the field `expected`;
    /// `text` is the text that was parsed.
    pub fn target_of(parsed: ParsedRef, text: &str, expected: &str) -> (r: Result<
        u32,
        BqDriftError,
    >)
        ensures
            match r {
                Ok(version) => reference_target(parsed.deep_view(), text@, expected@) == Ok::<
                    u32,
                    BqDriftErrorModel,
                >(version),
                Err(e) => reference_target(parsed.deep_view(), text@, expected@) == Err::<
                    u32,
                    BqDriftErrorModel,
                >(e.deep_view()),
            },
    {
        match parsed {
            ParsedRef::Version { version, field } => {
                if field.as_str().eq(expected) {
                    Ok(version)
                } else {
                    let mut message = String::from_str("Expected '");
                    message.append(expected);
                    message.append("' field, got '");
                    message.append(field.as_str());
                    message.append("'");
                    Err(BqDriftError::VariableResolution(message))
                }
            },
            _ => Err(BqDriftError::InvalidVersionRef(String::from_str(text))),
        }
    }

    /// The schema that `schema_ref` stands for. An inline schema stands for itself; a
    /// reference stands for the schema of the version it names; an extension stands
    /// for the schema of its base version after remove, modify and add. A reference
    /// to a version that is not among `resolved_versions` is rejected with
    /// `InvalidVersionRef`.
    pub fn resolve_schema(
        &self,
        schema_ref: &SchemaRef,
        resolved_versions: &HashMap<u32, Schema>,
    ) -> (r: Result<Schema, BqDriftError>)
        ensures
            deep_result(r) == resolved_schema(
                schema_ref.deep_view(),
                schema_models(resolved_versions@),
            ),
    {
        broadcast use vstd::std_specs::hash::group_hash_axioms;

        match schema_ref {
            SchemaRef::Inline(fields) => Ok(Schema::from_fields(clone_fields(fields))),
            SchemaRef::Reference(ref_str) => {
                let version = match self.extract_version_ref(ref_str.as_str()) {
                    Ok(v) => v,
                    Err(e) => {
                        return Err(e);
                    },
                };
                match resolved_versions.get(&version) {
                    Some(schema) => Ok(schema.clone()),
                    None => Err(
                        version_error("Version ", version, " not found or not yet resolved"),
                    ),
                }
            },
            SchemaRef::Extended(ext) => self.resolve_extended_schema(ext, resolved_versions),
        }
    }

    fn resolve_extended_schema(
        &self,
        ext: &ExtendedSchema,
        resolved_versions: &HashMap<u32, Schema>,
    ) -> (r: Result<Schema, BqDriftError>)
        ensures
            deep_result(r) == resolved_schema(
                SchemaRefModel::Extended(ext.deep_view()),
                schema_models(resolved_versions@),
            ),
    {
        broadcast use vstd::std_specs::hash::group_hash_axioms;

        let base_version = match self.extract_version_ref(ext.base.as_str()) {
            Ok(v) => v,
            Err(e) => {
                return Err(e);
            },
        };
        let base_schema = match resolved_versions.get(&base_version) {
            Some(schema) => schema,
            None => {
                return Err(version_error("Base version ", base_version, " not found"));
            },
        };
        let kept = remove_fields(&base_schema.fields, &ext.remove);
        let changed = modify_fields(kept, &ext.modify);
        let fields = append_fields(changed, &ext.add);
        Ok(Schema::from_fields(fields))
    }

    fn extract_version_ref(&self, ref_str: &str) -> (r: Result<u32, BqDriftError>)
        ensures
            match r {
                Ok(version) => reference_target(parsed_ref(ref_str@), ref_str@, "schema"@) == Ok::<
                    u32,
                    BqDriftErrorModel,
                >(version),
                Err(e) => reference_target(parsed_ref(ref_str@), ref_str@, "schema"@) == Err::<
                    u32,
                    BqDriftErrorModel,
                >(e.deep_view()),
            },
    {
        self.target_version(ref_str, "schema")
    }

    /// The SQL that `sql_ref` stands for: the text itself where it holds no reference,
    /// and the SQL of the version it names otherwise.
    pub fn resolve_sql_ref(&self, sql_ref: &str, resolved_sqls: &HashMap<u32, String>) -> (r:
        Result<String, BqDriftError>)
        ensures
            match r {
                Ok(sql) => resolved_sql(sql_ref@, sql_models(resolved_sqls@)) == Ok::<
                    Seq<char>,
                    BqDriftErrorModel,
                >(sql@),
                Err(e) => resolved_sql(sql_ref@, sql_models(resolved_sqls@)) == Err::<
                    Seq<char>,
                    BqDriftErrorModel,
                >(e.deep_view()),
            },
    {
        broadcast use vstd::std_specs::hash::group_hash_axioms;

        let parsed = self.parse_reference(sql_ref);
        match parsed {
            ParsedRef::NoMatch => Ok(String::from_str(sql_ref)),
            _ => {
                let version = match Self::target_of(parsed, sql_ref, "sql") {
                    Ok(v) => v,
                    Err(e) => {
                        return Err(e);
                    },
                };
                match resolved_sqls.get(&version) {
                    Some(sql) => Ok(sql.clone()),
                    None => Err(version_error("SQL for version ", version, " not found")),
                }
            },
        }
    }

    /// The invariants that `inv_ref` stands for, validated: none where nothing is
    /// declared; those of the version it names for a reference; those of its base
    /// version after remove, modify and add for an extension. Rejected with
    /// `Validation` when a check among them is misconfigured.
    pub fn resolve_invariants(
        &self,
        inv_ref: &Option<InvariantsRef>,
        resolved_versions: &HashMap<u32, InvariantsDef>,
    ) -> (r: Result<InvariantsDef, BqDriftError>)
        ensures
            deep_result(r) == resolved_invariants(
                inv_ref.deep_view(),
                invariants_models(resolved_versions@),
            ),
    {
        broadcast use vstd::std_specs::hash::group_hash_axioms;

        let result = match inv_ref {
            None => InvariantsDef::default(),
            Some(InvariantsRef::Inline(def)) => def.clone(),
            Some(InvariantsRef::Reference(ref_str)) => {
                let version = match self.extract_invariants_version_ref(ref_str.as_str()) {
                    Ok(v) => v,
                    Err(e) => {
                        return Err(e);
                    },
                };
                match resolved_versions.get(&version) {
                    Some(def) => def.clone(),
                    None => {
                        return Err(
                            version_error(
                                "Invariants for version ",
                                version,
                                " not found or not yet resolved",
                            ),
                        );
                    },
                }
            },
            Some(InvariantsRef::Extended(ext)) => match self.resolve_extended_invariants(
                ext,
                resolved_versions,
            ) {
                Ok(def) => def,
                Err(e) => {
                    return Err(e);
                },
            },
        };
        match self.validate_invariants_def(&result) {
            Ok(_) => Ok(result),
            Err(e) => Err(e),
        }
    }

    /// Checks the configuration of each check: `Ok` when all are well configured,
    /// and otherwise `Validation` for the first that is not, those before the write
    /// first.
    pub fn validate_invariants_def(&self, def: &InvariantsDef) -> (r: Result<(), BqDriftError>)
        ensures
            match r {
                Ok(_) => validation_error(def.deep_view()).is_none(),
                Err(e) => validation_error(def.deep_view()) == Some(e.deep_view()),
            },
    {
        match find_invalid(&def.before) {
            Some((i, problem)) => {
                return Err(invalid_error(&def.before[i], "before", &problem));
            },
            None => {},
        }
        match find_invalid(&def.after) {
            Some((i, problem)) => {
                return Err(invalid_error(&def.after[i], "after", &problem));
            },
            None => {},
        }
        Ok(())
    }

    fn resolve_extended_invariants(
        &self,
        ext: &ExtendedInvariants,
        resolved_versions: &HashMap<u32, InvariantsDef>,
    ) -> (r: Result<InvariantsDef, BqDriftError>)
        ensures
            deep_result(r) == referenced_invariants(
                Some(InvariantsRefModel::Extended(ext.deep_view())),
                invariants_models(resolved_versions@),
            ),
    {
        broadcast use vstd::std_specs::hash::group_hash_axioms;

        let base_version = match self.extract_invariants_version_ref(ext.base.as_str()) {
            Ok(v) => v,
            Err(e) => {
                return Err(e);
            },
        };
        let base = match resolved_versions.get(&base_version) {
            Some(def) => def,
            None => {
                return Err(version_error("Base invariants version ", base_version, " not found"));
            },
        };
        let before = extend_list(
            &base.before,
            match &ext.remove {
                Some(r) => Some(&r.before),
                None => None,
            },
            match &ext.modify {
                Some(m) => Some(&m.before),
                None => None,
            },
            match &ext.add {
                Some(a) => Some(&a.before),
                None => None,
            },
        );
        let after = extend_list(
            &base.after,
            match &ext.remove {
                Some(r) => Some(&r.after),
                None => None,
            },
            match &ext.modify {
                Some(m) => Some(&m.after),
                None => None,
            },
            match &ext.add {
                Some(a) => Some(&a.after),
                None => None,
            },
        );
        Ok(InvariantsDef { before, after })
    }

    fn extract_invariants_version_ref(&self, ref_str: &str) -> (r: Result<u32, BqDriftError>)
        ensures
            match r {
                Ok(version) => reference_target(parsed_ref(ref_str@), ref_str@, "invariants"@)
                    == Ok::<u32, BqDriftErrorModel>(version),
                Err(e) => reference_target(parsed_ref(ref_str@), ref_str@, "invariants"@) == Err::<
                    u32,
                    BqDriftErrorModel,
                >(e.deep_view()),
            },
    {
        self.target_version(ref_str, "invariants")
    }
}

impl Default for VariableResolver {
    fn default() -> (r: Self) {
        VariableResolver::new()
    }
}

} // verus!

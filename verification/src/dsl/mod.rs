//! Declarations of queries: the raw records, the resolved queries, and how one becomes
//! the other.

mod dependencies;
mod loader;
mod parser;
mod preprocessor;
mod resolver;

pub use dependencies::{
    dependencies_of, deduped, lowered, tables_of, to_lowercase, SqlDependencies, TABLE_PATTERN,
};
pub use loader::{
    in_order, insertion_point, loaded, Loaded, invariants_target, resolution, resolved_query, resolved_revisions,
    resolved_version, schema_target, sort_order, sorted_versions, sorts_before_or_with,
    QueryLoader, Resolution,
};
pub use parser::{
    Destination, DestinationModel, ExtendedSchema, ExtendedSchemaModel, QueryDef, QueryDefModel,
    RawQueryDef, RawQueryDefModel, RawVersionDef, RawVersionDefModel, ResolvedRevision,
    ResolvedRevisionModel, Revision, RevisionModel, SchemaRef, SchemaRefModel, VersionDef,
    VersionDefModel,
};
pub use preprocessor::{
    after_blanks, after_word, cycle_message, first_include, include_at, spliced, Include,
    YamlPreprocessor, INCLUDE_DIRECTIVE,
};
pub use resolver::{
    extended_fields, extended_invariants, extended_list, field_replaced, fields_modified,
    fields_without, first_invalid, interpreted, invalid_message, invariant_position,
    invariants_models, invariants_modified, invariants_without, parsed_ref, reference_target,
    referenced_invariants, resolved_invariants, resolved_schema, resolved_sql, schema_models,
    sql_models, validation_error, version_message, wrong_field_message, ParsedRef, ParsedRefModel,
    VariableResolver, VARIABLE_PATTERN,
};

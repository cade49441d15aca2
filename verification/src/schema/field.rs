//! One column of a destination table.

use vstd::prelude::*;
use crate::text::clone_opt_string;

verus! {

/// The warehouse's column types.
#[derive(Clone, Copy, Debug, PartialEq, Eq, Hash)]
pub enum BqType {
    String,
    Int64,
    Float64,
    Numeric,
    Bignumeric,
    Bool,
    Bytes,
    Date,
    Datetime,
    Time,
    Timestamp,
    Geography,
    Json,
    Record,
}

impl BqType {
    /// The type's name in the warehouse's dialect.
    pub open spec fn name(self) -> Seq<char> {
        match self {
            BqType::String => "STRING"@,
            BqType::Int64 => "INT64"@,
            BqType::Float64 => "FLOAT64"@,
            BqType::Numeric => "NUMERIC"@,
            BqType::Bignumeric => "BIGNUMERIC"@,
            BqType::Bool => "BOOL"@,
            BqType::Bytes => "BYTES"@,
            BqType::Date => "DATE"@,
            BqType::Datetime => "DATETIME"@,
            BqType::Time => "TIME"@,
            BqType::Timestamp => "TIMESTAMP"@,
            BqType::Geography => "GEOGRAPHY"@,
            BqType::Json => "JSON"@,
            BqType::Record => "RECORD"@,
        }
    }

    /// The type's name in the warehouse's dialect.
    pub fn as_str(&self) -> (r: &'static str)
        ensures
            r@ == self.name(),
    {
        match self {
            BqType::String => "STRING",
            BqType::Int64 => "INT64",
            BqType::Float64 => "FLOAT64",
            BqType::Numeric => "NUMERIC",
            BqType::Bignumeric => "BIGNUMERIC",
            BqType::Bool => "BOOL",
            BqType::Bytes => "BYTES",
            BqType::Date => "DATE",
            BqType::Datetime => "DATETIME",
            BqType::Time => "TIME",
            BqType::Timestamp => "TIMESTAMP",
            BqType::Geography => "GEOGRAPHY",
            BqType::Json => "JSON",
            BqType::Record => "RECORD",
        }
    }
}

/// Whether a column may be absent or repeated.
#[derive(Clone, Copy, Debug, PartialEq, Eq, Hash)]
pub enum FieldMode {
    Required,
    Nullable,
    Repeated,
}

impl FieldMode {
    /// The mode's name in the warehouse's dialect.
    pub open spec fn name(self) -> Seq<char> {
        match self {
            FieldMode::Required => "REQUIRED"@,
            FieldMode::Nullable => "NULLABLE"@,
            FieldMode::Repeated => "REPEATED"@,
        }
    }

    /// The mode's name in the warehouse's dialect.
    pub fn as_str(&self) -> (r: &'static str)
        ensures
            r@ == self.name(),
    {
        match self {
            FieldMode::Required => "REQUIRED",
            FieldMode::Nullable => "NULLABLE",
            FieldMode::Repeated => "REPEATED",
        }
    }
}

/// A named, typed column.
#[derive(Debug, PartialEq, Eq)]
pub struct Field {
    pub name: String,
    pub bq_type: BqType,
    pub mode: FieldMode,
    pub description: Option<String>,
}

/// What a [`Field`] holds.
pub struct FieldModel {
    pub name: Seq<char>,
    pub bq_type: BqType,
    pub mode: FieldMode,
    pub description: Option<Seq<char>>,
}

impl DeepView for Field {
    type V = FieldModel;

    open spec fn deep_view(&self) -> FieldModel {
        FieldModel {
            name: self.name@,
            bq_type: self.bq_type,
            mode: self.mode,
            description: self.description.deep_view(),
        }
    }
}

impl Clone for Field {
    fn clone(&self) -> (r: Self)
        ensures
            r.deep_view() == self.deep_view(),
    {
        Field {
            name: self.name.clone(),
            bq_type: self.bq_type,
            mode: self.mode,
            description: clone_opt_string(&self.description),
        }
    }
}

impl FieldModel {
    /// The column's line in the canonical text of a schema:
    /// name, type, mode and description (empty when absent), separated by `|`.
    pub open spec fn canonical(self) -> Seq<char> {
        self.name + seq!['|'] + self.bq_type.name() + seq!['|'] + self.mode.name() + seq!['|']
            + match self.description {
            Some(d) => d,
            None => Seq::empty(),
        }
    }
}

impl Field {
    /// A nullable column without a description.
    pub fn new(name: &str, bq_type: BqType) -> (r: Field)
        ensures
            r.deep_view() == (FieldModel {
                name: name@,
                bq_type,
                mode: FieldMode::Nullable,
                description: None,
            }),
    {
        Field { name: String::from_str(name), bq_type, mode: FieldMode::Nullable, description: None }
    }

    /// The same column with the given mode.
    pub fn with_mode(self, mode: FieldMode) -> (r: Field)
        ensures
            r.deep_view() == (FieldModel { mode, ..self.deep_view() }),
    {
        Field { mode, ..self }
    }

    /// The same column with the given description.
    pub fn with_description(self, description: &str) -> (r: Field)
        ensures
            r.deep_view() == (FieldModel { description: Some(description@), ..self.deep_view() }),
    {
        Field { description: Some(String::from_str(description)), ..self }
    }

    /// Appends the column's canonical line to `out`.
    pub fn push_canonical(&self, out: &mut String)
        ensures
            final(out)@ == old(out)@ + self.deep_view().canonical(),
    {
        out.append(self.name.as_str());
        out.push('|');
        out.append(self.bq_type.as_str());
        out.push('|');
        out.append(self.mode.as_str());
        out.push('|');
        match &self.description {
            Some(d) => {
                out.append(d.as_str());
            },
            None => {},
        }
    }
}

} // verus!

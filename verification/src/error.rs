//! The error type shared by the loader, the detector and the executor.

use vstd::prelude::*;

verus! {

/// What went wrong, with a message for the operator.
#[derive(Debug, PartialEq, Eq)]
pub enum BqDriftError {
    /// A file could not be read.
    Io(String),
    /// A declaration is malformed, or its preprocessing failed.
    DslParse(String),
    /// A version reference is malformed or names a version that is not resolved yet.
    InvalidVersionRef(String),
    /// A version reference is well formed but names the wrong field.
    VariableResolution(String),
    /// A schema, cluster or invariant declaration is misconfigured.
    Validation(String),
    /// No version is in effect for a partition, or the partition field is missing.
    Partition(String),
    /// The runner was asked for a query it does not know.
    QueryNotFound(String),
    /// A check of error severity failed before the write.
    InvariantFailed(String),
    /// The warehouse client returned an error.
    Execution(String),
}

/// What a [`BqDriftError`] holds.
pub enum BqDriftErrorModel {
    Io(Seq<char>),
    DslParse(Seq<char>),
    InvalidVersionRef(Seq<char>),
    VariableResolution(Seq<char>),
    Validation(Seq<char>),
    Partition(Seq<char>),
    QueryNotFound(Seq<char>),
    InvariantFailed(Seq<char>),
    Execution(Seq<char>),
}

impl DeepView for BqDriftError {
    type V = BqDriftErrorModel;

    open spec fn deep_view(&self) -> BqDriftErrorModel {
        match self {
            BqDriftError::Io(m) => BqDriftErrorModel::Io(m@),
            BqDriftError::DslParse(m) => BqDriftErrorModel::DslParse(m@),
            BqDriftError::InvalidVersionRef(m) => BqDriftErrorModel::InvalidVersionRef(m@),
            BqDriftError::VariableResolution(m) => BqDriftErrorModel::VariableResolution(m@),
            BqDriftError::Validation(m) => BqDriftErrorModel::Validation(m@),
            BqDriftError::Partition(m) => BqDriftErrorModel::Partition(m@),
            BqDriftError::QueryNotFound(m) => BqDriftErrorModel::QueryNotFound(m@),
            BqDriftError::InvariantFailed(m) => BqDriftErrorModel::InvariantFailed(m@),
            BqDriftError::Execution(m) => BqDriftErrorModel::Execution(m@),
        }
    }
}

/// What a result holds: what its value holds, or what its error holds.
pub open spec fn deep_result<T: DeepView, E: DeepView>(r: Result<T, E>) -> Result<T::V, E::V> {
    match r {
        Ok(value) => Ok(value.deep_view()),
        Err(error) => Err(error.deep_view()),
    }
}

impl BqDriftError {
    /// The message that the error carries.
    pub open spec fn message(self) -> Seq<char> {
        match self {
            BqDriftError::Io(m) => m@,
            BqDriftError::DslParse(m) => m@,
            BqDriftError::InvalidVersionRef(m) => m@,
            BqDriftError::VariableResolution(m) => m@,
            BqDriftError::Validation(m) => m@,
            BqDriftError::Partition(m) => m@,
            BqDriftError::QueryNotFound(m) => m@,
            BqDriftError::InvariantFailed(m) => m@,
            BqDriftError::Execution(m) => m@,
        }
    }

    /// What the error's kind is called in its text.
    pub open spec fn label(self) -> Seq<char> {
        match self {
            BqDriftError::Io(_) => "IO error"@,
            BqDriftError::DslParse(_) => "DSL parse error"@,
            BqDriftError::InvalidVersionRef(_) => "Invalid version reference"@,
            BqDriftError::VariableResolution(_) => "Variable resolution error"@,
            BqDriftError::Validation(_) => "Validation error"@,
            BqDriftError::Partition(_) => "Partition error"@,
            BqDriftError::QueryNotFound(_) => "Query not found"@,
            BqDriftError::InvariantFailed(_) => "Invariant check failed"@,
            BqDriftError::Execution(_) => "Execution error"@,
        }
    }

    /// The error as one line of text: the kind's label, a colon and the message.
    pub open spec fn to_string_text(self) -> Seq<char> {
        self.label() + ": "@ + self.message()
    }

    /// The error as one line of text: the kind's label, a colon and the message.
    pub fn to_string(&self) -> (r: String)
        ensures
            r@ == self.to_string_text(),
    {
        let (label, message): (&str, &String) = match self {
            BqDriftError::Io(m) => ("IO error", m),
            BqDriftError::DslParse(m) => ("DSL parse error", m),
            BqDriftError::InvalidVersionRef(m) => ("Invalid version reference", m),
            BqDriftError::VariableResolution(m) => ("Variable resolution error", m),
            BqDriftError::Validation(m) => ("Validation error", m),
            BqDriftError::Partition(m) => ("Partition error", m),
            BqDriftError::QueryNotFound(m) => ("Query not found", m),
            BqDriftError::InvariantFailed(m) => ("Invariant check failed", m),
            BqDriftError::Execution(m) => ("Execution error", m),
        };
        let mut out = String::from_str(label);
        out.append(": ");
        out.append(message.as_str());
        out
    }
}

} // verus!

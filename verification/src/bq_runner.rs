//! Files of queries on disk, and the stand-in executor.

use vstd::prelude::*;
use crate::executor::QueryResult;

verus! {

/// What went wrong while files were loaded or statements run.
#[derive(Debug, PartialEq, Eq)]
pub enum BqRunnerError {
    /// A file could not be read; the text is that of the system's error.
    Io(String),
    /// A statement or a search for files failed.
    Execution(String),
}

impl BqRunnerError {
    /// The message that the error carries.
    pub open spec fn message(self) -> Seq<char> {
        match self {
            BqRunnerError::Io(m) => m@,
            BqRunnerError::Execution(m) => m@,
        }
    }

    /// The error as one line of text.
    pub open spec fn text(self) -> Seq<char> {
        match self {
            BqRunnerError::Io(m) => "IO error: "@ + m@,
            BqRunnerError::Execution(m) => "Execution error: "@ + m@,
        }
    }

    /// The error as one line of text.
    pub fn to_string(&self) -> (r: String)
        ensures
            r@ == self.text(),
    {
        match self {
            BqRunnerError::Io(m) => {
                let mut out = String::from_str("IO error: ");
                out.append(m.as_str());
                out
            },
            BqRunnerError::Execution(m) => {
                let mut out = String::from_str("Execution error: ");
                out.append(m.as_str());
                out
            },
        }
    }
}

/// A file and what it holds.
#[derive(Debug, PartialEq, Eq)]
pub struct SqlFile {
    pub path: String,
    pub content: String,
}

impl Clone for SqlFile {
    fn clone(&self) -> (r: Self)
        ensures
            r.path@ == self.path@,
            r.content@ == self.content@,
    {
        SqlFile { path: self.path.clone(), content: self.content.clone() }
    }
}

/// The pattern that finds the files with the extension `extension` under the directory
/// `path`, at any depth: `path/**/*.extension`.
pub open spec fn search_pattern(path: Seq<char>, extension: Seq<char>) -> Seq<char> {
    path + "/**/*."@ + extension
}

/// Finds files by extension.
pub struct FileLoader {}

impl FileLoader {
    /// The pattern that finds the files with the extension `extension` under `path`.
    pub fn pattern(path: &str, extension: &str) -> (r: String)
        ensures
            r@ == search_pattern(path@, extension@),
    {
        let mut out = String::from_str(path);
        out.append("/**/*.");
        out.append(extension);
        out
    }
}

/// Finds files of SQL.
pub struct SqlLoader {}

impl SqlLoader {
    /// The pattern that finds the files of SQL under `path`.
    pub fn pattern(path: &str) -> (r: String)
        ensures
            r@ == search_pattern(path@, "sql"@),
    {
        FileLoader::pattern(path, "sql")
    }
}

/// What stands behind an [`Executor`].
#[derive(Clone, Copy, Debug, PartialEq, Eq)]
pub enum ExecutorMode {
    Mock,
    BigQuery,
}

/// A stand-in for the warehouse that runs nothing.
#[derive(Debug)]
pub struct Executor {
    mode: ExecutorMode,
}

impl Executor {
    /// What stands behind the executor.
    pub closed spec fn spec_mode(&self) -> ExecutorMode {
        self.mode
    }

    /// An executor of mock mode.
    pub fn mock() -> (r: Result<Self, BqRunnerError>)
        ensures
            r matches Ok(e) && e.spec_mode() == ExecutorMode::Mock,
    {
        Ok(Executor { mode: ExecutorMode::Mock })
    }

    /// An executor of warehouse mode.
    pub fn bigquery() -> (r: Result<Self, BqRunnerError>)
        ensures
            r matches Ok(e) && e.spec_mode() == ExecutorMode::BigQuery,
    {
        Ok(Executor { mode: ExecutorMode::BigQuery })
    }

    /// What stands behind the executor.
    #[verifier::when_used_as_spec(spec_mode)]
    pub fn mode(&self) -> (r: ExecutorMode)
        ensures
            r == self.spec_mode(),
    {
        self.mode
    }

    /// Runs no statement and reports no row written.
    pub fn execute(&self, _sql: &str) -> (r: Result<u64, BqRunnerError>)
        ensures
            r == Ok::<u64, BqRunnerError>(0),
    {
        Ok(0)
    }

    /// Runs no query and reports an empty result.
    pub fn query(&self, _sql: &str) -> (r: Result<QueryResult, BqRunnerError>)
        ensures
            r matches Ok(result) && result.columns@.len() == 0 && result.rows@.len() == 0,
    {
        Ok(QueryResult::empty())
    }
}

} // verus!

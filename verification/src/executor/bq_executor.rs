//! What the warehouse hands back for a query.

use vstd::prelude::*;

verus! {

/// A column as it is declared for a table.
#[derive(Debug, PartialEq, Eq)]
pub struct ColumnDef {
    pub name: String,
    pub column_type: String,
}

/// A column as the warehouse reports it for a result.
#[derive(Debug, PartialEq, Eq)]
pub struct ColumnInfo {
    pub name: String,
    pub column_type: String,
}

/// The rows of a result, each cell as text, under the result's columns.
#[derive(Clone, Debug, PartialEq, Eq)]
pub struct QueryResult {
    pub columns: Vec<ColumnInfo>,
    pub rows: Vec<Vec<String>>,
}

impl DeepView for ColumnDef {
    type V = (Seq<char>, Seq<char>);

    /// The name and the type.
    open spec fn deep_view(&self) -> (Seq<char>, Seq<char>) {
        (self.name@, self.column_type@)
    }
}

impl DeepView for ColumnInfo {
    type V = (Seq<char>, Seq<char>);

    /// The name and the type.
    open spec fn deep_view(&self) -> (Seq<char>, Seq<char>) {
        (self.name@, self.column_type@)
    }
}

impl Clone for ColumnDef {
    fn clone(&self) -> (r: Self)
        ensures
            r.deep_view() == self.deep_view(),
    {
        ColumnDef { name: self.name.clone(), column_type: self.column_type.clone() }
    }
}

impl Clone for ColumnInfo {
    fn clone(&self) -> (r: Self)
        ensures
            r.deep_view() == self.deep_view(),
    {
        ColumnInfo { name: self.name.clone(), column_type: self.column_type.clone() }
    }
}

impl QueryResult {
    /// A result without columns and rows.
    pub fn empty() -> (r: QueryResult)
        ensures
            r.columns@.len() == 0,
            r.rows@.len() == 0,
    {
        QueryResult { columns: Vec::new(), rows: Vec::new() }
    }

    /// The number of rows.
    pub fn row_count(&self) -> (r: usize)
        ensures
            r == self.rows@.len(),
    {
        self.rows.len()
    }

    /// The place of the column called `name`, the first if several are.
    pub fn column_index(&self, name: &str) -> (r: Option<usize>)
        ensures
            match r {
                Some(i) => i < self.columns@.len() && self.columns@[i as int].name@ == name@
                    && forall|j: int| 0 <= j < i ==> (#[trigger] self.columns@[j]).name@ != name@,
                None => forall|j: int|
                    0 <= j < self.columns@.len() ==> (#[trigger] self.columns@[j]).name@ != name@,
            },
    {
        let mut i: usize = 0;
        while i < self.columns.len()
            invariant
                i <= self.columns.len(),
                forall|j: int| 0 <= j < i ==> (#[trigger] self.columns@[j]).name@ != name@,
            decreases self.columns.len() - i,
        {
            if self.columns[i].name.as_str().eq(name) {
                return Some(i);
            }
            i += 1;
        }
        None
    }
}

} // verus!

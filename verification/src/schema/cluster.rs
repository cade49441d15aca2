//! Clustering columns of a destination table.

use vstd::prelude::*;
use crate::error::BqDriftError;
use crate::text::clone_strings;

verus! {

/// The most columns a table can be clustered by.
pub const MAX_CLUSTER_FIELDS: usize = 4;

/// The columns a table is clustered by, in order: at least one and at most four.
#[derive(Debug, PartialEq, Eq)]
pub struct ClusterConfig {
    fields: Vec<String>,
}

impl DeepView for ClusterConfig {
    type V = Seq<Seq<char>>;

    /// The clustering columns, in order.
    closed spec fn deep_view(&self) -> Seq<Seq<char>> {
        self.fields.deep_view()
    }
}

/// What is wrong with clustering by `count` columns, if anything.
pub open spec fn cluster_problem(count: nat) -> Option<Seq<char>> {
    if count == 0 {
        Some("cluster fields must not be empty"@)
    } else if count > MAX_CLUSTER_FIELDS {
        Some("at most 4 cluster fields are allowed"@)
    } else {
        None
    }
}

impl ClusterConfig {
    #[verifier::type_invariant]
    spec fn well_formed(self) -> bool {
        1 <= self.fields@.len() <= MAX_CLUSTER_FIELDS
    }

    /// Clusters by `fields`. Rejected with `Validation` when `fields` is empty or
    /// holds more than four columns.
    pub fn new(fields: Vec<String>) -> (r: Result<ClusterConfig, BqDriftError>)
        ensures
            match r {
                Ok(c) => c.deep_view() == fields.deep_view() && cluster_problem(
                    fields@.len(),
                ).is_none(),
                Err(e) => cluster_problem(fields@.len()) == Some(e.message()) && e is Validation,
            },
    {
        if fields.len() == 0 {
            Err(BqDriftError::Validation(String::from_str("cluster fields must not be empty")))
        } else if fields.len() > MAX_CLUSTER_FIELDS {
            Err(BqDriftError::Validation(String::from_str("at most 4 cluster fields are allowed")))
        } else {
            Ok(ClusterConfig { fields })
        }
    }

    /// The clustering columns, in order.
    pub fn fields(&self) -> (r: &Vec<String>)
        ensures
            r.deep_view() == self.deep_view(),
            1 <= r@.len() <= MAX_CLUSTER_FIELDS,
    {
        proof {
            use_type_invariant(self);
        }
        &self.fields
    }
}

impl Clone for ClusterConfig {
    fn clone(&self) -> (r: Self)
        ensures
            r.deep_view() == self.deep_view(),
    {
        proof {
            use_type_invariant(self);
        }
        let fields = clone_strings(&self.fields);
        assert(self.fields@.len() == self.fields.deep_view().len());
        ClusterConfig { fields }
    }
}

} // verus!

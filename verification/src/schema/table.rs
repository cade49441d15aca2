//! The ordered columns of a destination table.

use vstd::prelude::*;
use super::field::{Field, FieldModel};

verus! {

/// An ordered list of columns.
#[derive(Debug, PartialEq, Eq)]
pub struct Schema {
    pub fields: Vec<Field>,
}

impl DeepView for Schema {
    type V = Seq<FieldModel>;

    /// The columns, in order.
    open spec fn deep_view(&self) -> Seq<FieldModel> {
        self.fields.deep_view()
    }
}

impl Clone for Schema {
    fn clone(&self) -> (r: Self)
        ensures
            r.deep_view() == self.deep_view(),
    {
        Schema { fields: clone_fields(&self.fields) }
    }
}

impl Default for Schema {
    fn default() -> (r: Self)
        ensures
            r.deep_view() == Seq::<FieldModel>::empty(),
    {
        let r = Schema { fields: Vec::new() };
        r
    }
}

/// A copy of a list of columns.
pub fn clone_fields(fields: &Vec<Field>) -> (r: Vec<Field>)
    ensures
        r.deep_view() == fields.deep_view(),
{
    let out = fields.clone();
    out
}

/// The canonical text of a list of columns: one line per column, in order,
/// with a newline between lines and none at the end.
pub open spec fn canonical_text(fields: Seq<FieldModel>) -> Seq<char>
    decreases fields.len(),
{
    if fields.len() == 0 {
        Seq::empty()
    } else if fields.len() == 1 {
        fields[0].canonical()
    } else {
        canonical_text(fields.drop_last()) + seq!['\n'] + fields.last().canonical()
    }
}

/// The position of the first column called `name`, if there is one.
pub open spec fn position_of(fields: Seq<FieldModel>, name: Seq<char>) -> Option<int>
    decreases fields.len(),
{
    if fields.len() == 0 {
        None
    } else {
        match position_of(fields.drop_last(), name) {
            Some(i) => Some(i),
            None => if fields.last().name == name {
                Some(fields.len() - 1)
            } else {
                None
            },
        }
    }
}

/// `position_of` finds the first column of that name, and finds one whenever there is one.
pub proof fn lemma_position_of(fields: Seq<FieldModel>, name: Seq<char>)
    ensures
        match position_of(fields, name) {
            Some(i) => 0 <= i < fields.len() && fields[i].name == name && forall|j: int|
                0 <= j < i ==> (#[trigger] fields[j]).name != name,
            None => forall|j: int| 0 <= j < fields.len() ==> (#[trigger] fields[j]).name != name,
        },
    decreases fields.len(),
{
    if fields.len() > 0 {
        lemma_position_of(fields.drop_last(), name);
        match position_of(fields.drop_last(), name) {
            Some(i) => {
                assert forall|j: int| 0 <= j < i implies (#[trigger] fields[j]).name != name by {
                    assert(fields.drop_last()[j] == fields[j]);
                }
            },
            None => {
                assert forall|j: int| 0 <= j < fields.len() - 1 implies (#[trigger] fields[j]).name
                    != name by {
                    assert(fields.drop_last()[j] == fields[j]);
                }
            },
        }
    }
}

impl Schema {
    /// The schema with the given columns, in their order.
    pub fn from_fields(fields: Vec<Field>) -> (r: Schema)
        ensures
            r.deep_view() == fields.deep_view(),
    {
        Schema { fields }
    }

    /// The number of columns.
    pub fn len(&self) -> (r: usize)
        ensures
            r == self.deep_view().len(),
    {
        self.fields.len()
    }

    /// Whether the schema has no column.
    pub fn is_empty(&self) -> (r: bool)
        ensures
            r == (self.deep_view().len() == 0),
    {
        self.fields.len() == 0
    }

    /// The position of the first column called `name`.
    pub fn position(&self, name: &str) -> (r: Option<usize>)
        ensures
            match r {
                Some(i) => position_of(self.deep_view(), name@) == Some(i as int),
                None => position_of(self.deep_view(), name@).is_none(),
            },
    {
        let r = find_field(&self.fields, name);
        r
    }

    /// The text that stands for the schema when it is hashed.
    pub fn canonical(&self) -> (r: String)
        ensures
            r@ == canonical_text(self.deep_view()),
    {
        let mut out = String::new();
        let mut i: usize = 0;
        let ghost model = self.deep_view();
        while i < self.fields.len()
            invariant
                i <= self.fields.len(),
                model == self.fields.deep_view(),
                out@ == canonical_text(model.take(i as int)),
            decreases self.fields.len() - i,
        {
            if i > 0 {
                out.push('\n');
            }
            self.fields[i].push_canonical(&mut out);
            proof {
                let next = model.take(i + 1);
                assert(next.drop_last() == model.take(i as int));
            }
            i += 1;
        }
        assert(model.take(i as int) == model);
        out
    }
}

/// The position of the first column called `name` in `fields`.
pub fn find_field(fields: &Vec<Field>, name: &str) -> (r: Option<usize>)
    ensures
        match r {
            Some(i) => position_of(fields.deep_view(), name@) == Some(i as int),
            None => position_of(fields.deep_view(), name@).is_none(),
        },
{
    let ghost model = fields.deep_view();
    let mut i: usize = 0;
    while i < fields.len()
        invariant
            i <= fields.len(),
            model == fields.deep_view(),
            forall|j: int| 0 <= j < i ==> (#[trigger] model[j]).name != name@,
        decreases fields.len() - i,
    {
        if fields[i].name.as_str().eq(name) {
            proof {
                lemma_position_of(model, name@);
                assert(model[i as int].name == name@);
            }
            return Some(i);
        }
        i += 1;
    }
    proof {
        lemma_position_of(model, name@);
    }
    None
}

} // verus!

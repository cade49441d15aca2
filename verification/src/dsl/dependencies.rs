//! The tables that an SQL text reads from.

use vstd::prelude::*;
use crate::matcher::{group_matches, regex_group_matches};
use crate::text::{chars_of, string_of};

verus! {

/// A table name after `FROM` or `JOIN`, with or without backquotes: group 1 is the name.
pub const TABLE_PATTERN: &'static str = r"(?i)\b(?:FROM|JOIN)\s+`?([a-zA-Z0-9_-]+(?:\.[a-zA-Z0-9_-]+)*)`?";

/// The tables that an SQL text reads from: lower case, each once, in the order in which
/// they first occur.
#[derive(Clone, Debug, PartialEq, Eq)]
pub struct SqlDependencies {
    pub tables: Vec<String>,
}

impl DeepView for SqlDependencies {
    type V = Seq<Seq<char>>;

    open spec fn deep_view(&self) -> Seq<Seq<char>> {
        self.tables.deep_view()
    }
}

/// The lower-case form of an ASCII capital letter, and any other character unchanged.
pub open spec fn lower_char(c: char) -> char {
    if 'A' <= c <= 'Z' {
        ((c as u8) + 32) as char
    } else {
        c
    }
}

/// `text` with each ASCII capital letter in lower case.
pub open spec fn lowered(text: Seq<char>) -> Seq<char> {
    text.map_values(|c: char| lower_char(c))
}

/// `names` without the repetitions: each name stands where it first occurs.
pub open spec fn deduped(names: Seq<Seq<char>>) -> Seq<Seq<char>>
    decreases names.len(),
{
    if names.len() == 0 {
        Seq::empty()
    } else {
        let front = deduped(names.drop_last());
        if front.contains(names.last()) {
            front
        } else {
            front.push(names.last())
        }
    }
}

/// The tables that `sql` reads from, given what the table pattern's group holds in
/// each of its matches.
pub open spec fn tables_of(found: Seq<Seq<char>>) -> Seq<Seq<char>> {
    deduped(found.map_values(|name: Seq<char>| lowered(name)))
}

/// The tables that `sql` reads from.
pub open spec fn dependencies_of(sql: Seq<char>) -> Seq<Seq<char>> {
    tables_of(group_matches(TABLE_PATTERN@, sql, 1))
}

/// After the repetitions are dropped no name occurs twice, and the names are those that
/// occurred before.
pub proof fn lemma_deduped(names: Seq<Seq<char>>)
    ensures
        deduped(names).no_duplicates(),
        forall|name: Seq<char>| deduped(names).contains(name) <==> names.contains(name),
    decreases names.len(),
{
    if names.len() > 0 {
        let front = names.drop_last();
        lemma_deduped(front);
        let d = deduped(front);
        assert forall|name: Seq<char>| deduped(names).contains(name) <==> names.contains(
            name,
        ) by {
            if names.contains(name) {
                let i = choose|i: int| 0 <= i < names.len() && names[i] == name;
                if i < front.len() {
                    assert(front[i] == name);
                    assert(front.contains(name));
                    if !d.contains(names.last()) {
                        let k = choose|k: int| 0 <= k < d.len() && d[k] == name;
                        assert(d.push(names.last())[k] == name);
                    }
                } else {
                    if !d.contains(names.last()) {
                        assert(d.push(names.last())[d.len() as int] == name);
                    }
                }
            }
            if deduped(names).contains(name) {
                let k = choose|k: int| 0 <= k < deduped(names).len() && deduped(names)[k] == name;
                if k < d.len() {
                    assert(front.contains(name));
                }
            }
        }
    }
}

fn lower_of(c: char) -> (r: char)
    ensures
        r == lower_char(c),
{
    if c >= 'A' && c <= 'Z' {
        ((c as u8) + 32) as char
    } else {
        c
    }
}

/// `text` with each ASCII capital letter in lower case.
pub fn to_lowercase(text: &str) -> (r: String)
    ensures
        r@ == lowered(text@),
{
    let chars = chars_of(text);
    let mut out: Vec<char> = Vec::new();
    let mut i: usize = 0;
    while i < chars.len()
        invariant
            i <= chars.len(),
            chars@ == text@,
            out@ == lowered(text@).take(i as int),
        decreases chars.len() - i,
    {
        out.push(lower_of(chars[i]));
        i += 1;
    }
    string_of(&out)
}

fn contains_name(names: &Vec<String>, name: &str) -> (r: bool)
    ensures
        r == names.deep_view().contains(name@),
{
    let mut i: usize = 0;
    while i < names.len()
        invariant
            i <= names.len(),
            forall|j: int| 0 <= j < i ==> names.deep_view()[j] != name@,
        decreases names.len() - i,
    {
        if names[i].as_str().eq(name) {
            assert(names.deep_view()[i as int] == name@);
            return true;
        }
        i += 1;
    }
    false
}

impl SqlDependencies {
    /// The tables that `sql` reads from: what follows each `FROM` and `JOIN`.
    pub fn extract(sql: &str) -> (r: SqlDependencies)
        ensures
            r.deep_view() == dependencies_of(sql@),
            r.deep_view().no_duplicates(),
    {
        let found = regex_group_matches(TABLE_PATTERN, sql, 1);
        let r = SqlDependencies::from_matches(&found);
        r
    }

    /// The tables among `found`, the names that the table pattern matched: lower case,
    /// each once, in the order in which they first occur.
    pub fn from_matches(found: &Vec<String>) -> (r: SqlDependencies)
        ensures
            r.deep_view() == tables_of(found.deep_view()),
            r.deep_view().no_duplicates(),
    {
        let ghost names = found.deep_view().map_values(|name: Seq<char>| lowered(name));
        let mut tables: Vec<String> = Vec::new();
        let mut i: usize = 0;
        while i < found.len()
            invariant
                i <= found.len(),
                names == found.deep_view().map_values(|name: Seq<char>| lowered(name)),
                tables.deep_view() == deduped(names.take(i as int)),
            decreases found.len() - i,
        {
            let lower = to_lowercase(found[i].as_str());
            proof {
                assert(names.take(i + 1).drop_last() == names.take(i as int));
            }
            if !contains_name(&tables, lower.as_str()) {
                tables.push(lower);
            }
            i += 1;
        }
        proof {
            assert(names.take(i as int) == names);
            lemma_deduped(names);
        }
        SqlDependencies { tables }
    }
}

} // verus!

//! File inclusion in declaration texts.
//!
//! A declaration may pull in another file by the directive `!include`, followed by
//! blanks and the path of the file. The files are read elsewhere; what is decided here
//! is where the next directive stands, what a text becomes when the file's text takes
//! the directive's place, and whether a file would include itself.

use vstd::prelude::*;
use crate::error::{BqDriftError, BqDriftErrorModel};
use crate::text::{chars_of, joined, occurs_at, push_joined, string_of};

verus! {

/// The word that begins an inclusion.
pub const INCLUDE_DIRECTIVE: &'static str = "!include";

/// Whether `c` is a space or a tab.
pub open spec fn is_blank(c: char) -> bool {
    c == ' ' || c == '\t'
}

/// Whether `c` is a space, a tab or the end of a line.
pub open spec fn is_space(c: char) -> bool {
    is_blank(c) || c == '\n' || c == '\r'
}

/// The first place at or after `i` that holds no blank.
pub open spec fn after_blanks(text: Seq<char>, i: int) -> int
    decreases text.len() - i,
{
    if 0 <= i < text.len() && is_blank(text[i]) {
        after_blanks(text, i + 1)
    } else {
        i
    }
}

/// The first place at or after `i` that holds white space, or the end of the text.
pub open spec fn after_word(text: Seq<char>, i: int) -> int
    decreases text.len() - i,
{
    if 0 <= i < text.len() && !is_space(text[i]) {
        after_word(text, i + 1)
    } else {
        i
    }
}

/// Where the path of the inclusion that begins at place `i` stands: from its first
/// character up to, and without, the white space that ends it. `None` where no
/// inclusion begins at `i`: the directive must stand there, followed by at least one
/// blank and a path of at least one character.
pub open spec fn include_at(text: Seq<char>, i: int) -> Option<(int, int)> {
    let after = i + INCLUDE_DIRECTIVE@.len();
    let path_start = after_blanks(text, after);
    let path_end = after_word(text, path_start);
    if occurs_at(text, INCLUDE_DIRECTIVE@, i) && path_start > after && path_end > path_start {
        Some((path_start, path_end))
    } else {
        None
    }
}

/// The place of the first inclusion at or after `from`.
pub open spec fn first_include(text: Seq<char>, from: int) -> Option<int>
    decreases text.len() - from,
{
    if from < 0 || from >= text.len() {
        None
    } else if include_at(text, from).is_some() {
        Some(from)
    } else {
        first_include(text, from + 1)
    }
}

/// `text` with the places from `start` up to `end` replaced by `replacement`.
pub open spec fn spliced(text: Seq<char>, start: int, end: int, replacement: Seq<char>) -> Seq<
    char,
> {
    text.take(start) + replacement + text.skip(end)
}

/// The text of the error for a file that would include itself: the files that are
/// being included, outermost first, and the file that closes the circle.
pub open spec fn cycle_message(stack: Seq<Seq<char>>, path: Seq<char>) -> Seq<char> {
    "Include cycle: "@ + joined(stack.push(path), " -> "@)
}

/// An inclusion found in a text.
#[derive(Clone, Debug, PartialEq, Eq)]
pub struct Include {
    /// The place of the directive's first character.
    pub start: usize,
    /// The place behind the path's last character.
    pub end: usize,
    /// The path as it is written.
    pub path: String,
}

/// Expands inclusions, one at a time.
pub struct YamlPreprocessor {}

impl YamlPreprocessor {
    /// A preprocessor.
    pub fn new() -> (r: Self) {
        YamlPreprocessor {  }
    }

    /// The first inclusion in `text` that begins at or after the place `from`, if there
    /// is one.
    pub fn find_include(text: &str, from: usize) -> (r: Option<Include>)
        ensures
            match r {
                Some(found) => {
                    &&& first_include(text@, from as int) == Some(found.start as int)
                    &&& include_at(text@, found.start as int).is_some()
                    &&& found.end == include_at(text@, found.start as int).unwrap().1
                    &&& from <= found.start < include_at(text@, found.start as int).unwrap().0
                        < found.end <= text@.len()
                    &&& found.path@ == text@.subrange(
                        include_at(text@, found.start as int).unwrap().0,
                        found.end as int,
                    )
                },
                None => first_include(text@, from as int).is_none(),
            },
    {
        let chars = chars_of(text);
        let word = chars_of(INCLUDE_DIRECTIVE);
        proof {
            reveal_strlit("!include");
        }
        let mut i: usize = from;
        while i < chars.len()
            invariant
                from <= i,
                chars@ == text@,
                word@ == INCLUDE_DIRECTIVE@,
                word@.len() == 8,
                first_include(text@, from as int) == first_include(text@, i as int),
            decreases chars.len() - i,
        {
            if chars.len() - i > word.len() && starts_at(&chars, &word, i) {
                let after: usize = i + word.len();
                let path_start = skip_blanks(&chars, after);
                let path_end = skip_word(&chars, path_start);
                if path_start > after && path_end > path_start {
                    let path = copy_range(&chars, path_start, path_end);
                    return Some(Include { start: i, end: path_end, path });
                }
            }
            i += 1;
        }
        None
    }

    /// `text` with the inclusion `site` replaced by `replacement`.
    pub fn splice(text: &str, site: &Include, replacement: &str) -> (r: String)
        requires
            site.start <= site.end <= text@.len(),
        ensures
            r@ == spliced(text@, site.start as int, site.end as int, replacement@),
    {
        let chars = chars_of(text);
        let mut out = copy_range(&chars, 0, site.start);
        out.append(replacement);
        let rest = copy_range(&chars, site.end, chars.len());
        out.append(rest.as_str());
        out
    }

    /// `text` with the inclusion `site` replaced by `replacement`, and the place behind
    /// the replacement, where the search for the next inclusion goes on. `None` where
    /// `site` does not lie within `text`, or where that place is beyond all counting.
    pub fn checked_splice(text: &str, site: &Include, replacement: &str) -> (r: Option<
        (String, usize),
    >)
        ensures
            r.is_some() == (site.start <= site.end <= text@.len() && site.start + replacement@.len()
                <= usize::MAX),
            r matches Some(done) ==> done.0@ == spliced(
                text@,
                site.start as int,
                site.end as int,
                replacement@,
            ) && done.1 == site.start + replacement@.len(),
    {
        let added = replacement.unicode_len();
        if site.start <= site.end && site.end <= text.unicode_len() && added <= usize::MAX
            - site.start {
            Some((Self::splice(text, site, replacement), site.start + added))
        } else {
            None
        }
    }

    /// Whether including the file `path` would close a circle: the file is among those
    /// that are being included.
    pub fn is_cycle(stack: &Vec<String>, path: &str) -> (r: bool)
        ensures
            r == stack.deep_view().contains(path@),
    {
        let mut i: usize = 0;
        while i < stack.len()
            invariant
                i <= stack.len(),
                forall|j: int| 0 <= j < i ==> stack.deep_view()[j] != path@,
            decreases stack.len() - i,
        {
            if stack[i].as_str().eq(path) {
                assert(stack.deep_view()[i as int] == path@);
                return true;
            }
            i += 1;
        }
        false
    }

    /// The error for the file `path` that would include itself by way of the files of
    /// `stack`.
    pub fn cycle_error(stack: &Vec<String>, path: &str) -> (r: BqDriftError)
        ensures
            r.deep_view() == BqDriftErrorModel::DslParse(cycle_message(stack.deep_view(), path@)),
    {
        let mut message = String::from_str("Include cycle: ");
        push_joined(&mut message, stack, " -> ");
        if stack.len() > 0 {
            message.append(" -> ");
        }
        message.append(path);
        proof {
            let all = stack.deep_view().push(path@);
            assert(all.drop_last() == stack.deep_view());
            if stack.len() > 0 {
                assert("Include cycle: "@ + joined(stack.deep_view(), " -> "@) + " -> "@ + path@
                    == "Include cycle: "@ + (joined(stack.deep_view(), " -> "@) + " -> "@
                    + path@));
            }
        }
        BqDriftError::DslParse(message)
    }
}

impl Default for YamlPreprocessor {
    fn default() -> (r: Self) {
        YamlPreprocessor::new()
    }
}

fn starts_at(text: &Vec<char>, word: &Vec<char>, i: usize) -> (r: bool)
    requires
        i + word.len() <= text.len(),
    ensures
        r == occurs_at(text@, word@, i as int),
{
    let mut k: usize = 0;
    while k < word.len()
        invariant
            k <= word.len(),
            i + word.len() <= text.len(),
            forall|j: int| 0 <= j < k ==> text@[i + j] == word@[j],
        decreases word.len() - k,
    {
        if text[i + k] != word[k] {
            return false;
        }
        k += 1;
    }
    assert(text@.subrange(i as int, i + word.len()) =~= word@);
    true
}

fn skip_blanks(text: &Vec<char>, from: usize) -> (r: usize)
    requires
        from <= text.len(),
    ensures
        r == after_blanks(text@, from as int),
        from <= r <= text.len(),
{
    let mut i: usize = from;
    while i < text.len() && (text[i] == ' ' || text[i] == '\t')
        invariant
            from <= i <= text.len(),
            after_blanks(text@, from as int) == after_blanks(text@, i as int),
        decreases text.len() - i,
    {
        i += 1;
    }
    i
}

fn skip_word(text: &Vec<char>, from: usize) -> (r: usize)
    requires
        from <= text.len(),
    ensures
        r == after_word(text@, from as int),
        from <= r <= text.len(),
{
    let mut i: usize = from;
    while i < text.len() && !(text[i] == ' ' || text[i] == '\t' || text[i] == '\n' || text[i]
        == '\r')
        invariant
            from <= i <= text.len(),
            after_word(text@, from as int) == after_word(text@, i as int),
        decreases text.len() - i,
    {
        i += 1;
    }
    i
}

fn copy_range(text: &Vec<char>, start: usize, end: usize) -> (r: String)
    requires
        start <= end <= text.len(),
    ensures
        r@ == text@.subrange(start as int, end as int),
{
    let mut out: Vec<char> = Vec::new();
    let mut i: usize = start;
    while i < end
        invariant
            start <= i <= end <= text.len(),
            out@ == text@.subrange(start as int, i as int),
        decreases end - i,
    {
        out.push(text[i]);
        i += 1;
    }
    string_of(&out)
}

} // verus!

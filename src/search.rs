//! Documents for the full-text search index.

use vstd::prelude::*;
use vstd::string::*;

use crate::text::{opt_view, str_eq};
use crate::utils::{extension_of, path_extension};

verus! {

/// A document that can be indexed.
#[derive(Debug, Clone)]
pub struct IndexDocument {
    pub path: String,
    pub title: String,
    pub content: String,
}

/// The extensions of files whose content is indexed.
pub open spec fn indexable_extension(e: Seq<char>) -> bool {
    e == "rs"@ || e == "txt"@ || e == "md"@ || e == "json"@ || e == "toml"@ || e == "yaml"@ || e == "yml"@ || e
        == "py"@ || e == "js"@ || e == "ts"@ || e == "html"@ || e == "css"@
}

/// The last component of a path, if it names a file.
pub uninterp spec fn file_name(p: Seq<char>) -> Option<Seq<char>>;

/// Relies on std::path::Path::file_name: the final component of the path,
/// unless it is "..".
#[verifier::external_body]
fn file_name_text(path: &str) -> (r: Option<String>)
    ensures
        opt_view(r) == file_name(path@),
{
    std::path::Path::new(path).file_name().map(|n| n.to_string_lossy().into_owned())
}

/// Whether `ext` (case as written) is an extension whose files are indexed.
pub fn is_indexable_extension(ext: &str) -> (r: bool)
    ensures
        r == indexable_extension(ext@),
{
    str_eq(ext, "rs") || str_eq(ext, "txt") || str_eq(ext, "md") || str_eq(ext, "json") || str_eq(ext, "toml")
        || str_eq(ext, "yaml") || str_eq(ext, "yml") || str_eq(ext, "py") || str_eq(ext, "js") || str_eq(ext, "ts")
        || str_eq(ext, "html") || str_eq(ext, "css")
}

/// Whether the file at `path` is one whose content is indexed.
pub fn is_indexable(path: &str) -> (r: bool)
    ensures
        r == match path_extension(path@) {
            Some(e) => indexable_extension(e),
            None => false,
        },
{
    match extension_of(path) {
        Some(e) => is_indexable_extension(e.as_str()),
        None => false,
    }
}

/// The document for an indexable file at `path` with `content`, titled by its
/// file name; none for other files.
pub fn index_document(path: &str, content: String) -> (r: Option<IndexDocument>)
    ensures
        r is Some <==> (match path_extension(path@) {
            Some(e) => indexable_extension(e),
            None => false,
        }) && file_name(path@) is Some,
        r matches Some(d) ==> d.path@ == path@ && d.content@ == content@ && Some(d.title@) == file_name(path@),
{
    if !is_indexable(path) {
        return None;
    }
    match file_name_text(path) {
        Some(title) => Some(IndexDocument { path: String::from_str(path), title, content }),
        None => None,
    }
}

/// Whether `part` occurs in `s` at position `at`.
pub open spec fn occurs_at(s: Seq<char>, part: Seq<char>, at: int) -> bool {
    0 <= at && at + part.len() <= s.len() && s.subrange(at, at + part.len()) == part
}

/// Whether one of `parts` occurs in `s` as plain text.
pub open spec fn contains_any(s: Seq<char>, parts: Seq<Seq<char>>) -> bool {
    exists|i: int, at: int| 0 <= i < parts.len() && #[trigger] occurs_at(s, parts[i], at)
}

/// Whether `part` occurs in `s` as plain text.
pub fn contains_text(s: &str, part: &str) -> (r: bool)
    ensures
        r == exists|at: int| occurs_at(s@, part@, at),
{
    let n = s.unicode_len();
    let m = part.unicode_len();
    if m > n {
        return false;
    }
    let limit = n - m;
    let mut at: usize = 0;
    loop
        invariant
            n == s@.len(),
            m == part@.len(),
            m <= n,
            limit == n - m,
            at <= limit,
            forall|k: int| 0 <= k < at ==> !occurs_at(s@, part@, k),
        decreases limit - at,
    {
        if str_eq(s.substring_char(at, at + m), part) {
            assert(occurs_at(s@, part@, at as int));
            return true;
        }
        if at == limit {
            return false;
        }
        at = at + 1;
    }
}

/// Whether indexing skips `path`: one of `patterns` occurs in it as plain text.
pub fn skipped_for_indexing(path: &str, patterns: &Vec<String>) -> (r: bool)
    ensures
        r == contains_any(path@, patterns@.map_values(|p: String| p@)),
{
    let ghost ps = patterns@.map_values(|p: String| p@);
    let n = patterns.len();
    let mut i: usize = 0;
    while i < n
        invariant
            n == patterns.len(),
            ps == patterns@.map_values(|p: String| p@),
            i <= n,
            forall|j: int, at: int| 0 <= j < i ==> !#[trigger] occurs_at(path@, ps[j], at),
        decreases n - i,
    {
        assert(ps[i as int] == patterns@[i as int]@);
        if contains_text(path, patterns[i].as_str()) {
            return true;
        }
        i = i + 1;
    }
    false
}

} // verus!

//! Paths, as the platform reads them.
//!
//! How a path falls into components depends on the platform, so nothing is
//! claimed here of a result beyond what holds on each of them.

use vstd::prelude::*;

verus! {

/// The path without the leading `base`, if it starts with it.
///
/// Calls `Utf8Path::strip_prefix` of `camino`, which compares the two paths
/// component by component. Nothing is claimed of the result.
#[verifier::external_body]
pub(crate) fn strip_prefix(path: &String, base: &String) -> (r: Option<String>) {
    match cargo_metadata::camino::Utf8Path::new(path).strip_prefix(base) {
        Ok(rest) => Some(rest.as_str().to_owned()),
        Err(_) => None,
    }
}

/// The path that `part` names as seen from `base`.
///
/// Calls `Path::join` of std. Nothing is claimed of the result.
#[verifier::external_body]
pub(crate) fn join(base: &String, part: &str) -> (r: String) {
    std::path::Path::new(base).join(part).to_string_lossy().into_owned()
}

/// The name of the file that the path names, without its extension.
///
/// Calls `Path::file_stem` of std. Nothing is claimed of the result.
#[verifier::external_body]
pub(crate) fn file_stem(path: &String) -> (r: Option<String>) {
    match std::path::Path::new(path).file_stem() {
        Some(stem) => Some(stem.to_string_lossy().into_owned()),
        None => None,
    }
}

/// Whether the text stands in the path at the place behind `at`, where the
/// path has a dot.
pub open spec fn stands_behind_dot_at(path: Seq<char>, at: int, text: Seq<char>) -> bool {
    &&& 0 <= at
    &&& at + 1 + text.len() <= path.len()
    &&& path[at] == '.'
    &&& path.subrange(at + 1, at + 1 + text.len()) == text
}

/// Whether the text stands somewhere in the path right behind a dot.
pub open spec fn stands_behind_dot(path: Seq<char>, text: Seq<char>) -> bool {
    exists|at: int| stands_behind_dot_at(path, at, text)
}

/// The extension of the file that the path names.
///
/// Calls `Path::extension` of std, which gives the portion of the file name
/// after its final dot, the file name being the final component of the path.
/// Claimed of an extension that is found: it stands in the path right behind
/// a dot, and holds no dot itself. Which file name the platform reads from
/// the path, and so whether an extension is found and which, is not claimed.
#[verifier::external_body]
pub(crate) fn extension(path: &String) -> (r: Option<String>)
    ensures
        r matches Some(found) ==> stands_behind_dot(path@, found@) && !found@.contains('.'),
{
    match std::path::Path::new(path).extension() {
        Some(extension) => Some(extension.to_string_lossy().into_owned()),
        None => None,
    }
}

/// The text with every `from` replaced by `to`.
///
/// Calls `str::replace` of std, which replaces all matches of a pattern: with
/// one character as the pattern and one as the replacement, the result has
/// the length of the text, `to` where the text has `from`, and the
/// character of the text everywhere else.
#[verifier::external_body]
pub(crate) fn replace_char(text: &str, from: char, to: char) -> (r: String)
    ensures
        r@ == replaced(text@, from, to),
{
    text.replace(from, to.encode_utf8(&mut [0; 4]))
}

/// The text with every `from` replaced by `to`.
pub open spec fn replaced(text: Seq<char>, from: char, to: char) -> Seq<char> {
    Seq::new(
        text.len(),
        |i: int|
            if text[i] == from {
                to
            } else {
                text[i]
            },
    )
}

} // verus!

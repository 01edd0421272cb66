//! Locating the executable: the stem of its file name, which names its
//! runtime directory.
//!
//! What the final component of a path is depends on the platform: a `\\` is
//! part of a file name on one and a separator on another. The standard
//! library's own path rules decide, and the stem that they give is tested
//! before it is used.

use crate::flow::LaunchError;
use crate::paths::{chars_of, strip_extension};
use vstd::prelude::*;

verus! {

/// The final component of `path`, by the path rules of the platform that the
/// library is built for; `None` where `path` ends in none.
pub uninterp spec fn final_component(path: Seq<char>) -> Option<Seq<char>>;

/// `c` separates path components on the platform that the library is built
/// for.
pub uninterp spec fn separates_here(c: char) -> bool;

/// Calls `std::path::Path::file_stem`. Trusted, as documented: there is no
/// stem where the path has no final component; and else the stem is the
/// final component without its extension, which is what follows its last
/// `.`, unless it has no `.` or only a leading one.
#[verifier::external_body]
fn file_stem(path: &str) -> (found: Option<String>)
    ensures
        match (found, final_component(path@)) {
            (Some(stem), Some(name)) => stem@ == strip_extension(name),
            (None, None) => true,
            _ => false,
        },
{
    std::path::Path::new(path).file_stem().and_then(|stem| stem.to_str()).map(
        |stem| stem.to_string(),
    )
}

/// Calls `std::path::is_separator`. Trusted: it tells whether `c` separates
/// path components on this platform.
#[verifier::external_body]
fn separator_here(c: char) -> (separates: bool)
    ensures
        separates == separates_here(c),
{
    std::path::is_separator(c)
}

/// `stem` can name a directory: it is not empty and holds nothing that
/// separates path components on this platform.
pub open spec fn usable(stem: Seq<char>) -> bool {
    stem.len() > 0 && forall|i: int| 0 <= i < stem.len() ==> !separates_here(#[trigger] stem[i])
}

/// The stem of the executable at `path`: its final component, as the
/// platform sees it, without its extension; `None` where the path has no
/// final component or the stem is not usable.
pub open spec fn exec_stem(path: Seq<char>) -> Option<Seq<char>> {
    match final_component(path) {
        Some(name) => if usable(strip_extension(name)) {
            Some(strip_extension(name))
        } else {
            None
        },
        None => None,
    }
}

/// The name stem of the executable at `path`, which names its runtime
/// directory; an error where the path has no final component, or where the
/// stem is empty or holds a separator.
pub fn get_exec_stem(path: &str) -> (found: Result<String, LaunchError>)
    ensures
        match found {
            Ok(stem) => exec_stem(path@) == Some(stem@),
            Err(error) => exec_stem(path@) is None && error == LaunchError::Locator,
        },
{
    let stem = match file_stem(path) {
        Some(stem) => stem,
        None => {
            return Err(LaunchError::Locator);
        },
    };
    let chars = chars_of(stem.as_str());
    if chars.len() == 0 {
        return Err(LaunchError::Locator);
    }
    let mut at: usize = 0;
    while at < chars.len()
        invariant
            at <= chars.len(),
            chars@ == stem@,
            final_component(path@) matches Some(name) && stem@ == strip_extension(name),
            forall|i: int| 0 <= i < at ==> !separates_here(#[trigger] stem@[i]),
        decreases chars.len() - at,
    {
        if separator_here(chars[at]) {
            assert(separates_here(stem@[at as int]));
            return Err(LaunchError::Locator);
        }
        at = at + 1;
    }
    Ok(stem)
}

} // verus!

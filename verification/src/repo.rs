//! Under what a repository is registered.
//!
//! Finding and loading repositories is not the work of this crate; it only
//! settles the identifier and the priority that a repository gets where the
//! caller gives none.

use camino::Utf8Path;
use vstd::prelude::*;
use crate::text::{chars_of, string_of};

verus! {

/// `camino::Utf8Path::new` followed by `Utf8Path::as_str`: the first sees a
/// string as a path without changing it, the second gives the string of a
/// path back. Trusted: the text that comes out is the text that went in.
#[verifier::external_body]
fn path_text(path: &str) -> (text: &str)
    ensures
        text@ == path@,
{
    Utf8Path::new(path).as_str()
}

/// The identifier of the repository at `path`: `id` where one is given, else
/// the path itself.
pub fn repo_id(path: &str, id: Option<&str>) -> (r: String)
    ensures
        r@ == match id {
            Some(id) => id@,
            None => path@,
        },
{
    let text = match id {
        Some(id) => id,
        None => path_text(path),
    };
    let chars = chars_of(text);
    let r = string_of(chars.as_slice(), 0, chars.len());
    assert(chars@.subrange(0, chars@.len() as int) == chars@);
    r
}

/// The priority of a repository: `priority` where one is given, else 0.
pub fn repo_priority(priority: Option<i32>) -> (r: i32)
    ensures
        r == match priority {
            Some(p) => p,
            None => 0,
        },
{
    match priority {
        Some(p) => p,
        None => 0,
    }
}

} // verus!

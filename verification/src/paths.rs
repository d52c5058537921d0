//! Path separators.

use vstd::prelude::*;
use crate::text::{chars_of, string_of};

verus! {

/// `std::path::MAIN_SEPARATOR` is the primary separator of path components
/// on the platform that the program was built for. Nothing is claimed of
/// which character that is.
#[verifier::external_body]
fn main_separator() -> (separator: char) {
    std::path::MAIN_SEPARATOR
}

/// `path` with every `separator` replaced by a slash.
pub open spec fn with_slashes(path: Seq<char>, separator: char) -> Seq<char> {
    Seq::new(
        path.len(),
        |i: int|
            if path[i] == separator {
                '/'
            } else {
                path[i]
            },
    )
}

/// Replaces every `separator` of `path` by a slash.
pub fn replace_separator(path: &str, separator: char) -> (out: String)
    ensures
        out@ == with_slashes(path@, separator),
{
    let v = chars_of(path);
    let mut w: Vec<char> = Vec::new();
    let mut i: usize = 0;
    while i < v.len()
        invariant
            i <= v.len(),
            w.len() == i,
            forall|k: int| 0 <= k < i ==> w@[k] == with_slashes(v@, separator)[k],
        decreases v.len() - i,
    {
        let c = v[i];
        w.push(if c == separator {
            '/'
        } else {
            c
        });
        i += 1;
    }
    assert(w@ =~= with_slashes(v@, separator));
    string_of(&w)
}

/// Rewrites a path of this platform with slashes as separators: every
/// occurrence of the platform's main separator becomes a slash, and nothing
/// else changes.
pub fn normalize_path(path: &str) -> (out: String)
    ensures
        exists|separator: char| out@ == with_slashes(path@, separator),
        out@.len() == path@.len(),
        forall|i: int| 0 <= i < path@.len() ==> out@[i] == path@[i] || out@[i] == '/',
{
    let separator = main_separator();
    replace_separator(path, separator)
}

} // verus!

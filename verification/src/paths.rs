//! The directory that a path lies in.

use vstd::prelude::*;

verus! {

/// The parent of `path` as `std::path::Path::parent` gives it on a system
/// whose paths are separated by `/`: the path without its last component, or
/// nothing where the path is empty or ends in the root.
pub uninterp spec fn path_parent(path: Seq<char>) -> Option<Seq<char>>;

/// Calls `std::path::Path::parent` on `path` and gives the parent as text.
/// The result is `None` exactly when `parent` returns `None`. The parent of a
/// path that is valid text is a part of that text, so nothing is lost when it
/// is turned back into a string. The call does not panic.
#[verifier::external_body]
pub(crate) fn parent_of(path: &str) -> (parent: Option<String>)
    ensures
        match parent {
            Some(text) => path_parent(path@) == Some(text@),
            None => path_parent(path@) is None,
        },
{
    match std::path::Path::new(path).parent() {
        Some(parent) => Some(parent.to_string_lossy().into_owned()),
        None => None,
    }
}

} // verus!

//! Path components, as std's `Path` splits a path given as text.

use vstd::prelude::*;
use crate::text::opt_view;

verus! {

/// The final component of path `p`, as `Path::file_name` gives it.
pub uninterp spec fn path_file_name(p: Seq<char>) -> Option<Seq<char>>;

/// Path `p` without its final component, as `Path::parent` gives it.
pub uninterp spec fn path_parent(p: Seq<char>) -> Option<Seq<char>>;

/// The extension of path `p`, as `Path::extension` gives it.
pub uninterp spec fn path_extension(p: Seq<char>) -> Option<Seq<char>>;

/// The final component of `p`. Calls `Path::file_name` and turns the
/// component (a piece of the text `p`, so valid UTF-8) back into text; the
/// contract names the result after `p` alone.
#[verifier::external_body]
pub(crate) fn file_name(p: &str) -> (r: Option<String>)
    ensures
        opt_view(r) == path_file_name(p@),
{
    std::path::Path::new(p).file_name().and_then(|n| n.to_str()).map(|n| n.to_string())
}

/// `p` without its final component. Calls `Path::parent` and turns the result
/// back into text; the contract names the result after `p` alone.
#[verifier::external_body]
pub(crate) fn parent(p: &str) -> (r: Option<String>)
    ensures
        opt_view(r) == path_parent(p@),
{
    std::path::Path::new(p).parent().and_then(|q| q.to_str()).map(|q| q.to_string())
}

/// The extension of `p`. Calls `Path::extension` and turns the result back
/// into text; the contract names the result after `p` alone.
#[verifier::external_body]
pub(crate) fn extension(p: &str) -> (r: Option<String>)
    ensures
        opt_view(r) == path_extension(p@),
{
    std::path::Path::new(p).extension().and_then(|e| e.to_str()).map(|e| e.to_string())
}

} // verus!

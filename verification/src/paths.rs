//! Paths, held as strings and combined by the rules of the platform.

use vstd::prelude::*;

verus! {

/// The path that adjoining `rel` to `base` gives: `rel` itself where it is
/// absolute, else `rel` below `base`.
pub uninterp spec fn joined_path(base: Seq<char>, rel: Seq<char>) -> Seq<char>;

/// The path `dir` and the directories above it, nearest first, up to the
/// root of `dir`.
pub uninterp spec fn ancestor_paths(dir: Seq<char>) -> Seq<Seq<char>>;

/// Calls `std::path::Path::join`.
///
/// Trusted: the result is a function of the two paths alone, on the
/// platform the library is built for.
#[verifier::external_body]
pub(crate) fn join_path(base: &str, rel: &str) -> (r: String)
    ensures
        r@ == joined_path(base@, rel@),
{
    std::path::Path::new(base).join(rel).to_string_lossy().into_owned()
}

/// Calls `std::path::Path::ancestors`.
///
/// Trusted: the result is a function of the path alone; it is never empty
/// and starts with the path itself, as the iterator's documentation says.
#[verifier::external_body]
pub(crate) fn path_ancestors(dir: &str) -> (r: Vec<String>)
    ensures
        r.deep_view() == ancestor_paths(dir@),
        r@.len() >= 1,
        r@[0]@ == dir@,
{
    std::path::Path::new(dir).ancestors().map(|p| p.to_string_lossy().into_owned()).collect()
}

/// Each of `paths` adjoined to `base`, in order.
pub open spec fn resolved_paths(base: Seq<char>, paths: Seq<Seq<char>>) -> Seq<Seq<char>> {
    paths.map_values(|p: Seq<char>| joined_path(base, p))
}

/// Resolves each of `paths` against `base`.
pub fn resolve_paths(base: &str, paths: &Vec<String>) -> (r: Vec<String>)
    ensures
        r.deep_view() == resolved_paths(base@, paths.deep_view()),
{
    let mut out: Vec<String> = Vec::new();
    let mut i: usize = 0;
    while i < paths.len()
        invariant
            i <= paths@.len(),
            out@.len() == i,
            forall|j: int| 0 <= j < i ==> out@[j]@ == joined_path(base@, paths@[j]@),
        decreases paths@.len() - i,
    {
        out.push(join_path(base, paths[i].as_str()));
        i += 1;
    }
    assert(out.deep_view() =~= resolved_paths(base@, paths.deep_view()));
    out
}

} // verus!

//! Paths, held as text.  Joining, absoluteness, final components, parents
//! and prefixes are decided by `std::path` for the target the crate is built
//! for; the contracts name those results.
use vstd::prelude::*;

verus! {

/// Whether `Path::is_absolute` holds of `p`.
pub uninterp spec fn path_is_absolute(p: Seq<char>) -> bool;

/// The text of `Path::join(base, rel)`.
pub uninterp spec fn path_join(base: Seq<char>, rel: Seq<char>) -> Seq<char>;

/// Calls `std::path::Path::is_absolute` on `p`.  The contract claims only
/// that the answer is determined by the text of `p` (named
/// `path_is_absolute`); which paths are absolute depends on the platform and
/// is not stated.
#[verifier::external_body]
pub(crate) fn is_absolute(p: &str) -> (b: bool)
    ensures
        b == path_is_absolute(p@),
{
    std::path::Path::new(p).is_absolute()
}

/// Calls `std::path::Path::join`.  The contract claims that the result is
/// determined by the two texts (named `path_join`) and, as the documentation
/// of `PathBuf::push` says, that an absolute `rel` replaces `base`.  How a
/// relative `rel` is appended (the separator) is not stated.  Joining two
/// UTF-8 texts gives UTF-8 text, so the conversion back loses nothing.
#[verifier::external_body]
pub(crate) fn join_path(base: &str, rel: &str) -> (r: String)
    ensures
        r@ == path_join(base@, rel@),
        path_is_absolute(rel@) ==> r@ == rel@,
{
    std::path::Path::new(base).join(rel).to_string_lossy().into_owned()
}

/// The final component of a path as `Path::file_name` gives it.
pub uninterp spec fn path_file_name(p: Seq<char>) -> Option<Seq<char>>;

/// The path without its final component, as `Path::parent` gives it.
pub uninterp spec fn path_parent(p: Seq<char>) -> Option<Seq<char>>;

/// Whether `base` is a prefix of `p` component by component, as
/// `Path::starts_with` decides it.
pub uninterp spec fn path_starts_with(p: Seq<char>, base: Seq<char>) -> bool;

/// Calls `std::path::Path::file_name` on `p`.  The contract claims that the
/// result is determined by the text of `p` alone (named `path_file_name`);
/// what that function is (the last normal component, `None` for a path that
/// ends in `..` or is a root) is not stated.  Every component of a `&str`
/// path is valid UTF-8, so the conversion back to text loses nothing.
#[verifier::external_body]
pub(crate) fn file_name_of(p: &str) -> (r: Option<String>)
    ensures
        r.deep_view() == path_file_name(p@),
{
    std::path::Path::new(p).file_name().and_then(|n| n.to_str()).map(|n| n.to_string())
}

/// Calls `std::path::Path::parent` on `p`.  The contract claims that the
/// result is determined by `p` alone (named `path_parent`) and, as the
/// documentation says, that it is `p` without its final component, hence
/// shorter than `p`.  Which text is removed is not stated.
#[verifier::external_body]
pub(crate) fn parent_of(p: &str) -> (r: Option<String>)
    ensures
        r.deep_view() == path_parent(p@),
        r matches Some(q) ==> q@.len() < p@.len(),
{
    std::path::Path::new(p).parent().and_then(|q| q.to_str()).map(|q| q.to_string())
}

/// Calls `std::path::Path::starts_with`.  The contract claims only that the
/// answer is determined by the two texts (named `path_starts_with`); the
/// component-wise comparison is not stated.
#[verifier::external_body]
pub(crate) fn starts_with_path(p: &str, base: &str) -> (b: bool)
    ensures
        b == path_starts_with(p@, base@),
{
    std::path::Path::new(p).starts_with(std::path::Path::new(base))
}

} // verus!

//! File paths as std's `Path` reads them on the platform the crate is
//! built for. Each function here makes one call into `std::path`; the
//! results are named, not written out, since what counts as a component,
//! a root or a separator is the platform's rule.
use vstd::prelude::*;

verus! {

/// The last component of `path` (`Path::file_name`), empty when there is
/// none.
pub uninterp spec fn file_name_of(path: Seq<char>) -> Seq<char>;

/// The extension of `path` (`Path::extension`), when there is one.
pub uninterp spec fn extension_of(path: Seq<char>) -> Option<Seq<char>>;

/// `path` without the leading components that make up `base`
/// (`Path::strip_prefix`), or `path` itself when `base` is not a prefix of
/// it, as `Path::display` writes it.
pub uninterp spec fn relative_to(path: Seq<char>, base: Seq<char>) -> Seq<char>;

/// Whether the components of `base` begin `path` (`Path::starts_with`).
pub uninterp spec fn starts_with_path(path: Seq<char>, base: Seq<char>) -> bool;

/// `path` without its last component (`Path::parent`), as `Path::display`
/// writes it; none for a root or an empty path.
pub uninterp spec fn parent_of(path: Seq<char>) -> Option<Seq<char>>;

/// Whether `a` and `b` are the same path (`Path`'s `==`, which compares
/// components).
pub uninterp spec fn path_eq(a: Seq<char>, b: Seq<char>) -> bool;

/// `Path`'s `==` on `a` and `b`: the result is `path_eq`.
#[verifier::external_body]
pub(crate) fn path_equal(a: &str, b: &str) -> (r: bool)
    ensures
        r == path_eq(a@, b@),
{
    std::path::Path::new(a) == std::path::Path::new(b)
}

/// `Path::file_name` of `path`, as text: the name is `file_name_of`.
#[verifier::external_body]
pub(crate) fn path_file_name(path: &str) -> (r: String)
    ensures
        r@ == file_name_of(path@),
{
    match std::path::Path::new(path).file_name() {
        Some(n) => n.to_string_lossy().to_string(),
        None => String::new(),
    }
}

/// `Path::extension` of `path`, as text: the result is `extension_of`.
#[verifier::external_body]
pub(crate) fn path_extension(path: &str) -> (r: Option<String>)
    ensures
        match r {
            Some(e) => extension_of(path@) == Some(e@),
            None => extension_of(path@) is None,
        },
{
    std::path::Path::new(path).extension().and_then(|e| e.to_str()).map(|e| e.to_string())
}

/// `Path::strip_prefix` of `path` by `base`, falling back to `path`, as
/// `Path::display` writes it: the result is `relative_to`.
#[verifier::external_body]
pub(crate) fn path_relative_to(path: &str, base: &str) -> (r: String)
    ensures
        r@ == relative_to(path@, base@),
{
    let p = std::path::Path::new(path);
    p.strip_prefix(base).unwrap_or(p).display().to_string()
}

/// `Path::starts_with` of `path` and `base`: the result is
/// `starts_with_path`.
#[verifier::external_body]
pub(crate) fn path_starts_with(path: &str, base: &str) -> (r: bool)
    ensures
        r == starts_with_path(path@, base@),
{
    std::path::Path::new(path).starts_with(base)
}

/// `Path::parent` of `path`, as `Path::display` writes it: the result is
/// `parent_of`.
#[verifier::external_body]
pub(crate) fn path_parent(path: &str) -> (r: Option<String>)
    ensures
        match r {
            Some(d) => parent_of(path@) == Some(d@),
            None => parent_of(path@) is None,
        },
{
    std::path::Path::new(path).parent().map(|d| d.display().to_string())
}

} // verus!

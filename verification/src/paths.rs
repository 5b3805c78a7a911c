//! Path helpers: the parent of a path, and a path shown relative to the
//! current directory. Paths are held as strings.

use vstd::prelude::*;

verus! {

/// The parent of a path as `std::path::Path::parent` computes it: the path
/// without its final component; `None` for a root, a prefix or the empty
/// path.
pub uninterp spec fn path_parent(p: Seq<char>) -> Option<Seq<char>>;

/// What `std::path::Path::strip_prefix` leaves of `path` once the leading
/// components equal to those of `base` are removed; `None` when `base` is
/// not a prefix of `path`, component by component.
pub uninterp spec fn path_without_prefix(path: Seq<char>, base: Seq<char>) -> Option<Seq<char>>;

/// Calls `std::path::Path::parent` on `p`. The contract claims only that
/// the result is [`path_parent`] of `p`.
#[verifier::external_body]
pub(crate) fn parent_of(p: &str) -> (r: Option<String>)
    ensures
        match r {
            Some(s) => path_parent(p@) == Some(s@),
            None => path_parent(p@) is None,
        },
{
    std::path::Path::new(p).parent().map(|q| q.to_string_lossy().into_owned())
}

/// Calls `std::path::Path::strip_prefix(path, base)`. The contract claims
/// only that the result is [`path_without_prefix`] of the two arguments.
#[verifier::external_body]
fn strip_prefix_of(path: &str, base: &str) -> (r: Option<String>)
    ensures
        match r {
            Some(s) => path_without_prefix(path@, base@) == Some(s@),
            None => path_without_prefix(path@, base@) is None,
        },
{
    std::path::Path::new(path).strip_prefix(base).ok().map(|q| q.to_string_lossy().into_owned())
}

/// How `path` is shown given `rel`, what is left of it below the current
/// directory (`None` when it does not lie below it): that remainder when it
/// is non-empty, else the path in full.
pub open spec fn shown_given(path: Seq<char>, rel: Option<Seq<char>>) -> Seq<char> {
    match rel {
        Some(r) => if r.len() > 0 {
            r
        } else {
            path
        },
        None => path,
    }
}

/// How `path` is shown when the current directory is `cwd`: relative to
/// `cwd` when it lies strictly below it, else in full.
pub open spec fn shown_path(path: Seq<char>, cwd: Option<Seq<char>>) -> Seq<char> {
    match cwd {
        Some(c) => shown_given(path, path_without_prefix(path, c)),
        None => path,
    }
}

/// Show `path` given `rel`, what is left of it below the current directory
/// (see [`shown_given`]).
pub fn shown_relative(path: &str, rel: Option<String>) -> (r: String)
    ensures
        r@ == shown_given(
            path@,
            match rel {
                Some(x) => Some(x@),
                None => None,
            },
        ),
{
    match rel {
        Some(x) => {
            if x.as_str().unicode_len() > 0 {
                x
            } else {
                String::from_str(path)
            }
        },
        None => String::from_str(path),
    }
}

/// Render `path` relative to the current directory `cwd` when it lies below
/// it, for readability; otherwise (or when the current directory is unknown)
/// in full.
pub fn display_path(path: &str, cwd: Option<&str>) -> (r: String)
    ensures
        r@ == shown_path(path@, match cwd {
            Some(c) => Some(c@),
            None => None,
        }),
{
    match cwd {
        Some(c) => shown_relative(path, strip_prefix_of(path, c)),
        None => String::from_str(path),
    }
}

} // verus!

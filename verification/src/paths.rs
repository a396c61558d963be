//! Path operations on UTF-8 path strings, done by `std::path::Path`.
use vstd::prelude::*;

use std::path::{Path, PathBuf};

verus! {

/// What `Path::parent` gives for a path (`None` for a root, a bare prefix or
/// the empty path).
pub uninterp spec fn parent_of(p: Seq<char>) -> Option<Seq<char>>;

/// What `Path::file_name` gives: the final component, unless the path ends
/// in `..` or has none.
pub uninterp spec fn file_name_of(p: Seq<char>) -> Option<Seq<char>>;

/// What `Path::strip_prefix` gives: the rest of `p` after the components of
/// `base`, when `base` is a prefix of it.
pub uninterp spec fn strip_prefix_of(p: Seq<char>, base: Seq<char>) -> Option<Seq<char>>;

/// What `Path::join` gives: `p` extended by `q` (or `q` alone when absolute).
pub uninterp spec fn joined_path(p: Seq<char>, q: Seq<char>) -> Seq<char>;

/// Whether `Path::new(a) <= Path::new(b)` in `Path`'s order (component by
/// component).
pub uninterp spec fn path_le(a: Seq<char>, b: Seq<char>) -> bool;

pub open spec fn views(v: Seq<String>) -> Seq<Seq<char>> {
    v.map_values(|s: String| s@)
}

pub open spec fn opt_seq(o: Option<String>) -> Option<Seq<char>> {
    match o {
        Some(s) => Some(s@),
        None => None,
    }
}

/// The directory holding `p`: its parent, or `.` (the current directory)
/// when `p` has no parent or only an empty one, as a bare file name does.
pub open spec fn dir_of(p: Seq<char>) -> Seq<char> {
    match parent_of(p) {
        Some(d) => if d.len() > 0 {
            d
        } else {
            "."@
        },
        None => "."@,
    }
}

/// The directory holding the file at `p` (`.` for a bare file name).
pub fn parent_dir(p: &str) -> (r: String)
    ensures
        r@ == dir_of(p@),
{
    match path_parent(p) {
        Some(d) => if d.as_str().is_empty() {
            String::from_str(".")
        } else {
            d
        },
        None => String::from_str("."),
    }
}

/// `Path::parent` on a UTF-8 path.
#[verifier::external_body]
pub(crate) fn path_parent(p: &str) -> (r: Option<String>)
    ensures
        opt_seq(r) == parent_of(p@),
{
    match Path::new(p).parent() {
        Some(q) => Some(q.to_string_lossy().into_owned()),
        None => None,
    }
}

/// `Path::file_name` on a UTF-8 path.
#[verifier::external_body]
pub(crate) fn path_file_name(p: &str) -> (r: Option<String>)
    ensures
        opt_seq(r) == file_name_of(p@),
{
    match Path::new(p).file_name() {
        Some(q) => Some(q.to_string_lossy().into_owned()),
        None => None,
    }
}

/// `Path::strip_prefix` on UTF-8 paths.
#[verifier::external_body]
pub(crate) fn path_strip_prefix(p: &str, base: &str) -> (r: Option<String>)
    ensures
        opt_seq(r) == strip_prefix_of(p@, base@),
{
    match Path::new(p).strip_prefix(base) {
        Ok(q) => Some(q.to_string_lossy().into_owned()),
        Err(_) => None,
    }
}

/// `Path::join` on UTF-8 paths. Its documentation says that an absolute `q`
/// (on Unix, one that starts with `/`) replaces `p`; how a relative `q` is
/// joined is left to the name `joined_path`.
#[verifier::external_body]
pub(crate) fn path_join(p: &str, q: &str) -> (r: String)
    ensures
        r@ == joined_path(p@, q@),
        q@.len() > 0 && q@[0] == '/' ==> r@ == q@,
{
    Path::new(p).join(q).to_string_lossy().into_owned()
}

/// `slice::sort` on the paths, as `PathBuf`s: the same paths, ascending in
/// `Path`'s order.
#[verifier::external_body]
pub(crate) fn sort_paths(v: &mut Vec<String>)
    ensures
        views(final(v)@).to_multiset() == views(old(v)@).to_multiset(),
        forall|i: int, j: int|
            0 <= i < j < final(v)@.len() ==> path_le(#[trigger] final(v)@[i]@, #[trigger] final(v)@[j]@),
{
    let mut ps: Vec<PathBuf> = Vec::new();
    for s in v.drain(..) {
        ps.push(PathBuf::from(s));
    }
    ps.sort();
    for p in ps {
        v.push(p.to_string_lossy().into_owned());
    }
}

} // verus!

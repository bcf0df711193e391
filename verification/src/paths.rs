//! Paths, as the `camino` crate reads and writes them.
//!
//! A path is kept as its text. What `camino` makes of a text follows the
//! rules for paths of the platform that the program is built for; the
//! functions named here stand for its results on that platform.

use vstd::prelude::*;
use crate::model::opt_text;

verus! {

/// What `camino::Utf8PathBuf::push` makes of a path when `part` is pushed.
pub uninterp spec fn pushed(path: Seq<char>, part: Seq<char>) -> Seq<char>;

/// What `camino::Utf8PathBuf::set_extension` makes of a path.
pub uninterp spec fn with_extension(path: Seq<char>, extension: Seq<char>) -> Seq<char>;

/// Whether `camino::Utf8Path` holds two paths equal.
pub uninterp spec fn same_location(a: Seq<char>, b: Seq<char>) -> bool;

/// What `camino::Utf8Path::parent` gives for a path.
pub uninterp spec fn parent_of(path: Seq<char>) -> Option<Seq<char>>;

/// What `camino::Utf8Path::file_name` gives for a path.
pub uninterp spec fn file_name_of(path: Seq<char>) -> Option<Seq<char>>;

/// Extends a path by one part with `camino::Utf8PathBuf::push`. The
/// contract gives the result its name, `pushed`, and claims no more of it.
#[verifier::external_body]
pub(crate) fn path_push(path: String, part: &str) -> (out: String)
    ensures
        out@ == pushed(path@, part@),
{
    let mut buf = camino::Utf8PathBuf::from(path);
    buf.push(part);
    buf.into_string()
}

/// Sets the extension of a path's file name with
/// `camino::Utf8PathBuf::set_extension`, which does not take an extension
/// that holds a path separator. The contract gives the result its name,
/// `with_extension`, and claims no more of it.
#[verifier::external_body]
pub(crate) fn path_set_extension(path: String, extension: &str) -> (out: String)
    requires
        !extension@.contains('/'),
        !extension@.contains('\\'),
    ensures
        out@ == with_extension(path@, extension@),
{
    let mut buf = camino::Utf8PathBuf::from(path);
    buf.set_extension(extension);
    buf.into_string()
}

/// Compares two paths with `==` of `camino::Utf8Path`, which compares them
/// component by component. The contract gives the result its name,
/// `same_location`, and claims no more of it.
#[verifier::external_body]
pub(crate) fn same_path(a: &str, b: &str) -> (same: bool)
    ensures
        same == same_location(a@, b@),
{
    camino::Utf8Path::new(a) == camino::Utf8Path::new(b)
}

/// The path without its final component, by `camino::Utf8Path::parent`,
/// which has none for a path that ends in a root or is empty. The contract
/// gives the result its name, `parent_of`, and claims no more of it.
#[verifier::external_body]
pub(crate) fn path_parent(path: &str) -> (parent: Option<String>)
    ensures
        opt_text(parent) == parent_of(path@),
{
    camino::Utf8Path::new(path).parent().map(|parent| parent.as_str().to_owned())
}

/// The final component of a path, by `camino::Utf8Path::file_name`, which
/// has none for a path that ends in `..` or in a root. The contract gives
/// the result its name, `file_name_of`, and claims no more of it.
#[verifier::external_body]
pub(crate) fn path_file_name(path: &str) -> (name: Option<String>)
    ensures
        opt_text(name) == file_name_of(path@),
{
    camino::Utf8Path::new(path).file_name().map(|name| name.to_owned())
}

} // verus!

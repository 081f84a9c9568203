//! The path operations of the default file-system utility, for platforms
//! that have `std::path`.
//!
//! How a platform splits a path into components, what it takes for a root
//! and which separator it writes are the business of `std::path` and of the
//! `path_clean` crate. This module does not restate their rules; it gives
//! each of their results a name, and says in terms of these names what its
//! own functions return. Each name stands for the result on the platform
//! that the crate is built for; on that platform it depends on nothing but
//! the text of the paths.

use vstd::prelude::*;

verus! {

/// What `std::path::Path::join` makes of `base` and `path`: the path that
/// `path` names when it is taken relative to `base`.
pub uninterp spec fn joined_path(base: Seq<char>, path: Seq<char>) -> Seq<char>;

/// What `path_clean::clean` makes of `path`: the same path with `.`
/// components, repeated separators and resolvable `..` components removed.
pub uninterp spec fn cleaned_path(path: Seq<char>) -> Seq<char>;

/// What `std::path::PathBuf::pop` leaves of `path`: its parent, or the path
/// itself where it has none.
pub uninterp spec fn popped_path(path: Seq<char>) -> Seq<char>;

/// What `std::path::Path::is_absolute` says of `path`.
pub uninterp spec fn absolute_path(path: Seq<char>) -> bool;

/// Calls `std::path::Path::join`. Not verified: the contract only names the
/// result, which is a function of the two texts alone. Both arguments are
/// UTF-8, so the joined path is too, and the conversion back loses nothing.
#[verifier::external_body]
fn join_paths(base: &str, path: &str) -> (joined: String)
    ensures
        joined@ == joined_path(base@, path@),
{
    std::path::Path::new(base).join(path).to_string_lossy().into_owned()
}

/// Calls `path_clean::clean`. Not verified: the contract only names the
/// result, which is a function of the text alone. Cleaning drops and keeps
/// whole components of a UTF-8 path, so the conversion back loses nothing.
#[verifier::external_body]
fn clean_path(path: &str) -> (cleaned: String)
    ensures
        cleaned@ == cleaned_path(path@),
{
    path_clean::clean(path).to_string_lossy().into_owned()
}

/// Calls `std::path::PathBuf::pop` on a copy of `path`. Not verified: the
/// contract only names the result, which is a function of the text alone.
/// What is left is a prefix of a UTF-8 path that ends where a component
/// ends, so the conversion back loses nothing.
#[verifier::external_body]
fn pop_path(path: &str) -> (parent: String)
    ensures
        parent@ == popped_path(path@),
{
    let mut buffer = std::path::PathBuf::from(path);
    buffer.pop();
    buffer.to_string_lossy().into_owned()
}

/// Calls `std::path::Path::is_absolute`. Not verified: the contract only
/// names the result, which is a function of the text alone.
#[verifier::external_body]
fn is_absolute_path(path: &str) -> (is_absolute: bool)
    ensures
        is_absolute == absolute_path(path@),
{
    std::path::Path::new(path).is_absolute()
}

/// The path that `base` and `path` join to. Joining with an empty text
/// changes nothing; every other result is joined and then cleaned.
pub open spec fn path_join_spec(base: Seq<char>, path: Seq<char>) -> Seq<char> {
    if path.len() == 0 {
        base
    } else if base.len() == 0 {
        path
    } else {
        cleaned_path(joined_path(base, path))
    }
}

/// Joins `base` and `path` into one path without `.` components, repeated
/// separators or resolvable `..` components. An empty `path` gives `base`
/// back as it is, and an empty `base` gives `path` back as it is.
pub fn path_join(base: &str, path: &str) -> (joined: String)
    ensures
        joined@ == path_join_spec(base@, path@),
        path@.len() == 0 ==> joined@ == base@,
        base@.len() == 0 ==> joined@ == path@,
{
    if path.is_empty() {
        base.to_owned()
    } else if base.is_empty() {
        path.to_owned()
    } else {
        let joined = join_paths(base, path);
        clean_path(joined.as_str())
    }
}

/// The parent directory of `path`: the path without its last component. A
/// path of one component has the empty path as its parent; a root and the
/// empty path have no parent and are returned as they are.
pub fn parent_directory(path: &str) -> (parent: String)
    ensures
        parent@ == popped_path(path@),
{
    pop_path(path)
}

/// Whether `path` is absolute, that is, names the same file whatever the
/// current directory is.
pub fn path_is_absolute(path: &str) -> (is_absolute: bool)
    ensures
        is_absolute == absolute_path(path@),
{
    is_absolute_path(path)
}

} // verus!

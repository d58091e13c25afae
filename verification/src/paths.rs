//! File system paths, held as strings. What a path's parts are is decided by
//! `std::path::Path`; the names below stand for its answers.
use vstd::prelude::*;
use crate::text::opt_view;

verus! {

/// What `Path::parent` returns for a path, as text.
pub uninterp spec fn path_parent(path: Seq<char>) -> Option<Seq<char>>;

/// What `Path::file_name` returns for a path, as text.
pub uninterp spec fn path_file_name(path: Seq<char>) -> Option<Seq<char>>;

/// What `Path::starts_with` answers for a path and a base.
pub uninterp spec fn path_starts_with(path: Seq<char>, base: Seq<char>) -> bool;

/// What `==` on two `Path`s answers.
pub uninterp spec fn paths_equal(a: Seq<char>, b: Seq<char>) -> bool;

/// What `Path::join` returns for a base and a path, as text.
pub uninterp spec fn path_join(base: Seq<char>, path: Seq<char>) -> Seq<char>;

/// The position of the last `.` in a file name, if there is one.
pub open spec fn last_dot(name: Seq<char>) -> Option<int>
    decreases name.len(),
{
    if name.len() == 0 {
        None
    } else if name.last() == '.' {
        Some(name.len() - 1)
    } else {
        last_dot(name.drop_last())
    }
}

/// The stem of a file name: everything before the final `.`, or the whole
/// name when it has no `.` or its only `.` is the first character.
pub open spec fn stem_of(name: Seq<char>) -> Seq<char> {
    match last_dot(name) {
        Some(i) => if i == 0 { name } else { name.take(i) },
        None => name,
    }
}

/// The extension of a file name: everything after the final `.`, except when
/// the name has no `.` or its only `.` is the first character.
pub open spec fn ext_of(name: Seq<char>) -> Option<Seq<char>> {
    match last_dot(name) {
        Some(i) => if i == 0 { None } else { Some(name.skip(i + 1)) },
        None => None,
    }
}

/// Calls `std::path::Path::parent`. Claimed: the result is the named
/// `path_parent` of the argument.
#[verifier::external_body]
pub(crate) fn parent_of(path: &str) -> (res: Option<String>)
    ensures
        opt_view(res) == path_parent(path@),
{
    match std::path::Path::new(path).parent() {
        Some(p) => Some(p.to_string_lossy().into_owned()),
        None => None,
    }
}

/// Calls `std::path::Path::file_name`. Claimed: the result is the named
/// `path_file_name` of the argument.
#[verifier::external_body]
pub(crate) fn file_name_of(path: &str) -> (res: Option<String>)
    ensures
        opt_view(res) == path_file_name(path@),
{
    match std::path::Path::new(path).file_name() {
        Some(n) => Some(n.to_string_lossy().into_owned()),
        None => None,
    }
}

/// The position of the last `.` in a file name, if there is one.
fn last_dot_index(name: &str) -> (res: Option<usize>)
    ensures
        match res {
            Some(i) => last_dot(name@) == Some(i as int) && i < name@.len(),
            None => last_dot(name@) is None,
        },
{
    let n: usize = name.unicode_len();
    let mut j: usize = n;
    assert(name@.take(n as int) =~= name@);
    while j > 0
        invariant
            n == name@.len(),
            j <= n,
            last_dot(name@) == last_dot(name@.take(j as int)),
        decreases j,
    {
        let c = name.get_char(j - 1);
        assert(name@.take(j as int).last() == c);
        assert(name@.take(j as int).drop_last() =~= name@.take(j - 1));
        if c == '.' {
            return Some(j - 1);
        }
        j = j - 1;
    }
    None
}

/// The stem of a file name, as `Path::file_stem` documents it.
pub fn stem_from_name(name: &str) -> (res: String)
    ensures
        res@ == stem_of(name@),
{
    match last_dot_index(name) {
        Some(i) => if i == 0 {
            String::from_str(name)
        } else {
            String::from_str(name.substring_char(0, i))
        },
        None => String::from_str(name),
    }
}

/// The extension of a file name, as `Path::extension` documents it.
pub fn ext_from_name(name: &str) -> (res: Option<String>)
    ensures
        opt_view(res) == ext_of(name@),
{
    let n: usize = name.unicode_len();
    match last_dot_index(name) {
        Some(i) => if i == 0 {
            None
        } else {
            assert(name@.subrange(i + 1, n as int) =~= name@.skip(i + 1));
            Some(String::from_str(name.substring_char(i + 1, n)))
        },
        None => None,
    }
}

/// Calls `std::path::Path::starts_with`. Claimed: the answer is the named
/// `path_starts_with` of the arguments.
#[verifier::external_body]
pub(crate) fn starts_with_path(path: &str, base: &str) -> (res: bool)
    ensures
        res == path_starts_with(path@, base@),
{
    std::path::Path::new(path).starts_with(base)
}

/// Compares two paths with `==` on `std::path::Path`. Claimed: the answer is
/// the named `paths_equal` of the arguments.
#[verifier::external_body]
pub(crate) fn same_path(a: &str, b: &str) -> (res: bool)
    ensures
        res == paths_equal(a@, b@),
{
    std::path::Path::new(a) == std::path::Path::new(b)
}

/// Calls `std::path::Path::join`. Claimed: the result is the named
/// `path_join` of the arguments.
#[verifier::external_body]
pub(crate) fn join_path(base: &str, path: &str) -> (res: String)
    ensures
        res@ == path_join(base@, path@),
{
    std::path::Path::new(base).join(path).to_string_lossy().into_owned()
}

/// Calls `std::path::Path::is_dir`, which asks the file system. Nothing is
/// claimed of the answer: it depends on what is on disk at the time.
#[verifier::external_body]
pub(crate) fn path_is_dir(path: &str) -> bool {
    std::path::Path::new(path).is_dir()
}

} // verus!

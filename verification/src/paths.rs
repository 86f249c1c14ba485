//! The parts of a file path that the editor looks at: its file name and
//! the file name's extension.
use vstd::prelude::*;

verus! {

/// The last component of a path, as `std::path::Path::file_name` gives it
/// (`None` when the path ends in `..` or has no component).
pub uninterp spec fn file_name_spec(path: Seq<char>) -> Option<Seq<char>>;

/// Calls `std::path::Path::file_name` on `path`. The name comes from a
/// `&str`, so converting it back to a `String` loses nothing; the result is
/// named by `file_name_spec`, and nothing more is stated of it.
#[verifier::external_body]
pub fn file_name(path: &str) -> (r: Option<String>)
    ensures
        match r {
            Some(n) => file_name_spec(path@) == Some(n@),
            None => file_name_spec(path@) is None,
        },
{
    match std::path::Path::new(path).file_name() {
        Some(name) => Some(name.to_string_lossy().to_string()),
        None => None,
    }
}

/// The index of the last `.` in `n`.
pub open spec fn last_dot(n: Seq<char>) -> Option<int>
    decreases n.len(),
{
    if n.len() == 0 {
        None
    } else if n.last() == '.' {
        Some(n.len() - 1)
    } else {
        last_dot(n.drop_last())
    }
}

/// The extension of a file name: what follows its last `.`; none when it
/// has no `.`, or its only `.` is its first char.
pub open spec fn extension_of_name(n: Seq<char>) -> Option<Seq<char>> {
    match last_dot(n) {
        Some(i) => if i == 0 {
            None
        } else {
            Some(n.skip(i + 1))
        },
        None => None,
    }
}

/// The extension of a path, as `std::path::Path::extension` documents it.
pub open spec fn extension_spec(path: Seq<char>) -> Option<Seq<char>> {
    match file_name_spec(path) {
        Some(n) => extension_of_name(n),
        None => None,
    }
}

/// Calls `std::path::Path::extension` on `path`. Its documentation says
/// what the contract states: no extension without a file name, nor when the
/// file name has no `.` or begins with its only `.`; otherwise the part of
/// the file name after its last `.`.
#[verifier::external_body]
pub fn extension(path: &str) -> (r: Option<String>)
    ensures
        match r {
            Some(e) => extension_spec(path@) == Some(e@),
            None => extension_spec(path@) is None,
        },
{
    match std::path::Path::new(path).extension() {
        Some(ext) => Some(ext.to_string_lossy().to_string()),
        None => None,
    }
}

/// The stem of a path, as `std::path::Path::file_stem` documents it.
pub open spec fn file_stem_spec(path: Seq<char>) -> Option<Seq<char>> {
    match file_name_spec(path) {
        Some(n) => match last_dot(n) {
            Some(i) => if i == 0 {
                Some(n)
            } else {
                Some(n.take(i))
            },
            None => Some(n),
        },
        None => None,
    }
}

/// Calls `std::path::Path::file_stem` on `path`. Its documentation says
/// what the contract states: no stem without a file name; the whole file
/// name when it has no `.`, or begins with its only `.`; otherwise the part
/// of the file name before its last `.`.
#[verifier::external_body]
pub fn file_stem(path: &str) -> (r: Option<String>)
    ensures
        match r {
            Some(e) => file_stem_spec(path@) == Some(e@),
            None => file_stem_spec(path@) is None,
        },
{
    match std::path::Path::new(path).file_stem() {
        Some(stem) => Some(stem.to_string_lossy().to_string()),
        None => None,
    }
}

} // verus!

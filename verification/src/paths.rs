//! Where the record of a document is written: the output directory, the
//! document's file name, and the extension of the output format.
//!
//! Paths are texts here. What a path's file name is, and how paths are joined,
//! is the platform's matter and is left to `std::path`; each of its answers has
//! a name, a spec function without a body.

use vstd::prelude::*;

verus! {

/// The extension of the files that hold a record.
pub const JSON_EXTENSION: &'static str = "json";

/// The last component of `path`, if it has one that is a file or directory
/// name: what `Path::file_name` returns.
pub uninterp spec fn path_file_name(path: Seq<char>) -> Option<Seq<char>>;

/// `name` placed under the directory `base`: what `Path::join` returns.
pub uninterp spec fn path_join(base: Seq<char>, name: Seq<char>) -> Seq<char>;

/// `path` with `extension` in place of its own, or added where it has none:
/// what `Path::with_extension` returns.
pub uninterp spec fn path_with_extension(path: Seq<char>, extension: Seq<char>) -> Seq<char>;

/// `c` separates the components of a path on some platform.
pub open spec fn is_path_separator(c: char) -> bool {
    c == '/' || c == '\\'
}

/// The path of the record of the document at `file_path`, under `out_dir`.
/// There is none where `file_path` has no file name.
pub open spec fn out_json_path_of(out_dir: Seq<char>, file_path: Seq<char>) -> Option<Seq<char>> {
    match path_file_name(file_path) {
        Some(name) => Some(path_with_extension(path_join(out_dir, name), JSON_EXTENSION@)),
        None => None,
    }
}

/// Calls `Path::file_name` on `path`. The result is what `path_file_name`
/// names. A component of a path that was given as text is text again.
#[verifier::external_body]
fn file_name(path: &str) -> (name: Option<String>)
    ensures
        match name {
            Some(found) => path_file_name(path@) == Some(found@),
            None => path_file_name(path@) is None,
        },
{
    match std::path::Path::new(path).file_name() {
        Some(found) => Some(found.to_string_lossy().into_owned()),
        None => None,
    }
}

/// Calls `Path::join`. The result is what `path_join` names.
#[verifier::external_body]
fn join_path(base: &str, name: &str) -> (joined: String)
    ensures
        joined@ == path_join(base@, name@),
{
    std::path::Path::new(base).join(name).to_string_lossy().into_owned()
}

/// Calls `Path::with_extension`, which panics on an extension that holds a
/// path separator. The result is what `path_with_extension` names.
#[verifier::external_body]
fn with_extension(path: &str, extension: &str) -> (changed: String)
    requires
        forall|i: int| 0 <= i < extension@.len() ==> !is_path_separator(#[trigger] extension@[i]),
    ensures
        changed@ == path_with_extension(path@, extension@),
{
    std::path::Path::new(path).with_extension(extension).to_string_lossy().into_owned()
}

/// The path of the record of the document at `file_path`: its file name, placed
/// under `out_dir`, with the extension `json`.
pub fn get_out_json_path(out_dir: &str, file_path: &str) -> (out: Option<String>)
    ensures
        match out {
            Some(path) => out_json_path_of(out_dir@, file_path@) == Some(path@),
            None => out_json_path_of(out_dir@, file_path@) is None,
        },
{
    match file_name(file_path) {
        Some(name) => {
            let joined = join_path(out_dir, name.as_str());
            proof {
                reveal_strlit("json");
            }
            Some(with_extension(joined.as_str(), JSON_EXTENSION))
        },
        None => None,
    }
}

} // verus!

//! Path computations of `std::path` on textual paths.
use vstd::prelude::*;

verus! {

/// The parent directory of a path as text (`Path::parent`), or the empty
/// text when it has none.
pub uninterp spec fn path_parent_text(path: Seq<char>) -> Seq<char>;

/// The text of `base` joined with `rest` (`Path::join`).
pub uninterp spec fn path_join_text(base: Seq<char>, rest: Seq<char>) -> Seq<char>;

/// The final component of a path without its extension (`Path::file_stem`).
pub uninterp spec fn path_file_stem_text(path: Seq<char>) -> Option<Seq<char>>;

/// The extension of the final component of a path (`Path::extension`).
pub uninterp spec fn path_extension_text(path: Seq<char>) -> Option<Seq<char>>;

/// `Path::new(path).parent()` as a string ("" when there is none).
/// Trusted: the result is the named parent text of the argument.
#[verifier::external_body]
pub fn path_parent(path: &str) -> (r: String)
    ensures
        r@ == path_parent_text(path@),
{
    std::path::Path::new(path).parent().map(|p| p.to_string_lossy().to_string()).unwrap_or_default()
}

/// `Path::new(base).join(rest)` as a string.
/// Trusted: the result is the named join of the arguments.
#[verifier::external_body]
pub fn path_join(base: &str, rest: &str) -> (r: String)
    ensures
        r@ == path_join_text(base@, rest@),
{
    std::path::Path::new(base).join(rest).to_string_lossy().to_string()
}

/// `Path::is_absolute`: on Unix, a path is absolute when it starts with `/`.
#[verifier::external_body]
pub fn path_is_absolute(path: &str) -> (r: bool)
    ensures
        r == (path@.len() > 0 && path@[0] == '/'),
{
    std::path::Path::new(path).is_absolute()
}

/// `Path::new(path).file_stem()` as a string, when it is valid Unicode.
/// Trusted: the result is the named stem of the argument.
#[verifier::external_body]
pub fn path_file_stem(path: &str) -> (r: Option<String>)
    ensures
        match r {
            Some(s) => path_file_stem_text(path@) == Some(s@),
            None => path_file_stem_text(path@) is None,
        },
{
    std::path::Path::new(path).file_stem().and_then(|s| s.to_str()).map(|s| s.to_string())
}

/// `Path::new(path).extension()` as a string, when it is valid Unicode.
/// Trusted: the result is the named extension of the argument.
#[verifier::external_body]
pub fn path_extension(path: &str) -> (r: Option<String>)
    ensures
        match r {
            Some(s) => path_extension_text(path@) == Some(s@),
            None => path_extension_text(path@) is None,
        },
{
    std::path::Path::new(path).extension().and_then(|s| s.to_str()).map(|s| s.to_string())
}

} // verus!

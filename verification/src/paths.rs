//! Path arithmetic on textual paths.
use vstd::prelude::*;

verus! {

/// The parent of a path, as `std::path::Path::parent` computes it under the
/// path rules of the platform the library is built for.
pub uninterp spec fn path_parent_spec(p: Seq<char>) -> Option<Seq<char>>;

/// The final component of a path, as `std::path::Path::file_name` computes
/// it under the path rules of the platform the library is built for.
pub uninterp spec fn path_file_name_spec(p: Seq<char>) -> Option<Seq<char>>;

/// Calls `std::path::Path::parent` on `p`. The contract names the result;
/// the component rules that decide it are not restated.
#[verifier::external_body]
pub(crate) fn path_parent(p: &str) -> (r: Option<String>)
    ensures
        r is None <==> path_parent_spec(p@) is None,
        r matches Some(x) ==> path_parent_spec(p@) == Some(x@),
{
    std::path::Path::new(p).parent().map(|x| x.to_string_lossy().into_owned())
}

/// Calls `std::path::Path::file_name` on `p` and keeps a name only where it
/// is valid UTF-8 (as `OsStr::to_str` does). The contract names the result.
#[verifier::external_body]
pub(crate) fn path_file_name(p: &str) -> (r: Option<String>)
    ensures
        r is None <==> path_file_name_spec(p@) is None,
        r matches Some(x) ==> path_file_name_spec(p@) == Some(x@),
{
    std::path::Path::new(p).file_name().and_then(|x| x.to_str()).map(String::from)
}


/// The extension of a path, as `std::path::Path::extension` computes it
/// under the path rules of the platform the library is built for.
pub uninterp spec fn path_extension_spec(p: Seq<char>) -> Option<Seq<char>>;

/// Calls `std::path::Path::extension` on `p`; the contract names the result.
#[verifier::external_body]
pub(crate) fn path_extension(p: &str) -> (r: Option<String>)
    ensures
        r is None <==> path_extension_spec(p@) is None,
        r matches Some(x) ==> path_extension_spec(p@) == Some(x@),
{
    std::path::Path::new(p).extension().and_then(|x| x.to_str()).map(String::from)
}


/// Whether two paths are equal as `std::path::Path` compares them, by
/// their components under the path rules of the platform the library is
/// built for.
pub uninterp spec fn same_path_spec(a: Seq<char>, b: Seq<char>) -> bool;

/// Compares two paths with `std::path::Path`'s `==`; the contract names the
/// result.
#[verifier::external_body]
pub(crate) fn same_path(a: &str, b: &str) -> (r: bool)
    ensures
        r == same_path_spec(a@, b@),
{
    std::path::Path::new(a) == std::path::Path::new(b)
}

} // verus!

//! Filesystem paths, held as strings. What `std::path` computes on them is
//! named here and left to it.
use vstd::prelude::*;

verus! {

/// The path that `Path::join` makes of `base` followed by `component`.
pub uninterp spec fn joined_path(base: Seq<char>, component: Seq<char>) -> Seq<char>;

/// The extension that `Path::extension` finds in `path`, if it finds one.
pub uninterp spec fn path_extension(path: Seq<char>) -> Option<Seq<char>>;

/// Calls `Path::join`; the contract names its result `joined_path` of the two
/// arguments. Both arguments are UTF-8, so the result converts back without loss.
#[verifier::external_body]
pub(crate) fn join_path(base: &str, component: &str) -> (p: String)
    ensures
        p@ == joined_path(base@, component@),
{
    std::path::Path::new(base).join(component).to_string_lossy().into_owned()
}

/// Calls `Path::extension`; the contract names its result `path_extension` of
/// the path. The extension of a UTF-8 path is UTF-8, so `to_str` keeps it.
#[verifier::external_body]
pub(crate) fn extension_of(path: &str) -> (e: Option<String>)
    ensures
        match e {
            Some(x) => path_extension(path@) == Some(x@),
            None => path_extension(path@) is None,
        },
{
    match std::path::Path::new(path).extension() {
        Some(x) => x.to_str().map(str::to_owned),
        None => None,
    }
}

} // verus!

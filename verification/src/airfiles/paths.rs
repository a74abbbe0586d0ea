use vstd::prelude::*;

verus! {

/// Name for the components that `std::path::Path::components` yields for the
/// path with this text, each component as text, on the platform the library
/// is built for.
pub uninterp spec fn path_components_of(path: Seq<char>) -> Seq<Seq<char>>;

/// Name for the text of the `std::path::PathBuf` that collecting these
/// components builds, on the platform the library is built for.
pub uninterp spec fn path_from_components(components: Seq<Seq<char>>) -> Seq<char>;

/// Name for whether `std::path::Path` considers the paths with these texts
/// equal, on the platform the library is built for.
pub uninterp spec fn same_path(a: Seq<char>, b: Seq<char>) -> bool;

/// The texts of a sequence of strings.
pub open spec fn texts(v: Seq<String>) -> Seq<Seq<char>> {
    v.map_values(|s: String| s@)
}

/// Calls `std::path::Path::components` on `path` and turns each component into
/// a `String` (losslessly, as the path is valid text). Trusted to return the
/// components named by `path_components_of`; nothing more is claimed.
#[verifier::external_body]
pub(crate) fn components_of(path: &str) -> (components: Vec<String>)
    ensures
        texts(components@) == path_components_of(path@),
{
    std::path::Path::new(path)
        .components()
        .map(|c| c.as_os_str().to_string_lossy().into_owned())
        .collect()
}

/// Collects the components into a `std::path::PathBuf` and returns its text
/// (lossless, as every component is valid text). Trusted to return the text
/// named by `path_from_components`; nothing more is claimed.
#[verifier::external_body]
pub(crate) fn join_components(components: &Vec<String>) -> (path: String)
    ensures
        path@ == path_from_components(texts(components@)),
{
    components.iter().collect::<std::path::PathBuf>().to_string_lossy().into_owned()
}

/// Compares two paths with `std::path::Path`'s `==`. Trusted to return the
/// value named by `same_path`, and to find a path equal to itself, as `Path`
/// implements `Eq` (a reflexive equality); nothing more is claimed.
#[verifier::external_body]
pub(crate) fn paths_equal(a: &str, b: &str) -> (r: bool)
    ensures
        r == same_path(a@, b@),
        a@ == b@ ==> r,
{
    std::path::Path::new(a) == std::path::Path::new(b)
}

} // verus!

//! Where an image source lies: as written where it is absolute, under the
//! base directory otherwise. What counts as absolute, and how two paths
//! are joined, is the platform's business and is left to `std::path`.

use vstd::prelude::*;

verus! {

/// What `Path::is_absolute` says of a path, on the platform that the
/// library is built for.
pub uninterp spec fn path_is_absolute(path: Seq<char>) -> bool;

/// What `Path::join` makes of a base and a path, as text, on the platform
/// that the library is built for.
pub uninterp spec fn path_joined(base: Seq<char>, path: Seq<char>) -> Seq<char>;

/// `Path::is_absolute`. The answer depends on the path alone.
#[verifier::external_body]
fn is_absolute(path: &str) -> (r: bool)
    ensures
        r == path_is_absolute(path@),
{
    std::path::Path::new(path).is_absolute()
}

/// `Path::join`, read back as text. The result depends on the two paths
/// alone; both are valid UTF-8, so nothing is lost in reading it back.
#[verifier::external_body]
fn join(base: &str, path: &str) -> (r: String)
    ensures
        r@ == path_joined(base@, path@),
{
    std::path::Path::new(base).join(path).to_string_lossy().into_owned()
}

/// The resolved place of an image source.
pub open spec fn resolved_source(base: Seq<char>, source: Seq<char>) -> Seq<char> {
    if path_is_absolute(source) {
        source
    } else {
        path_joined(base, source)
    }
}

/// An absolute source as it is; any other joined to `base_dir`.
pub fn resolve_image_source(base_dir: &str, source: &str) -> (r: String)
    ensures
        r@ == resolved_source(base_dir@, source@),
{
    let absolute = is_absolute(source);
    let joined = join(base_dir, source);
    pick_source(source, absolute, joined)
}

/// The resolved place once the platform has answered: `source` where it
/// is absolute, `joined` otherwise.
pub fn pick_source(source: &str, absolute: bool, joined: String) -> (r: String)
    ensures
        r@ == if absolute {
            source@
        } else {
            joined@
        },
{
    if absolute {
        source.to_owned()
    } else {
        joined
    }
}

} // verus!

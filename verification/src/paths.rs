//! Path computations of the standard library on paths held as strings, each
//! behind a small trusted wrapper.
use vstd::prelude::*;

use crate::text::{all_ascii, lowercase_ascii_text};

verus! {

/// The parent that `std::path::Path::parent` gives for the path `p`.
pub uninterp spec fn path_parent(p: Seq<char>) -> Option<Seq<char>>;

/// The path that `std::path::Path::join` makes of `base` and `name`.
pub uninterp spec fn path_join(base: Seq<char>, name: Seq<char>) -> Seq<char>;

/// The extension that `std::path::Path::extension` finds in the path `p`.
pub uninterp spec fn path_extension(p: Seq<char>) -> Option<Seq<char>>;

/// The path that `std::path::PathBuf::set_extension` makes of `p` with the
/// extension `ext`.
pub uninterp spec fn path_with_extension(p: Seq<char>, ext: Seq<char>) -> Seq<char>;

/// Whether `std::path::Path`'s equality, which compares the paths component
/// by component, holds between `a` and `b`.
pub uninterp spec fn path_equal(a: Seq<char>, b: Seq<char>) -> bool;

/// The string that `str::to_lowercase` makes of `s`.
pub uninterp spec fn lowercase(s: Seq<char>) -> Seq<char>;

/// Wrapper of `Path::parent` on a path held as a string. Claims the result
/// is the named parent of the path.
#[verifier::external_body]
pub(crate) fn parent_of(p: &str) -> (r: Option<String>)
    ensures
        match r {
            Some(q) => path_parent(p@) == Some(q@),
            None => path_parent(p@) is None,
        },
{
    match std::path::Path::new(p).parent() {
        Some(q) => Some(q.to_string_lossy().into_owned()),
        None => None,
    }
}

/// Wrapper of `Path::join`. Claims the result is the named join of the two
/// paths.
#[verifier::external_body]
pub(crate) fn join_path(base: &str, name: &str) -> (r: String)
    ensures
        r@ == path_join(base@, name@),
{
    std::path::Path::new(base).join(name).to_string_lossy().into_owned()
}

/// Wrapper of `PathBuf::set_extension`. Claims the result is the named path
/// with the extension replaced. The extension may hold no path separator,
/// on which `set_extension` panics.
#[verifier::external_body]
pub(crate) fn with_extension(p: &str, ext: &str) -> (r: String)
    requires
        !ext@.contains('/'),
        !ext@.contains('\\'),
    ensures
        r@ == path_with_extension(p@, ext@),
{
    let mut b = std::path::PathBuf::from(p);
    b.set_extension(ext);
    b.to_string_lossy().into_owned()
}

/// Wrapper of `Path::extension`. Claims the result is the named extension of
/// the path.
#[verifier::external_body]
pub(crate) fn extension_of(p: &str) -> (r: Option<String>)
    ensures
        match r {
            Some(e) => path_extension(p@) == Some(e@),
            None => path_extension(p@) is None,
        },
{
    match std::path::Path::new(p).extension() {
        Some(e) => Some(e.to_string_lossy().into_owned()),
        None => None,
    }
}

/// Wrapper of `<Path as PartialEq>::eq`. Claims the result is the named
/// comparison, which holds at least of two equal strings.
#[verifier::external_body]
pub(crate) fn same_path(a: &str, b: &str) -> (r: bool)
    ensures
        r == path_equal(a@, b@),
        a@ == b@ ==> r,
{
    std::path::Path::new(a) == std::path::Path::new(b)
}

/// Wrapper of `str::to_lowercase`. Claims the result is the named lower-case
/// form of the string, and that an ASCII text is lowered letter by letter
/// (`A`-`Z` become `a`-`z`, every other character stays), as the Unicode
/// lower-case mapping does within ASCII.
#[verifier::external_body]
pub(crate) fn to_lowercase(s: &str) -> (r: String)
    ensures
        r@ == lowercase(s@),
        all_ascii(s@) ==> r@ == lowercase_ascii_text(s@),
{
    s.to_lowercase()
}

} // verus!

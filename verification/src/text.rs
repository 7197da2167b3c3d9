//! Text and path operations of the standard library that the decoder relies
//! on. Their results are named, not computed, in contracts.

use vstd::prelude::*;

verus! {

/// The text that `String::from_utf16_lossy` yields for a sequence of UTF-16
/// code units.
pub uninterp spec fn utf16_text(units: Seq<u16>) -> Seq<char>;

/// The path that `std::path::Path::join` yields for a root and a path to
/// adjoin to it, both as text. The separator is the one of the platform the
/// library is compiled for.
pub uninterp spec fn joined_path(root: Seq<char>, name: Seq<char>) -> Seq<char>;

/// Calls `String::from_utf16_lossy`. Trusted: the result is the text that the
/// standard library decodes from these code units, a function of the units
/// alone; an unpaired surrogate becomes U+FFFD.
#[verifier::external_body]
pub(crate) fn decode_utf16(units: &Vec<u16>) -> (text: String)
    ensures
        text@ == utf16_text(units@),
{
    String::from_utf16_lossy(units.as_slice())
}

/// Calls `std::path::Path::join` on `root` with `name`. Trusted: the result
/// is the joined path as text, a function of the two texts alone. Both
/// arguments are valid UTF-8, so turning the joined path back into a
/// `String` loses nothing.
#[verifier::external_body]
pub(crate) fn join_path(root: &str, name: &str) -> (path: String)
    ensures
        path@ == joined_path(root@, name@),
{
    std::path::Path::new(root).join(name).to_string_lossy().into_owned()
}

} // verus!

//! Unicode case mapping, done by the standard library.
use vstd::prelude::*;
use crate::text::ascii_lower;

verus! {

/// The lower-case mapping of a text, as `str::to_lowercase` computes it
/// from the Unicode tables.
pub uninterp spec fn lowercase_spec(s: Seq<char>) -> Seq<char>;

/// Calls `str::to_lowercase`. The contract names the result: the Unicode
/// case tables are not restated. On ASCII text the mapping is the ASCII one,
/// `A`-`Z` to `a`-`z` and nothing else changed, as std documents for ASCII
/// letters.
#[verifier::external_body]
pub(crate) fn to_lowercase(s: &str) -> (r: String)
    ensures
        r@ == lowercase_spec(s@),
        (forall|i: int| 0 <= i < s@.len() ==> (#[trigger] s@[i] as u32) < 128) ==> r@ == ascii_lower(s@),
{
    s.to_lowercase()
}

} // verus!

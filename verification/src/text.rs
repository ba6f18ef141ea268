//! Shortening titles for table cells. A long title is cut at a byte budget
//! and marked with a suffix; the cut may land inside a multi-byte character,
//! which the lossy re-decoding turns into a replacement character.

use vstd::prelude::*;
use vstd::slice::slice_subrange;
use vstd::string::{StringExecFns, StringSliceAdditionalSpecFns};
use vstd::utf8::encode_utf8;

verus! {

/// The characters that lossy UTF-8 decoding yields for the given bytes.
pub uninterp spec fn lossy_decoded(b: Seq<u8>) -> Seq<char>;

/// Relies on `String::from_utf8_lossy`: decodes UTF-8, standing in a
/// replacement character for each invalid sequence; the result depends on
/// the bytes alone.
#[verifier::external_body]
fn from_utf8_lossy_string(b: &[u8]) -> (r: String)
    ensures
        r@ == lossy_decoded(b@),
{
    String::from_utf8_lossy(b).into_owned()
}

/// Shorten `s` for display: a string of more than `limit` bytes is replaced
/// by its first `keep` bytes, re-decoded, with `suffix` appended; a short
/// string passes through unchanged.
pub fn limit_string(s: &String, limit: usize, keep: usize, suffix: &str) -> (r: String)
    requires
        keep <= limit,
    ensures
        encode_utf8(s@).len() <= limit ==> r@ == s@,
        encode_utf8(s@).len() > limit ==> r@ == lossy_decoded(
            encode_utf8(s@).subrange(0, keep as int),
        ) + suffix@,
{
    let st: &str = s.as_str();
    let b: &[u8] = st.as_bytes();
    if b.len() > limit {
        let prefix = slice_subrange(b, 0, keep);
        let mut r = from_utf8_lossy_string(prefix);
        r.append(suffix);
        r
    } else {
        s.clone()
    }
}

} // verus!

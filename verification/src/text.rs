//! Bytes and text: what the scan needs to compare tag names and to turn
//! the lexer's raw bytes into strings.

use vstd::prelude::*;
use vstd::string::StringSliceAdditionalSpecFns;
use vstd::utf8::{decode_utf8, valid_utf8};

verus! {

/// Trusted name: the text that `String::from_utf8_lossy` makes of `bytes`.
pub uninterp spec fn utf8_lossy(bytes: Seq<u8>) -> Seq<char>;

/// Trusted. Calls `String::from_utf8_lossy` and takes ownership of what it
/// returns. Claims that the text depends on the bytes alone, and that bytes
/// that are valid UTF-8 are decoded as they are; of other bytes std says
/// that each invalid sequence gives way to U+FFFD, which is not stated here.
#[verifier::external_body]
pub(crate) fn lossy_text(bytes: &[u8]) -> (text: String)
    ensures
        text@ == utf8_lossy(bytes@),
        valid_utf8(bytes@) ==> text@ == decode_utf8(bytes@),
{
    String::from_utf8_lossy(bytes).into_owned()
}

/// The text that raw bytes stand for: bytes that are valid UTF-8 decoded
/// as they are, any others as `String::from_utf8_lossy` reads them.
pub open spec fn text_of(bytes: Seq<u8>) -> Seq<char> {
    if valid_utf8(bytes) {
        decode_utf8(bytes)
    } else {
        utf8_lossy(bytes)
    }
}

/// Whether `bytes` spell `word`, byte for byte.
pub fn bytes_are(bytes: &[u8], word: &str) -> (same: bool)
    ensures
        same == (bytes@ == word.spec_bytes()),
{
    let expected = word.as_bytes();
    if bytes.len() != expected.len() {
        return false;
    }
    let mut i: usize = 0;
    while i < bytes.len()
        invariant
            i <= bytes.len(),
            bytes.len() == expected.len(),
            expected@ == word.spec_bytes(),
            bytes@.take(i as int) == expected@.take(i as int),
        decreases bytes.len() - i,
    {
        if bytes[i] != expected[i] {
            return false;
        }
        i += 1;
    }
    proof {
        assert(bytes@.take(i as int) == bytes@);
        assert(expected@.take(i as int) == expected@);
    }
    true
}

} // verus!

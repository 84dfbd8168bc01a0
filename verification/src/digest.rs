//! The hash step: MD5 digests rendered as lowercase hexadecimal text.

use vstd::prelude::*;
use vstd::string::StringSliceAdditionalSpecFns;
use crate::alphabet::ascii_chars;

verus! {

/// The MD5 digest of a byte string, written as lowercase hexadecimal
/// text.  Which digits come out is the md5 crate's business; the name
/// fixes only that they are a function of the input bytes alone.
pub uninterp spec fn md5_hex_of(bytes: Seq<u8>) -> Seq<char>;

/// Relies on md5::compute and the md5 crate's LowerHex rendering of a
/// digest: a pure function of the input bytes, written as two
/// lowercase hexadecimal digits for each of the 16 digest bytes.
#[verifier::external_body]
pub(crate) fn md5_hex(bytes: &[u8]) -> (r: String)
    ensures
        r@ == md5_hex_of(bytes@),
        r@.len() == 32,
{
    format!("{:x}", md5::compute(bytes))
}

/// Relies on String::from_utf8: a vector of bytes below 128 is valid
/// UTF-8 and decodes to one character per byte.
#[verifier::external_body]
pub(crate) fn ascii_string(bytes: Vec<u8>) -> (r: String)
    requires
        forall|i: int| 0 <= i < bytes@.len() ==> bytes@[i] < 128,
    ensures
        r@ == ascii_chars(bytes@),
{
    match String::from_utf8(bytes) {
        Ok(s) => s,
        Err(_) => String::new(),
    }
}

/// Computes the digest of an arbitrary input string: its UTF-8 bytes
/// hashed and rendered as lowercase hexadecimal.  Pure and stateless;
/// the same utility the search loop uses on each candidate.
pub fn compute_digest(input: &str) -> (r: String)
    ensures
        r@ == md5_hex_of(input.spec_bytes()),
        r@.len() == 32,
{
    md5_hex(input.as_bytes())
}

} // verus!

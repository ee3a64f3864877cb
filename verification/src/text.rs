//! Payload names as text.
//!
//! On disk a name is stored as its UTF-8 bytes.  Decoding never rejects a
//! name: malformed sequences are lossily replaced, exactly as the string
//! library does it.  Valid UTF-8 round-trips unchanged, which is what the
//! container round-trip rests on.

use vstd::prelude::*;
use vstd::utf8::decode_utf8;
use vstd::utf8::valid_utf8;

verus! {

/// The character sequence that lossy UTF-8 decoding yields for arbitrary
/// bytes, as `String::from_utf8_lossy` computes it.  It depends on the
/// bytes alone; its definition is left to the standard library.
pub uninterp spec fn lossy_decode(bytes: Seq<u8>) -> Seq<char>;

/// The UTF-8 bytes of a name, as a vector of their own.
pub fn name_to_bytes(s: &String) -> (b: Vec<u8>)
    ensures
        b@ == vstd::utf8::encode_utf8(s@),
{
    vstd::slice::slice_to_vec(s.as_str().as_bytes())
}

/// Relies on `String::from_utf8_lossy`: the result depends on the bytes
/// alone, and bytes that are valid UTF-8 decode to exactly their character
/// sequence.
#[verifier::external_body]
pub fn bytes_to_name(b: &Vec<u8>) -> (s: String)
    ensures
        s@ == lossy_decode(b@),
        valid_utf8(b@) ==> s@ == decode_utf8(b@),
{
    String::from_utf8_lossy(b.as_slice()).into_owned()
}

} // verus!

//! Base64 decoding of values the front end hands over, through the
//! `base64` crate.

use vstd::prelude::*;

verus! {

/// What `base64::decode` returns on the bytes of `s`: the decoded bytes,
/// or nothing when `s` is not valid standard base64.
pub uninterp spec fn b64_decoded(s: Seq<u8>) -> Option<Seq<u8>>;

/// Relies on `base64::decode` (standard alphabet, padded): the result is a
/// function of the input bytes alone, and an empty input decodes to empty
/// bytes.
#[verifier::external_body]
fn b64_decode_raw(encoded: &Vec<u8>) -> (r: Option<Vec<u8>>)
    ensures
        r is Some <==> b64_decoded(encoded@) is Some,
        r matches Some(v) ==> b64_decoded(encoded@) == Some(v@),
        r is Some || encoded@.len() > 0,
        r matches Some(v) ==> encoded@.len() > 0 || v@.len() == 0,
{
    base64::decode(encoded.as_slice()).ok()
}

/// Decode a standard-base64 value. Returns the decoded bytes, or nothing
/// exactly when the input is not valid base64.
pub fn base64_decode(encoded: &Vec<u8>) -> (r: Option<Vec<u8>>)
    ensures
        r is Some <==> b64_decoded(encoded@) is Some,
        r matches Some(v) ==> b64_decoded(encoded@) == Some(v@),
        encoded@.len() == 0 ==> (r matches Some(v) && v@.len() == 0),
{
    let r = b64_decode_raw(encoded);
    proof {
        if encoded@.len() == 0 {
            assert(r is Some);
        }
    }
    r
}

} // verus!

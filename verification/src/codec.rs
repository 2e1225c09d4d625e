//! The transport text codec: the metadata store's file bytes travel inside
//! a post body as base64 text. Encoding and decoding are pure, deterministic
//! and round-trip exact.

use crate::CodecError;
use base64::engine::Engine;
use vstd::prelude::*;

verus! {

/// The base64 rendering of a byte sequence under the standard alphabet with
/// canonical padding.
pub uninterp spec fn b64_of(bytes: Seq<u8>) -> Seq<char>;

/// The bytes a base64 text denotes, where it denotes any.
pub uninterp spec fn b64_bytes_of(text: Seq<char>) -> Seq<u8>;

#[verifier::external_type_specification]
#[verifier::external_body]
pub struct ExDecodeError(base64::DecodeError);

/// Relies on base64's standard engine `encode`: the result is a function of
/// the bytes alone, and `decode` returns exactly those bytes from it.
#[verifier::external_body]
fn b64_encode(bytes: &Vec<u8>) -> (r: String)
    ensures
        r@ == b64_of(bytes@),
        b64_bytes_of(r@) == bytes@,
{
    base64::engine::general_purpose::STANDARD.encode(bytes)
}

/// Relies on base64's standard engine `decode`: deterministic; strict about
/// canonical padding and trailing bits, so an accepted input is exactly the
/// canonical encoding of its output; and total on encoder outputs.
#[verifier::external_body]
fn b64_decode(text: &str) -> (r: Result<Vec<u8>, base64::DecodeError>)
    ensures
        r matches Ok(v) ==> v@ == b64_bytes_of(text@) && text@ == b64_of(v@),
        (exists|b: Seq<u8>| text@ == b64_of(b)) ==> r is Ok,
{
    base64::engine::general_purpose::STANDARD.decode(text)
}

/// Encode store file bytes as transport text.
pub fn encode(bytes: &Vec<u8>) -> (r: String)
    ensures
        r@ == b64_of(bytes@),
        b64_bytes_of(r@) == bytes@,
{
    b64_encode(bytes)
}

/// Decode transport text back into store file bytes. Exactly the canonical
/// encodings are accepted, and decoding inverts encoding.
pub fn decode(text: &str) -> (r: Result<Vec<u8>, CodecError>)
    ensures
        r matches Ok(v) ==> v@ == b64_bytes_of(text@) && text@ == b64_of(v@),
        (exists|b: Seq<u8>| text@ == b64_of(b)) ==> r is Ok,
{
    match b64_decode(text) {
        Ok(v) => Ok(v),
        Err(_) => Err(CodecError::InvalidEncoding),
    }
}

/// The codec's round trip: decoding an encoding yields the original bytes,
/// for the empty sequence as for any other.
pub fn codec_round_trip(bytes: &Vec<u8>) -> (r: Vec<u8>)
    ensures
        r@ == bytes@,
{
    let text = encode(bytes);
    match decode(text.as_str()) {
        Ok(v) => v,
        Err(_) => {
            proof {
                assert(text@ == b64_of(bytes@));
            }
            vstd::pervasive::unreached()
        },
    }
}

} // verus!

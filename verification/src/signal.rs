//! Base64 framing of signaling payloads: offers and answers travel as
//! base64 text so they survive transports with text-only or line-based
//! limits.

use vstd::prelude::*;
use base64::Engine;
use vstd::string::StringSliceAdditionalSpecFns;
use crate::error::{Error, ErrorKind};

verus! {

/// What base64 standard encoding yields on a byte sequence.
pub uninterp spec fn b64_of(bytes: Seq<u8>) -> Seq<char>;

/// Relies on base64's Engine::encode with the standard padded alphabet:
/// the encoding is a function of the input bytes alone, four characters
/// for every three bytes begun.
#[verifier::external_body]
fn b64_encode(bytes: &[u8]) -> (r: String)
    ensures
        r@ == b64_of(bytes@),
        r@.len() == 4 * ((bytes@.len() + 2) / 3),
{
    base64::engine::general_purpose::STANDARD.encode(bytes)
}

/// Relies on base64's Engine::decode with the standard padded alphabet:
/// decoding inverts the encoding, and a malformed input is reported rather
/// than panicked on.
#[verifier::external_body]
fn b64_decode(s: &str) -> (r: Option<Vec<u8>>)
    ensures
        forall|b: Seq<u8>| s@ == #[trigger] b64_of(b) ==> r is Some && r.unwrap()@ == b,
{
    match base64::engine::general_purpose::STANDARD.decode(s.as_bytes()) {
        Ok(v) => Some(v),
        Err(_) => None,
    }
}

/// Relies on String::from_utf8: a buffer of ASCII bytes decodes to the
/// string of exactly those characters; invalid UTF-8 is reported rather
/// than panicked on.
#[verifier::external_body]
pub fn utf8_string(v: Vec<u8>) -> (r: Option<String>)
    ensures
        (forall|i: int| 0 <= i < v@.len() ==> v@[i] < 128)
            ==> r is Some && r.unwrap()@ == v@.map_values(|b: u8| b as char),
{
    match String::from_utf8(v) {
        Ok(s) => Some(s),
        Err(_) => None,
    }
}

/// The base64 form of the bytes of `b`.
pub fn encode(b: &str) -> (r: String)
    ensures
        r@ == b64_of(b.spec_bytes()),
        r@.len() == 4 * ((b.spec_bytes().len() + 2) / 3),
{
    b64_encode(b.as_bytes())
}

/// Decode a base64 payload back to text. This inverts `encode` exactly on
/// ASCII payloads; a payload that is not base64 or not text is rejected
/// with a decode error.
pub fn decode(s: &str) -> (r: Result<String, Error>)
    ensures
        forall|b: Seq<u8>|
            s@ == #[trigger] b64_of(b) && (forall|i: int| 0 <= i < b.len() ==> b[i] < 128)
                ==> (r matches Ok(t) && t@ == b.map_values(|c: u8| c as char)),
        r matches Err(e) ==> e.spec_kind() == ErrorKind::DecodeError,
{
    match b64_decode(s) {
        Some(v) => match utf8_string(v) {
            Some(t) => Ok(t),
            None => Err(Error::new(
                ErrorKind::DecodeError,
                String::from_str("payload is not valid text"),
            )),
        },
        None => Err(Error::new(
            ErrorKind::DecodeError,
            String::from_str("payload is not valid base64"),
        )),
    }
}

} // verus!

//! Text and key encodings, behind trusted wrappers.

use vstd::prelude::*;

verus! {

/// The UTF-8 bytes of a string; a function of the characters alone.
pub uninterp spec fn bytes_of(s: Seq<char>) -> Seq<u8>;

/// The standard base64 encoding of a byte string, padded; a function
/// of the bytes alone.
pub uninterp spec fn b64_of(bytes: Seq<u8>) -> Seq<char>;

/// Relies on str::as_bytes: the UTF-8 bytes of the string, which
/// depend on its characters alone; an empty string has no bytes.
#[verifier::external_body]
pub(crate) fn str_bytes(s: &str) -> (r: Vec<u8>)
    ensures
        r@ == bytes_of(s@),
        s@.len() == 0 ==> r@.len() == 0,
{
    s.as_bytes().to_vec()
}

/// Relies on base64::Engine::encode with the standard alphabet: four
/// output characters for every three input bytes, padded; the result
/// depends on the bytes alone.
#[verifier::external_body]
pub(crate) fn b64_encode(data: &Vec<u8>) -> (r: String)
    ensures
        r@ == b64_of(data@),
        r@.len() == ((data@.len() + 2) / 3) * 4,
{
    base64::Engine::encode(&base64::prelude::BASE64_STANDARD, data)
}

} // verus!

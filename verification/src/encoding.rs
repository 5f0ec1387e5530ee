//! Base64 text at the report boundary: the caller's nonce arrives as base64
//! text, and the nonce bound into a report is base64 text again.
//!
//! The encoding itself is computed by the base64 crate; its value is
//! abstracted by the uninterpreted functions [`base64_of`] and
//! [`base64_decoded`], so contracts about nonce binding are stated over
//! those names.

use base64::Engine;
use vstd::prelude::*;

verus! {

/// The base64 text (standard alphabet, padded) that encodes the given bytes.
pub uninterp spec fn base64_of(data: Seq<u8>) -> Seq<char>;

/// The bytes that the given text decodes to under base64 (standard alphabet,
/// padded), or nothing when the text is not valid base64.
pub uninterp spec fn base64_decoded(text: Seq<char>) -> Option<Seq<u8>>;

/// Relies on the base64 crate's standard-alphabet padded engine: encoding is
/// a function of the input bytes alone.
#[verifier::external_body]
pub(crate) fn b64_encode(data: &Vec<u8>) -> (r: String)
    ensures
        r@ == base64_of(data@),
{
    base64::engine::general_purpose::STANDARD.encode(data.as_slice())
}

/// Relies on the base64 crate's standard-alphabet padded engine: decoding is
/// a function of the input text alone, and fails exactly on text that is not
/// valid base64.
#[verifier::external_body]
pub(crate) fn b64_decode(text: &String) -> (r: Option<Vec<u8>>)
    ensures
        r is Some <==> base64_decoded(text@) is Some,
        r matches Some(v) ==> base64_decoded(text@) == Some(v@),
{
    match base64::engine::general_purpose::STANDARD.decode(text.as_str()) {
        Ok(v) => Some(v),
        Err(_) => None,
    }
}

} // verus!

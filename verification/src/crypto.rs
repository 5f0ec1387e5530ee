//! The cryptographic digest primitive behind IMR chaining.
//!
//! The digest itself is computed by openssl; its value is abstracted by the
//! uninterpreted function [`hash_of`], so every contract about chaining is
//! stated over that name.

use vstd::prelude::*;

verus! {

/// TCG algorithm identifier for SHA-1.
pub const TPM_ALG_SHA1: u32 = 4;

/// TCG algorithm identifier for SHA-256.
pub const TPM_ALG_SHA256: u32 = 11;

/// TCG algorithm identifier for SHA-384.
pub const TPM_ALG_SHA384: u32 = 12;

/// The digest that the platform's hash primitive yields for the given
/// algorithm identifier over the given bytes.
pub uninterp spec fn hash_of(algo_id: u32, data: Seq<u8>) -> Seq<u8>;

/// The byte length of a digest under the given algorithm identifier.
/// An unrecognised identifier falls back to SHA-256, as the computing
/// wrapper does.
pub open spec fn digest_len_of(algo_id: u32) -> nat {
    if algo_id == TPM_ALG_SHA1 {
        20
    } else if algo_id == TPM_ALG_SHA384 {
        48
    } else {
        32
    }
}

/// Relies on openssl::hash::hash: the digest is a function of the algorithm
/// identifier and the input bytes alone, and a SHA-1/SHA-256/SHA-384 digest
/// is 20/32/48 bytes long.  An unrecognised algorithm identifier is computed
/// as SHA-256.  Failure of the openssl primitive for these fixed algorithms
/// aborts, as an allocation failure would.
#[verifier::external_body]
pub(crate) fn hash_bytes(algo_id: u32, data: &Vec<u8>) -> (r: Vec<u8>)
    ensures
        r@ == hash_of(algo_id, data@),
        r@.len() == digest_len_of(algo_id),
{
    let md = match algo_id {
        TPM_ALG_SHA1 => openssl::hash::MessageDigest::sha1(),
        TPM_ALG_SHA384 => openssl::hash::MessageDigest::sha384(),
        _ => openssl::hash::MessageDigest::sha256(),
    };
    let digest = openssl::hash::hash(md, data.as_slice()).expect("digest computation failed");
    digest.to_vec()
}

} // verus!

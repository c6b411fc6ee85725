//! The primitives that the cipher library computes. Nothing in this file is
//! proved: each contract states what the library's documentation and source
//! promise of the call, and each result has a name by which the rest of the
//! crate speaks of it.

use vstd::prelude::*;

verus! {

/// The error stack that calls into the cipher library return on failure.
#[verifier::external_type_specification]
#[verifier::external_body]
pub struct ExErrorStack(openssl::error::ErrorStack);

/// The SHA-512 digest of `data`.
pub uninterp spec fn sha512_digest(data: Seq<u8>) -> Seq<u8>;

/// What computing the HMAC-SHA256 tag of `data` under `key` comes to: the
/// tag, or nothing where the cipher library refuses.
pub uninterp spec fn hmac_sha256_outcome(key: Seq<u8>, data: Seq<u8>) -> Option<Seq<u8>>;

/// What AES-256 in counter mode comes to on `data` under `key`, with the
/// keystream starting at the counter block `iv`: the transformed bytes, or
/// nothing where the cipher library refuses.
pub uninterp spec fn aes256_ctr_outcome(key: Seq<u8>, iv: Seq<u8>, data: Seq<u8>) -> Option<
    Seq<u8>,
>;

/// The largest input that one call into the cipher library takes.
pub const MAX_CALL_LEN: usize = 0x7fff_ffff;

/// Calls `openssl::sha::sha512`. Trusted: the 64 bytes that come back are the
/// digest of `data`; the length is that of the array the call returns.
#[verifier::external_body]
pub(crate) fn sha512(data: &[u8]) -> (r: Vec<u8>)
    ensures
        r@ == sha512_digest(data@),
        r@.len() == 64,
{
    openssl::sha::sha512(data).to_vec()
}

/// Computes an HMAC as the module `openssl::sign` documents it: a key from
/// `PKey::hmac`, a `Signer` for SHA-256 on it, `update`, `sign_to_vec`.
/// Trusted: whether the calls succeed, and the tag that they then give,
/// depend on `key` and `data` alone. Nothing is claimed of the tag's length,
/// nor of when a call fails. `PKey::hmac` panics on a key longer than a C
/// `int` holds.
#[verifier::external_body]
pub(crate) fn hmac_sha256(key: &[u8], data: &[u8]) -> (r: Result<Vec<u8>, openssl::error::ErrorStack>)
    requires
        key@.len() <= MAX_CALL_LEN,
    ensures
        r is Ok <==> hmac_sha256_outcome(key@, data@) is Some,
        r is Ok ==> hmac_sha256_outcome(key@, data@) == Some(r->Ok_0@),
{
    let pkey = openssl::pkey::PKey::hmac(key)?;
    let mut signer = openssl::sign::Signer::new(openssl::hash::MessageDigest::sha256(), &pkey)?;
    signer.update(data)?;
    signer.sign_to_vec()
}

/// Calls `openssl::symm::decrypt` with the cipher `Cipher::aes_256_ctr()`.
/// Trusted: whether the call succeeds, and the bytes that it then gives,
/// depend on key, counter block and `data` alone. Nothing is claimed of
/// their number, nor of when the call fails. The call panics on an input
/// longer than a C `int` holds, and checks the sizes of key and counter
/// block with assertions.
#[verifier::external_body]
pub(crate) fn aes256_ctr(key: &[u8], iv: &[u8], data: &[u8]) -> (r: Result<Vec<u8>, openssl::error::ErrorStack>)
    requires
        key@.len() == 32,
        iv@.len() == 16,
        data@.len() <= MAX_CALL_LEN,
    ensures
        r is Ok <==> aes256_ctr_outcome(key@, iv@, data@) is Some,
        r is Ok ==> aes256_ctr_outcome(key@, iv@, data@) == Some(r->Ok_0@),
{
    openssl::symm::decrypt(openssl::symm::Cipher::aes_256_ctr(), key, Some(iv), data)
}

/// Calls `openssl::memcmp::eq`, which compares in time that depends on the
/// length alone. Trusted: the result says whether the two hold the same
/// bytes. The call panics where the lengths differ.
#[verifier::external_body]
pub(crate) fn constant_time_eq(a: &[u8], b: &[u8]) -> (r: bool)
    requires
        a@.len() == b@.len(),
    ensures
        r == (a@ == b@),
{
    openssl::memcmp::eq(a, b)
}

} // verus!

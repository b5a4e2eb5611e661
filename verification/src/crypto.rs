//! Digests and signatures. The `sha2` crate computes the digests and the
//! `ring` crate the signatures.

use sha2::Digest;
use vstd::prelude::*;

verus! {

/// The SHA-256 digest of `data`.
pub uninterp spec fn sha256_of(data: Seq<u8>) -> Seq<u8>;

/// The SHA-384 digest of `data`.
pub uninterp spec fn sha384_of(data: Seq<u8>) -> Seq<u8>;

/// The SHA-512 digest of `data`.
pub uninterp spec fn sha512_of(data: Seq<u8>) -> Seq<u8>;

/// The length in bytes of the public modulus of the RSA private key that
/// `private_key` holds in DER, as the `ring` crate reads it; `None` for a
/// key that it rejects.
pub uninterp spec fn rsa_modulus_length_of(private_key: Seq<u8>) -> Option<nat>;

/// The PKCS#1 v1.5 signature with SHA-512 of `message` under the RSA
/// private key that `private_key` holds in DER, as the `ring` crate makes
/// it; `None` where it makes none.
pub uninterp spec fn rsa_pkcs1_sha512_of(private_key: Seq<u8>, message: Seq<u8>) -> Option<
    Seq<u8>,
>;

/// Calls `sha2::Sha256::digest`. The result is the SHA-256 digest of the
/// data, which is 32 bytes long.
#[verifier::external_body]
pub(crate) fn sha256(data: &[u8]) -> (digest: Vec<u8>)
    ensures
        digest@ == sha256_of(data@),
        digest@.len() == 32,
{
    sha2::Sha256::digest(data).to_vec()
}

/// Calls `sha2::Sha384::digest`. The result is the SHA-384 digest of the
/// data, which is 48 bytes long.
#[verifier::external_body]
pub(crate) fn sha384(data: &[u8]) -> (digest: Vec<u8>)
    ensures
        digest@ == sha384_of(data@),
        digest@.len() == 48,
{
    sha2::Sha384::digest(data).to_vec()
}

/// Calls `sha2::Sha512::digest`. The result is the SHA-512 digest of the
/// data, which is 64 bytes long.
#[verifier::external_body]
pub(crate) fn sha512(data: &[u8]) -> (digest: Vec<u8>)
    ensures
        digest@ == sha512_of(data@),
        digest@.len() == 64,
{
    sha2::Sha512::digest(data).to_vec()
}

/// Calls `ring::signature::RsaKeyPair::from_der` and, on the key that it
/// returns, `public_modulus_len`. The result is `None` where the key is
/// rejected. Nothing is claimed of the length but that the same key gives
/// the same length.
#[verifier::external_body]
pub(crate) fn rsa_modulus_length(private_key: &[u8]) -> (length: Option<usize>)
    ensures
        match length {
            Some(length) => rsa_modulus_length_of(private_key@) == Some(length as nat),
            None => rsa_modulus_length_of(private_key@).is_none(),
        },
{
    let key = ring::signature::RsaKeyPair::from_der(private_key).ok()?;
    Some(key.public_modulus_len())
}

/// Calls `ring::signature::RsaKeyPair::from_der` and, on the key that it
/// returns, `sign` with `RSA_PKCS1_SHA512` and a buffer as long as the
/// public modulus. The result is `None` where the key is rejected and
/// where `sign` returns an error. This padding takes nothing from the
/// random number generator that is handed in, so the same key and message
/// give the same signature; it is as long as the public modulus.
#[verifier::external_body]
pub(crate) fn rsa_sign_pkcs1_sha512(private_key: &[u8], message: &[u8]) -> (signature: Option<
    Vec<u8>,
>)
    ensures
        match signature {
            Some(bytes) => rsa_pkcs1_sha512_of(private_key@, message@) == Some(bytes@)
                && rsa_modulus_length_of(private_key@) == Some(bytes@.len()),
            None => rsa_pkcs1_sha512_of(private_key@, message@).is_none(),
        },
{
    let key = ring::signature::RsaKeyPair::from_der(private_key).ok()?;
    let mut signature = vec![0u8; key.public_modulus_len()];
    let random = ring::rand::SystemRandom::new();
    key.sign(&ring::signature::RSA_PKCS1_SHA512, &random, message, &mut signature).ok()?;
    Some(signature)
}

} // verus!

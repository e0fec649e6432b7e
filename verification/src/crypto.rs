//! The digest selector and the signing-scheme adapter.  The digest and
//! ECDSA primitives come from outside cryptographic crates; each call is
//! behind a trusted wrapper whose contract names the call's result, since
//! the result itself (a hash, a curve point, a signature) cannot be
//! restated in a few lines.  Everything downstream is verified against
//! those names.

use vstd::prelude::*;
use sha2::Digest;
use p256::ecdsa::signature::Signer;
use p256::ecdsa::signature::Verifier;
use crate::token::HashingAlgo;

verus! {

/// The SHA-256 digest of a byte sequence.
pub uninterp spec fn sha256_of(data: Seq<u8>) -> Seq<u8>;

/// The SHA-512 digest of a byte sequence.
pub uninterp spec fn sha512_of(data: Seq<u8>) -> Seq<u8>;

/// Whether a byte sequence is a well-formed ECDSA P-256 signing key: a
/// scalar in the curve's non-zero range, in a length the key parser takes.
pub uninterp spec fn ecdsa_sk_ok(sk: Seq<u8>) -> bool;

/// The uncompressed SEC1 encoding of the public key derived from signing
/// key bytes; public-key derivation is a function of the scalar alone.
pub uninterp spec fn ecdsa_vk_of(sk: Seq<u8>) -> Seq<u8>;

/// The RFC 6979 deterministic ECDSA P-256 signature of a message under a
/// signing key: a function of key and message alone.
pub uninterp spec fn ecdsa_sig_of(sk: Seq<u8>, msg: Seq<u8>) -> Seq<u8>;

/// Whether RFC 6979 signing of a message under a well-formed signing key
/// succeeds.  The deterministic nonce makes this, too, a function of key
/// and message alone; it is false exactly when the derived signature half
/// reduces to zero.
pub uninterp spec fn ecdsa_signing_ok(sk: Seq<u8>, msg: Seq<u8>) -> bool;

/// Whether ECDSA P-256 verification accepts (public key bytes, message,
/// signature bytes); false whenever the key or signature bytes do not
/// parse.
pub uninterp spec fn ecdsa_accepts(vk: Seq<u8>, msg: Seq<u8>, sig: Seq<u8>) -> bool;

/// Relies on sha2::Sha256::digest: the 32-byte digest is a function of the
/// input bytes alone.
#[verifier::external_body]
pub(crate) fn sha256_digest(data: &Vec<u8>) -> (r: Vec<u8>)
    ensures
        r@ == sha256_of(data@),
        r@.len() == 32,
{
    sha2::Sha256::digest(data.as_slice()).to_vec()
}

/// Relies on sha2::Sha512::digest: the 64-byte digest is a function of the
/// input bytes alone.
#[verifier::external_body]
pub(crate) fn sha512_digest(data: &Vec<u8>) -> (r: Vec<u8>)
    ensures
        r@ == sha512_of(data@),
        r@.len() == 64,
{
    sha2::Sha512::digest(data.as_slice()).to_vec()
}

/// Relies on getrandom::getrandom to fill a buffer from the operating
/// system's entropy source.  Nothing is promised of the bytes beyond their
/// count; the call may fail, and the failure carries no data.
#[verifier::external_body]
pub(crate) fn random_bytes_32() -> (r: Option<Vec<u8>>)
    ensures
        r matches Some(v) ==> v@.len() == 32,
{
    let mut buf = [0u8; 32];
    match getrandom::getrandom(&mut buf) {
        Ok(()) => Some(buf.to_vec()),
        Err(_) => None,
    }
}

/// Relies on p256::ecdsa::SigningKey::from_slice and verifying_key: key
/// parsing succeeds exactly for well-formed scalar bytes, and the derived
/// public key is a function of them.
#[verifier::external_body]
pub(crate) fn ecdsa_public_key(sk: &Vec<u8>) -> (r: Option<Vec<u8>>)
    ensures
        r is Some <==> ecdsa_sk_ok(sk@),
        r matches Some(v) ==> v@ == ecdsa_vk_of(sk@) && v@.len() == 65,
{
    match p256::ecdsa::SigningKey::from_slice(sk.as_slice()) {
        Ok(key) => Some(key.verifying_key().to_sec1_bytes().to_vec()),
        Err(_) => None,
    }
}

/// Relies on p256::ecdsa::SigningKey::from_slice and Signer::try_sign
/// (RFC 6979): both the signature and whether signing succeeds are
/// functions of key and message, the signature is 64 bytes, and it
/// verifies under the key's own public half.
#[verifier::external_body]
pub(crate) fn ecdsa_sign(sk: &Vec<u8>, msg: &Vec<u8>) -> (r: Option<Vec<u8>>)
    ensures
        r is Some <==> (ecdsa_sk_ok(sk@) && ecdsa_signing_ok(sk@, msg@)),
        r matches Some(s) ==> s@ == ecdsa_sig_of(sk@, msg@) && s@.len() == 64 && ecdsa_accepts(
            ecdsa_vk_of(sk@),
            msg@,
            s@,
        ),
{
    let key = match p256::ecdsa::SigningKey::from_slice(sk.as_slice()) {
        Ok(key) => key,
        Err(_) => return None,
    };
    let sig: Result<p256::ecdsa::Signature, p256::ecdsa::Error> = key.try_sign(msg.as_slice());
    match sig {
        Ok(sig) => Some(sig.to_vec()),
        Err(_) => None,
    }
}

/// Relies on p256::ecdsa::VerifyingKey::from_sec1_bytes,
/// Signature::from_slice and Verifier::verify: acceptance is a function of
/// the three byte sequences, and malformed key or signature bytes are
/// rejected.
#[verifier::external_body]
pub(crate) fn ecdsa_verify(vk: &Vec<u8>, msg: &Vec<u8>, sig: &Vec<u8>) -> (r: bool)
    ensures
        r == ecdsa_accepts(vk@, msg@, sig@),
{
    let key = match p256::ecdsa::VerifyingKey::from_sec1_bytes(vk.as_slice()) {
        Ok(key) => key,
        Err(_) => return false,
    };
    let sig = match p256::ecdsa::Signature::from_slice(sig.as_slice()) {
        Ok(sig) => sig,
        Err(_) => return false,
    };
    key.verify(msg.as_slice(), &sig).is_ok()
}

/// The digest of `data` under `algo`, as the digest selector computes it.
pub open spec fn spec_digest_of(algo: HashingAlgo, data: Seq<u8>) -> Seq<u8> {
    match algo {
        HashingAlgo::Sha256 => sha256_of(data),
        HashingAlgo::Sha512 => sha512_of(data),
    }
}

/// The digest selector: map an algorithm tag to its digest function and
/// apply it.  Digesting the same bytes under the same tag is reproducible.
pub fn digest_select(algo: HashingAlgo, data: &Vec<u8>) -> (r: Vec<u8>)
    ensures
        r@ == spec_digest_of(algo, data@),
        algo == HashingAlgo::Sha256 ==> r@.len() == 32,
        algo == HashingAlgo::Sha512 ==> r@.len() == 64,
{
    match algo {
        HashingAlgo::Sha256 => sha256_digest(data),
        HashingAlgo::Sha512 => sha512_digest(data),
    }
}

} // verus!

//! Trusted bindings to the cryptographic backends.
//!
//! Every call into an outside cryptographic crate goes through one of
//! the wrappers below.  A digest or signature is named by an
//! uninterpreted function of its inputs: the backends are deterministic
//! functions of their arguments, and nothing else in the crate claims to
//! know their values.

use vstd::prelude::*;
use sha2::Digest;
use hmac::{KeyInit, Mac, SimpleHmac};
use ed25519_dalek::{Signer, Verifier};
use zeroize::Zeroize;

verus! {

/// The SHA-256 digest of a byte string.
pub uninterp spec fn sha256_of(data: Seq<u8>) -> Seq<u8>;

/// The SHA3-256 digest of a byte string.
pub uninterp spec fn sha3_256_of(data: Seq<u8>) -> Seq<u8>;

/// The HMAC-SHA3-256 tag of a message under a key.
pub uninterp spec fn hmac_sha3_256_of(key: Seq<u8>, msg: Seq<u8>) -> Seq<u8>;

/// The Ed25519 public key derived from a 32-byte private key.
pub uninterp spec fn ed25519_pub_of(sk: Seq<u8>) -> Seq<u8>;

/// The Ed25519 signature of a message under a 32-byte private key.
pub uninterp spec fn ed25519_sign_of(sk: Seq<u8>, msg: Seq<u8>) -> Seq<u8>;

/// Whether an Ed25519 signature verifies against a public key and a
/// message (false also when the 32 bytes are not a valid public key).
pub uninterp spec fn ed25519_verifies(pk: Seq<u8>, msg: Seq<u8>, sig: Seq<u8>) -> bool;

/// Relies on `sha2::Sha256`: the digest is 32 bytes and depends on the
/// input bytes alone.
#[verifier::external_body]
pub fn sha256(data: &Vec<u8>) -> (r: Vec<u8>)
    ensures
        r@ == sha256_of(data@),
        r@.len() == 32,
{
    sha2::Sha256::digest(data.as_slice()).to_vec()
}

/// Relies on `sha3::Sha3_256`: the digest is 32 bytes and depends on
/// the input bytes alone.
#[verifier::external_body]
pub fn sha3_256(data: &Vec<u8>) -> (r: Vec<u8>)
    ensures
        r@ == sha3_256_of(data@),
        r@.len() == 32,
{
    sha3::Sha3_256::digest(data.as_slice()).to_vec()
}

/// Relies on `hmac::Hmac` over `sha3::Sha3_256`: the tag is 32 bytes,
/// depends on the key and message bytes alone, and HMAC accepts keys of
/// any length.
#[verifier::external_body]
pub fn hmac_sha3_256(key: &Vec<u8>, msg: &Vec<u8>) -> (r: Vec<u8>)
    ensures
        r@ == hmac_sha3_256_of(key@, msg@),
        r@.len() == 32,
{
    let mut mac = <SimpleHmac<sha3::Sha3_256> as KeyInit>::new_from_slice(key.as_slice()).expect(
        "HMAC accepts keys of any length",
    );
    mac.update(msg.as_slice());
    mac.finalize().into_bytes().to_vec()
}

/// Relies on `ed25519_dalek::SigningKey::verifying_key`: the public key
/// is 32 bytes and a function of the private key alone.
#[verifier::external_body]
pub fn ed25519_public_key(sk: &Vec<u8>) -> (r: Vec<u8>)
    requires
        sk@.len() == 32,
    ensures
        r@ == ed25519_pub_of(sk@),
        r@.len() == 32,
{
    let mut b = [0u8; 32];
    b.copy_from_slice(sk.as_slice());
    ed25519_dalek::SigningKey::from_bytes(&b).verifying_key().to_bytes().to_vec()
}

/// Relies on `ed25519_dalek::SigningKey::sign`: Ed25519 signing is
/// deterministic, the signature is 64 bytes, and a signature made with
/// a key verifies against that key's public key.
#[verifier::external_body]
pub fn ed25519_sign(sk: &Vec<u8>, msg: &Vec<u8>) -> (r: Vec<u8>)
    requires
        sk@.len() == 32,
    ensures
        r@ == ed25519_sign_of(sk@, msg@),
        r@.len() == 64,
        ed25519_verifies(ed25519_pub_of(sk@), msg@, r@),
{
    let mut b = [0u8; 32];
    b.copy_from_slice(sk.as_slice());
    ed25519_dalek::SigningKey::from_bytes(&b).sign(msg.as_slice()).to_bytes().to_vec()
}

/// Relies on `ed25519_dalek::VerifyingKey::verify`: the outcome depends
/// on the key, message and signature bytes alone; invalid key bytes
/// verify nothing.
#[verifier::external_body]
pub fn ed25519_verify(pk: &Vec<u8>, msg: &Vec<u8>, sig: &Vec<u8>) -> (r: bool)
    requires
        pk@.len() == 32,
        sig@.len() == 64,
    ensures
        r == ed25519_verifies(pk@, msg@, sig@),
{
    let mut kb = [0u8; 32];
    kb.copy_from_slice(pk.as_slice());
    let mut sb = [0u8; 64];
    sb.copy_from_slice(sig.as_slice());
    match ed25519_dalek::VerifyingKey::from_bytes(&kb) {
        Ok(key) => key.verify(msg.as_slice(), &ed25519_dalek::Signature::from_bytes(&sb)).is_ok(),
        Err(_) => false,
    }
}

/// Relies on `rand::random`: 32 bytes from the thread-local generator.
/// Nothing is promised of their values.
#[verifier::external_body]
pub fn random_bytes_32() -> (r: Vec<u8>)
    ensures
        r@.len() == 32,
{
    rand::random::<[u8; 32]>().to_vec()
}

/// Relies on `rand::random`: an arbitrary machine word.  Nothing is
/// promised of its value.
#[verifier::external_body]
pub fn random_u32() -> (r: u32)
{
    rand::random::<u32>()
}

/// Relies on `std::time::SystemTime`: the wall clock as seconds since
/// the epoch, or zero if the clock reads before the epoch.  Nothing is
/// promised of its value.
#[verifier::external_body]
pub fn current_timestamp() -> (r: u64)
{
    match std::time::SystemTime::now().duration_since(std::time::UNIX_EPOCH) {
        Ok(d) => d.as_secs(),
        Err(_) => 0,
    }
}

/// Relies on `zeroize::Zeroize` for `Vec<u8>`: the bytes are
/// overwritten with zeros and the vector is cleared.
#[verifier::external_body]
pub fn wipe(v: &mut Vec<u8>)
    ensures
        final(v)@.len() == 0,
{
    v.zeroize();
}

} // verus!

//! Calls into the hashing, signature and randomness crates, with the contracts
//! that the verified code relies on.
use vstd::prelude::*;
use ed25519_dalek::{Signer, Verifier};
use rand::{RngCore, SeedableRng};
use sha2::Digest;

verus! {

/// The SHA-256 digest of a byte string.
pub uninterp spec fn sha256_of(data: Seq<u8>) -> Seq<u8>;

/// The Ed25519 public key that belongs to a 32-byte secret key.
pub uninterp spec fn public_key_of(secret: Seq<u8>) -> Seq<u8>;

/// The Ed25519 signature of a message under a 32-byte secret key.
pub uninterp spec fn signature_of(secret: Seq<u8>, message: Seq<u8>) -> Seq<u8>;

/// Whether a 64-byte signature of a message checks against a public key.
pub uninterp spec fn signature_accepted(public: Seq<u8>, message: Seq<u8>, signature: Seq<u8>) -> bool;

/// The first 32 bytes that `StdRng` yields when seeded with `seed`.
pub uninterp spec fn seeded_secret_of(seed: Seq<u8>) -> Seq<u8>;

/// Relies on `sha2::Sha256::digest`: a 32-byte digest that depends on the input alone.
#[verifier::external_body]
pub(crate) fn sha256(data: &[u8]) -> (r: Vec<u8>)
    ensures
        r@ == sha256_of(data@),
        r@.len() == 32,
{
    sha2::Sha256::digest(data).to_vec()
}

/// Relies on `ed25519_dalek::SigningKey::from_bytes` and `verifying_key`: the
/// public key is determined by the secret key.
#[verifier::external_body]
pub(crate) fn public_key_for(secret: &[u8; 32]) -> (r: [u8; 32])
    ensures
        r@ == public_key_of(secret@),
{
    ed25519_dalek::SigningKey::from_bytes(secret).verifying_key().to_bytes()
}

/// Relies on `ed25519_dalek::SigningKey::sign`: Ed25519 signing is deterministic,
/// yields 64 bytes, and the signature verifies under the key's own public key.
#[verifier::external_body]
pub(crate) fn sign_message(secret: &[u8; 32], message: &[u8]) -> (r: Vec<u8>)
    ensures
        r@ == signature_of(secret@, message@),
        r@.len() == 64,
        signature_accepted(public_key_of(secret@), message@, r@),
{
    ed25519_dalek::SigningKey::from_bytes(secret).sign(message).to_bytes().to_vec()
}

/// Relies on `ed25519_dalek::VerifyingKey::from_bytes` and `verify`: a public key
/// that is no curve point accepts nothing.
#[verifier::external_body]
pub(crate) fn signature_checks(public: &[u8; 32], message: &[u8], signature: &[u8]) -> (r: bool)
    requires
        signature@.len() == 64,
    ensures
        r == signature_accepted(public@, message@, signature@),
{
    let bytes: [u8; 64] = signature.try_into().unwrap();
    match ed25519_dalek::VerifyingKey::from_bytes(public) {
        Ok(key) => key.verify(message, &ed25519_dalek::Signature::from_bytes(&bytes)).is_ok(),
        Err(_) => false,
    }
}

/// Relies on `rand::rngs::StdRng::from_seed` and `fill_bytes`: a seeded generator
/// yields the same bytes for the same seed.
#[verifier::external_body]
pub(crate) fn seeded_secret(seed: &[u8]) -> (r: [u8; 32])
    requires
        seed@.len() == 32,
    ensures
        r@ == seeded_secret_of(seed@),
{
    let mut key = [0u8; 32];
    key.copy_from_slice(seed);
    let mut rng = rand::rngs::StdRng::from_seed(key);
    let mut out = [0u8; 32];
    rng.fill_bytes(&mut out);
    out
}

/// Relies on `rand::rngs::OsRng::fill_bytes`: 32 bytes from the operating system.
#[verifier::external_body]
pub(crate) fn fresh_secret() -> (r: [u8; 32]) {
    let mut out = [0u8; 32];
    rand::rngs::OsRng.fill_bytes(&mut out);
    out
}

#[verifier::external_type_specification]
#[verifier::external_body]
pub struct ExSigningKey(ed25519_dalek::SigningKey);

/// Relies on `ed25519_dalek::SigningKey::to_bytes`: the 32 secret bytes.
#[verifier::external_body]
pub(crate) fn signing_key_secret(key: &ed25519_dalek::SigningKey) -> (r: [u8; 32]) {
    key.to_bytes()
}

/// Relies on `rand::random`: any value of the type.
pub assume_specification<T>[ rand::random::<T> ]() -> (r: T)
    where
        rand::distributions::Standard: rand::distributions::Distribution<T>,
;

/// Relies on `std::time::SystemTime::now`: nanoseconds since the Unix epoch, or
/// 0 for a clock set before it.
#[verifier::external_body]
pub(crate) fn now_nanos() -> (r: u128) {
    match std::time::SystemTime::now().duration_since(std::time::UNIX_EPOCH) {
        Ok(d) => d.as_nanos(),
        Err(_) => 0,
    }
}

/// Relies on `std::time::SystemTime::now`: seconds since the Unix epoch, or 0 for
/// a clock set before it.
#[verifier::external_body]
pub(crate) fn now_secs() -> (r: u64) {
    match std::time::SystemTime::now().duration_since(std::time::UNIX_EPOCH) {
        Ok(d) => d.as_secs(),
        Err(_) => 0,
    }
}

/// Relies on `std::time::Duration::from_millis`: a span of `ms` milliseconds.
#[verifier::external_body]
pub(crate) fn millis(ms: u64) -> (r: std::time::Duration) {
    std::time::Duration::from_millis(ms)
}

/// Relies on `uuid::Uuid::new_v4`: a fresh random identifier in its text form.
#[verifier::external_body]
pub(crate) fn new_event_id() -> (r: String) {
    uuid::Uuid::new_v4().to_string()
}

/// Relies on `String::from_utf8`: ASCII bytes are valid UTF-8, one character each.
#[verifier::external_body]
pub(crate) fn ascii_string(bytes: Vec<u8>) -> (r: String)
    requires
        forall|i: int| 0 <= i < bytes@.len() ==> bytes@[i] < 128,
    ensures
        r@ == bytes@.map_values(|b: u8| b as char),
{
    match String::from_utf8(bytes) {
        Ok(s) => s,
        Err(_) => String::new(),
    }
}

} // verus!

//! The cryptographic primitives, taken from the dalek and RustCrypto crates,
//! and the system clock.
use ed25519_dalek::{Signer, Verifier};
use vstd::prelude::*;

verus! {

/// Whether `signature` is a valid Ed25519 signature of `message` under the
/// public key `public_key`.
pub uninterp spec fn ed25519_signature_valid(
    public_key: Seq<u8>,
    message: Seq<u8>,
    signature: Seq<u8>,
) -> bool;

/// Whether `signature` (the 64 bytes r || s) is a valid ECDSA P-256 / SHA-256
/// signature of `message` under the SEC1-encoded public key `public_key`.
pub uninterp spec fn p256_signature_valid(
    public_key: Seq<u8>,
    message: Seq<u8>,
    signature: Seq<u8>,
) -> bool;

/// The Ed25519 public key of the 32-byte secret key `secret_key`.
pub uninterp spec fn ed25519_public_key_of(secret_key: Seq<u8>) -> Seq<u8>;

/// The uncompressed SEC1 encoding of the P-256 public point of the scalar
/// that `secret_key` holds.
pub uninterp spec fn p256_public_key_of(secret_key: Seq<u8>) -> Seq<u8>;

/// The X25519 public key of the 32-byte secret `secret_key`.
pub uninterp spec fn x25519_public_key_of(secret_key: Seq<u8>) -> Seq<u8>;

/// The order of the P-256 group.
pub open spec fn p256_order() -> nat {
    let b: nat = 0x1_0000_0000;
    ((((((0xFFFF_FFFFnat * b + 0x0000_0000) * b + 0xFFFF_FFFF) * b + 0xFFFF_FFFF) * b
        + 0xBCE6_FAAD) * b + 0xA717_9E84) * b + 0xF3B9_CAC2) * b + 0xFC63_2551
}

/// The value of `b` read as a big-endian unsigned integer.
pub open spec fn big_endian_value(b: Seq<u8>) -> nat
    decreases b.len(),
{
    if b.len() == 0 {
        0
    } else {
        big_endian_value(b.drop_last()) * 256 + b.last() as nat
    }
}

/// A P-256 secret scalar: 32 big-endian bytes of a value in `[1, n - 1]`.
pub open spec fn p256_scalar_valid(secret_key: Seq<u8>) -> bool {
    &&& secret_key.len() == 32
    &&& 1 <= big_endian_value(secret_key) < p256_order()
}

/// Relies on ed25519_dalek::SigningKey::generate with the OS generator:
/// a 32-byte secret key and its 32-byte public key.
#[verifier::external_body]
pub(crate) fn ed25519_keypair() -> (r: (Vec<u8>, Vec<u8>))
    ensures
        r.0@.len() == 32,
        r.1@.len() == 32,
        r.1@ == ed25519_public_key_of(r.0@),
{
    let sk = ed25519_dalek::SigningKey::generate(&mut rand::rngs::OsRng);
    (sk.to_bytes().to_vec(), sk.verifying_key().to_bytes().to_vec())
}

/// Relies on p256::ecdsa::SigningKey::random with the OS generator: a 32-byte
/// scalar and its uncompressed 65-byte SEC1 public point.
#[verifier::external_body]
pub(crate) fn p256_keypair() -> (r: (Vec<u8>, Vec<u8>))
    ensures
        r.0@.len() == 32,
        r.1@.len() == 65,
        r.1@ == p256_public_key_of(r.0@),
        p256_scalar_valid(r.0@),
{
    let sk = p256::ecdsa::SigningKey::random(&mut rand::rngs::OsRng);
    let pk = sk.verifying_key().to_encoded_point(false);
    (sk.to_bytes().to_vec(), pk.as_bytes().to_vec())
}

/// Relies on x25519_dalek::StaticSecret::random_from_rng with the OS
/// generator: a 32-byte secret and its 32-byte public key.
#[verifier::external_body]
pub(crate) fn x25519_keypair() -> (r: (Vec<u8>, Vec<u8>))
    ensures
        r.0@.len() == 32,
        r.1@.len() == 32,
        r.1@ == x25519_public_key_of(r.0@),
{
    let sk = x25519_dalek::StaticSecret::random_from_rng(rand::rngs::OsRng);
    let pk = x25519_dalek::PublicKey::from(&sk);
    (sk.to_bytes().to_vec(), pk.to_bytes().to_vec())
}

/// Relies on ed25519_dalek::SigningKey::sign: a 64-byte signature that
/// verifies under the key's public key, or none where the secret key is not
/// 32 bytes long.
#[verifier::external_body]
pub(crate) fn ed25519_sign(secret_key: &[u8], message: &[u8]) -> (r: Option<Vec<u8>>)
    ensures
        secret_key@.len() == 32 ==> r is Some,
        r matches Some(s) ==> s@.len() == 64 && ed25519_signature_valid(
            ed25519_public_key_of(secret_key@),
            message@,
            s@,
        ),
{
    let bytes: [u8; 32] = secret_key.try_into().ok()?;
    let sk = ed25519_dalek::SigningKey::from_bytes(&bytes);
    Some(sk.sign(message).to_bytes().to_vec())
}

/// Relies on p256::ecdsa::SigningKey::sign: a 64-byte signature r || s that
/// verifies under the key's public point (the nonce comes from RFC 6979), or
/// none where the secret key is no valid scalar.
#[verifier::external_body]
pub(crate) fn p256_sign(secret_key: &[u8], message: &[u8]) -> (r: Option<Vec<u8>>)
    ensures
        p256_scalar_valid(secret_key@) ==> r is Some,
        r matches Some(s) ==> s@.len() == 64 && p256_signature_valid(
            p256_public_key_of(secret_key@),
            message@,
            s@,
        ),
{
    let sk = p256::ecdsa::SigningKey::from_slice(secret_key).ok()?;
    let sig: p256::ecdsa::Signature = sk.sign(message);
    Some(sig.to_bytes().to_vec())
}

/// Relies on ed25519_dalek::VerifyingKey::verify; a key or signature of the
/// wrong shape counts as a failed check.
#[verifier::external_body]
pub(crate) fn ed25519_verify(public_key: &[u8], message: &[u8], signature: &[u8]) -> (r: bool)
    ensures
        r == ed25519_signature_valid(public_key@, message@, signature@),
{
    let Ok(bytes) = <[u8; 32]>::try_from(public_key) else { return false };
    let Ok(vk) = ed25519_dalek::VerifyingKey::from_bytes(&bytes) else { return false };
    let Ok(sig) = ed25519_dalek::Signature::from_slice(signature) else { return false };
    vk.verify(message, &sig).is_ok()
}

/// Relies on p256::ecdsa::VerifyingKey::verify; a key or signature of the
/// wrong shape counts as a failed check.
#[verifier::external_body]
pub(crate) fn p256_verify(public_key: &[u8], message: &[u8], signature: &[u8]) -> (r: bool)
    ensures
        r == p256_signature_valid(public_key@, message@, signature@),
{
    let Ok(vk) = p256::ecdsa::VerifyingKey::from_sec1_bytes(public_key) else { return false };
    let Ok(sig) = p256::ecdsa::Signature::from_slice(signature) else { return false };
    vk.verify(message, &sig).is_ok()
}

/// Relies on std::time::SystemTime::now: whole seconds since the Unix epoch,
/// zero for a clock set before it.
#[verifier::external_body]
pub(crate) fn unix_time_now() -> (r: u64) {
    match std::time::SystemTime::now().duration_since(std::time::UNIX_EPOCH) {
        Ok(d) => d.as_secs(),
        Err(_) => 0,
    }
}

} // verus!

//! The consumed external leaves: cryptographic digest, signature scheme,
//! hexadecimal encoding, and the operating system's randomness source.
//!
//! Each function here wraps exactly one outside call; everything the rest of
//! the crate knows about them is stated in the contracts below.

use vstd::prelude::*;
use sha2::Digest;

verus! {

/// The digest of a byte string: 32 bytes, a function of the input alone.
pub uninterp spec fn sha256_of(bytes: Seq<u8>) -> Seq<u8>;

/// Relies on sha2::Sha256: one SHA-256 digest over the whole input.
#[verifier::external_body]
pub(crate) fn sha256(bytes: &Vec<u8>) -> (r: Vec<u8>)
    ensures
        r@ == sha256_of(bytes@),
        r@.len() == 32,
{
    let mut hasher = sha2::Sha256::new();
    hasher.update(bytes.as_slice());
    hasher.finalize().to_vec()
}

/// The Ed25519 signature over a message: 64 bytes, a function of the secret
/// key and the message alone (Ed25519 signing is deterministic).
pub uninterp spec fn ed25519_signature_of(secret: Seq<u8>, message: Seq<u8>) -> Seq<u8>;

/// Relies on ed25519_dalek::SigningKey::sign (through the Signer trait).
#[verifier::external_body]
pub(crate) fn ed25519_sign(secret: &Vec<u8>, message: &Vec<u8>) -> (r: Vec<u8>)
    requires
        secret@.len() == 32,
    ensures
        r@ == ed25519_signature_of(secret@, message@),
        r@.len() == 64,
{
    let mut key_bytes = [0u8; 32];
    key_bytes.copy_from_slice(secret.as_slice());
    let key = ed25519_dalek::SigningKey::from_bytes(&key_bytes);
    ed25519_dalek::Signer::sign(&key, message.as_slice()).to_vec()
}

/// The Ed25519 public key matching a secret key: 32 bytes, a function of the
/// secret key alone.
pub uninterp spec fn ed25519_public_of(secret: Seq<u8>) -> Seq<u8>;

/// Relies on ed25519_dalek::SigningKey::verifying_key.
#[verifier::external_body]
pub(crate) fn ed25519_public(secret: &Vec<u8>) -> (r: Vec<u8>)
    requires
        secret@.len() == 32,
    ensures
        r@ == ed25519_public_of(secret@),
        r@.len() == 32,
{
    let mut key_bytes = [0u8; 32];
    key_bytes.copy_from_slice(secret.as_slice());
    let key = ed25519_dalek::SigningKey::from_bytes(&key_bytes);
    key.verifying_key().to_bytes().to_vec()
}

/// The lowercase hexadecimal digit for a value below 16.
pub open spec fn hex_digit(n: int) -> char {
    if n == 0 {
        '0'
    } else if n == 1 {
        '1'
    } else if n == 2 {
        '2'
    } else if n == 3 {
        '3'
    } else if n == 4 {
        '4'
    } else if n == 5 {
        '5'
    } else if n == 6 {
        '6'
    } else if n == 7 {
        '7'
    } else if n == 8 {
        '8'
    } else if n == 9 {
        '9'
    } else if n == 10 {
        'a'
    } else if n == 11 {
        'b'
    } else if n == 12 {
        'c'
    } else if n == 13 {
        'd'
    } else if n == 14 {
        'e'
    } else {
        'f'
    }
}

/// Lowercase hexadecimal of a byte string: two digits per byte, high nibble
/// first.
pub open spec fn hex_of(bytes: Seq<u8>) -> Seq<char>
    decreases bytes.len(),
{
    if bytes.len() == 0 {
        Seq::empty()
    } else {
        seq![hex_digit(bytes[0] as int / 16), hex_digit(bytes[0] as int % 16)] + hex_of(
            bytes.drop_first())
    }
}

/// Relies on hex::encode: lowercase, two digits per byte, high nibble first.
#[verifier::external_body]
pub(crate) fn to_hex(bytes: &Vec<u8>) -> (r: String)
    ensures
        r@ == hex_of(bytes@),
{
    hex::encode(bytes.as_slice())
}

/// Relies on rand::random: a scalar drawn from the operating system's
/// randomness source.  Nothing can be promised of the value.
#[verifier::external_body]
pub(crate) fn random_u64() -> u64 {
    rand::random::<u64>()
}

/// Relies on rand::random: 32 fresh bytes for an Ed25519 secret key.
#[verifier::external_body]
pub(crate) fn random_bytes_32() -> (r: Vec<u8>)
    ensures
        r@.len() == 32,
{
    rand::random::<[u8; 32]>().to_vec()
}

} // verus!

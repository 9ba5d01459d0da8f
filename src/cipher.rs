//! Authenticated encryption of record bytes with AES-256-GCM.
use vstd::prelude::*;
use aes_gcm::aead::{Aead, AeadCore, KeyInit, OsRng};
use aes_gcm::{Aes256Gcm, Key, Nonce};

verus! {

/// Bytes in a key.
pub const KEY_SIZE: usize = 32;

/// Bytes in a nonce.
pub const NONCE_SIZE: usize = 12;

/// The longest plaintext that AES-GCM encrypts: 2^36 bytes.
pub const MAX_PLAINTEXT_LEN: u64 = 68719476736;

#[verifier::external_type_specification]
#[verifier::external_body]
pub struct ExAeadError(aes_gcm::Error);

/// What AES-256-GCM makes of `plaintext` under `key` and `nonce`, tag included.
pub uninterp spec fn gcm_seal(key: Seq<u8>, nonce: Seq<u8>, plaintext: Seq<u8>) -> Seq<u8>;

/// What AES-256-GCM recovers from `ciphertext` under `key` and `nonce`;
/// nothing where the tag does not authenticate it.
pub uninterp spec fn gcm_open(key: Seq<u8>, nonce: Seq<u8>, ciphertext: Seq<u8>) -> Option<Seq<u8>>;

/// Relies on `Aead::encrypt` of `aes_gcm::Aes256Gcm`: it refuses exactly the
/// plaintexts over `MAX_PLAINTEXT_LEN` bytes, and what it returns decrypts,
/// under the same key and nonce, to the plaintext.
#[verifier::external_body]
pub(crate) fn gcm_encrypt(key: &[u8], nonce: &[u8; 12], plaintext: &[u8]) -> (r: Result<
    Vec<u8>,
    aes_gcm::Error,
>)
    requires
        key@.len() == KEY_SIZE,
    ensures
        r is Ok <==> plaintext@.len() <= MAX_PLAINTEXT_LEN,
        r matches Ok(c) ==> c@ == gcm_seal(key@, nonce@, plaintext@),
        r matches Ok(c) ==> gcm_open(key@, nonce@, c@) == Some(plaintext@),
{
    let cipher = Aes256Gcm::new(Key::<Aes256Gcm>::from_slice(key));
    cipher.encrypt(Nonce::from_slice(nonce), plaintext)
}

/// Relies on `Aead::decrypt` of `aes_gcm::Aes256Gcm`: the plaintext where the
/// tag authenticates the ciphertext under the key and nonce, else an error.
#[verifier::external_body]
pub(crate) fn gcm_decrypt(key: &[u8], nonce: &[u8; 12], ciphertext: &[u8]) -> (r: Result<
    Vec<u8>,
    aes_gcm::Error,
>)
    requires
        key@.len() == KEY_SIZE,
    ensures
        r is Ok <==> gcm_open(key@, nonce@, ciphertext@) is Some,
        r matches Ok(p) ==> gcm_open(key@, nonce@, ciphertext@) == Some(p@),
{
    let cipher = Aes256Gcm::new(Key::<Aes256Gcm>::from_slice(key));
    cipher.decrypt(Nonce::from_slice(nonce), ciphertext)
}

/// Relies on `AeadCore::generate_nonce` with `OsRng`: twelve bytes from the
/// operating system's secure generator.
#[verifier::external_body]
pub(crate) fn random_nonce() -> (r: [u8; 12]) {
    Aes256Gcm::generate_nonce(&mut OsRng).into()
}

/// Relies on `KeyInit::generate_key` with `OsRng`: thirty-two bytes from the
/// operating system's secure generator.
#[verifier::external_body]
pub(crate) fn random_key() -> (r: Vec<u8>)
    ensures
        r@.len() == KEY_SIZE,
{
    Aes256Gcm::generate_key(&mut OsRng).to_vec()
}

} // verus!

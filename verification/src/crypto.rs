//! The cryptographic and encoding calls that the Floodgate handshake and the
//! offline player ids rest on: Base64, AES-128-GCM and SHA-256 from their
//! crates, and UUID parsing.
use aes_gcm::aead::{Aead, KeyInit};
use aes_gcm::Aes128Gcm;
use base64::Engine;
use sha2::{Digest, Sha256};
use vstd::prelude::*;

verus! {

/// What `base64`'s standard engine (standard alphabet, padding required)
/// decodes `input` to, or `None` when it refuses the input.
pub uninterp spec fn base64_standard_decode(input: Seq<u8>) -> Option<Seq<u8>>;

/// What AES-128-GCM decryption with `key` and the 12-byte `nonce` gives for
/// `ciphertext` (tag included), or `None` when authentication fails.
pub uninterp spec fn aes128_gcm_decrypt(key: Seq<u8>, nonce: Seq<u8>, ciphertext: Seq<u8>) -> Option<
    Seq<u8>,
>;

/// The SHA-256 digest of `data`.
pub uninterp spec fn sha256_digest(data: Seq<u8>) -> Seq<u8>;

/// The 128-bit value of the UUID that `uuid::Uuid::parse_str` reads from
/// `text`, or `None` when it refuses the text.
pub uninterp spec fn uuid_parse(text: Seq<char>) -> Option<u128>;

/// `Engine::decode` of `base64::engine::general_purpose::STANDARD`: the
/// decoded bytes, or `None` where the crate returns an error. The result is
/// named, not stated: it depends on the input alone.
#[verifier::external_body]
pub(crate) fn base64_decode(input: &[u8]) -> (r: Option<Vec<u8>>)
    ensures
        match r {
            Some(v) => base64_standard_decode(input@) == Some(v@),
            None => base64_standard_decode(input@) is None,
        },
{
    base64::engine::general_purpose::STANDARD.decode(input).ok()
}

/// `Aead::decrypt` of `aes_gcm::Aes128Gcm` keyed with `key`, on the 12-byte
/// `nonce` and `ciphertext`: the plaintext, or `None` where the crate returns
/// an error (failed authentication). Keying from 16 bytes cannot fail, and
/// `Nonce::from_slice` panics on any other length than 12, which `requires`
/// leaves out. The result is named, not stated.
#[verifier::external_body]
pub(crate) fn aes128_gcm_open(key: &[u8; 16], nonce: &[u8], ciphertext: &[u8]) -> (r: Option<Vec<u8>>)
    requires
        nonce@.len() == 12,
    ensures
        match r {
            Some(v) => aes128_gcm_decrypt(key@, nonce@, ciphertext@) == Some(v@),
            None => aes128_gcm_decrypt(key@, nonce@, ciphertext@) is None,
        },
{
    let cipher = Aes128Gcm::new(key.into());
    cipher.decrypt(aes_gcm::Nonce::from_slice(nonce), ciphertext).ok()
}

/// `Digest::digest` of `sha2::Sha256`: the 32-byte digest of `data` (its
/// output size is 32 bytes). The digest itself is named, not stated.
#[verifier::external_body]
pub(crate) fn sha256(data: &[u8]) -> (r: Vec<u8>)
    ensures
        r@ == sha256_digest(data@),
        r@.len() == 32,
{
    Sha256::digest(data).to_vec()
}

/// `uuid::Uuid::parse_str`, taken to the 128-bit value of the UUID
/// (`as_u128`), or `None` where the crate returns an error. The result is
/// named, not stated: the crate accepts several textual forms.
#[verifier::external_body]
pub(crate) fn parse_uuid(text: &str) -> (r: Option<u128>)
    ensures
        r == uuid_parse(text@),
{
    uuid::Uuid::parse_str(text).ok().map(|u| u.as_u128())
}

} // verus!

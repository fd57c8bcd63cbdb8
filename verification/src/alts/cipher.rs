//! AES-128 in GCM mode.
//!
//! The cipher itself is that of `aws-lc-rs`: what it computes has a name here
//! and no definition.

use aws_lc_rs::aead;
use aws_lc_rs::error::Unspecified;
use vstd::prelude::*;

verus! {

/// Size of an AES-128 key in bytes.
pub const KEY_SIZE: usize = 16;

/// Size of the nonce in bytes.
pub const NONCE_SIZE: usize = 12;

/// Size of the authentication tag in bytes.
pub const TAG_SIZE: usize = 16;

/// The longest message in bytes that one key and nonce can seal.
pub const MAX_MESSAGE_SIZE: u64 = 68_719_476_704;

/// The error of `aws-lc-rs`, which carries no details.
#[verifier::external_type_specification]
#[verifier::external_body]
pub struct ExUnspecified(Unspecified);

/// The ciphertext, followed by the tag, that AES-128-GCM computes for a key, a
/// nonce and a plaintext, without associated data.
pub uninterp spec fn gcm_sealed(key: Seq<u8>, nonce: Seq<u8>, plaintext: Seq<u8>) -> Seq<u8>;

/// The plaintext that AES-128-GCM recovers from a ciphertext followed by its
/// tag, without associated data, or `None` where the tag does not match.
pub uninterp spec fn gcm_opened(key: Seq<u8>, nonce: Seq<u8>, sealed: Seq<u8>) -> Option<Seq<u8>>;

/// Seals a message: calls `UnboundKey::new` of `aws-lc-rs` with `AES_128_GCM`
/// and, on the `LessSafeKey` made of it, `seal_in_place_append_tag` without
/// associated data.
///
/// Believed of it: the key is rejected (outer `Err`) exactly where it is not
/// 16 bytes long; sealing fails (inner `Err`) exactly where the message is
/// longer than GCM allows under one nonce; what comes back is a function of
/// key, nonce and plaintext, is longer than the plaintext by the tag, and
/// opens under the same key and nonce to that plaintext.
#[verifier::external_body]
pub(crate) fn seal(key: &[u8], nonce: [u8; 12], plaintext: &[u8]) -> (r: Result<
    Result<Vec<u8>, Unspecified>,
    Unspecified,
>)
    ensures
        r is Ok <==> key@.len() == KEY_SIZE,
        r matches Ok(inner) ==> (inner is Ok <==> plaintext@.len() <= MAX_MESSAGE_SIZE),
        r matches Ok(Ok(sealed)) ==> sealed@ == gcm_sealed(key@, nonce@, plaintext@),
        r matches Ok(Ok(sealed)) ==> sealed@.len() == plaintext@.len() + TAG_SIZE,
        r matches Ok(Ok(sealed)) ==> gcm_opened(key@, nonce@, sealed@) == Some(plaintext@),
{
    let key = aead::LessSafeKey::new(aead::UnboundKey::new(&aead::AES_128_GCM, key)?);
    let nonce = aead::Nonce::assume_unique_for_key(nonce);
    let mut in_out = plaintext.to_vec();
    match key.seal_in_place_append_tag(nonce, aead::Aad::empty(), &mut in_out) {
        Ok(()) => Ok(Ok(in_out)),
        Err(e) => Ok(Err(e)),
    }
}

/// Opens a sealed message: calls `UnboundKey::new` of `aws-lc-rs` with
/// `AES_128_GCM` and, on the `LessSafeKey` made of it, `open_in_place` without
/// associated data.
///
/// Believed of it: the key is rejected (outer `Err`) exactly where it is not
/// 16 bytes long; whether the message opens, and to what, is a function of
/// key, nonce and message; a plaintext that comes back is shorter than the
/// message by the tag and no longer than GCM allows under one nonce, and
/// sealing it under the same key and nonce gives the message.
#[verifier::external_body]
pub(crate) fn open(key: &[u8], nonce: [u8; 12], sealed: &[u8]) -> (r: Result<
    Result<Vec<u8>, Unspecified>,
    Unspecified,
>)
    ensures
        r is Ok <==> key@.len() == KEY_SIZE,
        r matches Ok(inner) ==> match inner {
            Ok(plaintext) => gcm_opened(key@, nonce@, sealed@) == Some(plaintext@),
            Err(_) => gcm_opened(key@, nonce@, sealed@) is None,
        },
        r matches Ok(Ok(plaintext)) ==> plaintext@.len() + TAG_SIZE == sealed@.len(),
        r matches Ok(Ok(plaintext)) ==> plaintext@.len() <= MAX_MESSAGE_SIZE,
        r matches Ok(Ok(plaintext)) ==> sealed@ == gcm_sealed(key@, nonce@, plaintext@),
{
    let key = aead::LessSafeKey::new(aead::UnboundKey::new(&aead::AES_128_GCM, key)?);
    let nonce = aead::Nonce::assume_unique_for_key(nonce);
    let mut in_out = sealed.to_vec();
    match key.open_in_place(nonce, aead::Aad::empty(), &mut in_out) {
        Ok(plaintext) => Ok(Ok(plaintext.to_vec())),
        Err(e) => Ok(Err(e)),
    }
}

/// The text of the error: calls `to_string` on `Unspecified` of `aws-lc-rs`,
/// which writes the one word `Unspecified`.
#[verifier::external_body]
pub(crate) fn describe(error: &Unspecified) -> (text: String)
    ensures
        text@ == "Unspecified"@,
{
    error.to_string()
}

} // verus!

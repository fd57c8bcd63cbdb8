//! The ALTS record protocol: encryption and decryption of frames.
//!
//! Data travels in frames of this form:
//!
//! ```text
//! +-------------------+-------------------------------------------+
//! | Frame Length (4B) | Encrypted Payload + GCM Tag               |
//! +-------------------+-------------------------------------------+
//! ```
//!
//! - The frame length is a 32-bit little-endian unsigned integer: the length
//!   of the encrypted payload, the 16-byte GCM tag included.
//! - The payload is encrypted with AES-128-GCM under a counter-based nonce.
//! - The nonce has 12 bytes: a fixed prefix of 4 zero bytes, then the sequence
//!   number of the frame as a 64-bit little-endian integer.

use crate::alts::cipher;
use crate::alts::cipher::gcm_opened;
use crate::alts::cipher::gcm_sealed;
use crate::alts::cipher::KEY_SIZE;
use crate::alts::cipher::MAX_MESSAGE_SIZE;
use crate::alts::cipher::NONCE_SIZE;
use crate::alts::cipher::TAG_SIZE;
use crate::bytes::byte_capacity;
use crate::bytes::eight_bytes_weigh;
use crate::bytes::le_bytes;
use crate::bytes::lemma_le_bytes_len;
use crate::bytes::lemma_le_round_trip;
use crate::bytes::to_le_bytes;
use crate::text::append_decimal;
use crate::text::decimal;
use vstd::prelude::*;
use vstd::slice::slice_subrange;
use vstd::slice::slice_to_vec;
use vstd::string::StringExecFns;

verus! {

/// Size of the frame length prefix in bytes.
pub const FRAME_LENGTH_SIZE: usize = 4;

/// Maximum size of an encrypted payload with its tag (1 MiB).
pub const MAX_FRAME_SIZE: usize = 1024 * 1024;

/// Size of the counter portion of the nonce (its last 8 bytes).
pub const COUNTER_SIZE: usize = 8;

/// Size of the fixed prefix of the nonce.
pub const NONCE_PREFIX_SIZE: usize = NONCE_SIZE - COUNTER_SIZE;

/// The kinds of I/O error that the record protocol reports.
#[derive(Clone, Copy, Debug, PartialEq, Eq, Structural)]
pub enum ErrorKind {
    /// The data received or handed over is not valid.
    InvalidData,
    /// A write stopped short.
    WriteZero,
    /// Any other failure.
    Other,
}

/// The errors of the record protocol.
#[derive(Debug)]
pub enum FrameError {
    /// The handshake gave this many bytes of key material, too few.
    KeyDataTooShort(usize),
    /// The cipher rejected the key, with this text.
    BadKey(String),
    /// The cipher did not encrypt the frame, and gave this text.
    EncryptionFailed(String),
    /// The frame does not decrypt under the key and counter.
    DecryptionFailed,
    /// The length prefix announces this many bytes, too many.
    FrameTooLarge(usize),
    /// Only a part of a frame was written.
    PartialWrite,
}

impl FrameError {
    /// The kind of I/O error that this is.
    pub open spec fn spec_kind(&self) -> ErrorKind {
        match self {
            FrameError::EncryptionFailed(_) => ErrorKind::Other,
            FrameError::PartialWrite => ErrorKind::WriteZero,
            _ => ErrorKind::InvalidData,
        }
    }

    /// The text of the error.
    pub open spec fn text(&self) -> Seq<char> {
        match self {
            FrameError::KeyDataTooShort(len) => "ALTS key data too short: "@ + decimal(*len as nat)
                + " bytes, need at least "@ + decimal((2 * KEY_SIZE) as nat),
            FrameError::BadKey(e) => "bad key: "@ + e@,
            FrameError::EncryptionFailed(e) => "encryption failed: "@ + e@,
            FrameError::DecryptionFailed => "ALTS frame decryption failed"@,
            FrameError::FrameTooLarge(len) => "ALTS frame too large: "@ + decimal(*len as nat),
            FrameError::PartialWrite => "partial ALTS frame write"@,
        }
    }

    /// Returns the kind of I/O error that this is.
    pub fn kind(&self) -> (kind: ErrorKind)
        ensures
            kind == self.spec_kind(),
            kind == match self {
                FrameError::KeyDataTooShort(_) => ErrorKind::InvalidData,
                FrameError::BadKey(_) => ErrorKind::InvalidData,
                FrameError::EncryptionFailed(_) => ErrorKind::Other,
                FrameError::DecryptionFailed => ErrorKind::InvalidData,
                FrameError::FrameTooLarge(_) => ErrorKind::InvalidData,
                FrameError::PartialWrite => ErrorKind::WriteZero,
            },
    {
        match self {
            FrameError::EncryptionFailed(_) => ErrorKind::Other,
            FrameError::PartialWrite => ErrorKind::WriteZero,
            _ => ErrorKind::InvalidData,
        }
    }

    /// Returns the text of the error.
    pub fn message(&self) -> (message: String)
        ensures
            message@ == self.text(),
            message@ == match self {
                FrameError::KeyDataTooShort(len) => "ALTS key data too short: "@ + decimal(*len as nat)
                    + " bytes, need at least "@ + decimal(32),
                FrameError::BadKey(e) => "bad key: "@ + e@,
                FrameError::EncryptionFailed(e) => "encryption failed: "@ + e@,
                FrameError::DecryptionFailed => "ALTS frame decryption failed"@,
                FrameError::FrameTooLarge(len) => "ALTS frame too large: "@ + decimal(*len as nat),
                FrameError::PartialWrite => "partial ALTS frame write"@,
            },
    {
        match self {
            FrameError::KeyDataTooShort(len) => {
                let mut message = "ALTS key data too short: ".to_owned();
                append_decimal(&mut message, *len as u64);
                message.append(" bytes, need at least ");
                append_decimal(&mut message, (2 * KEY_SIZE) as u64);
                message
            },
            FrameError::BadKey(e) => "bad key: ".to_owned().concat(e.as_str()),
            FrameError::EncryptionFailed(e) => "encryption failed: ".to_owned().concat(e.as_str()),
            FrameError::DecryptionFailed => "ALTS frame decryption failed".to_owned(),
            FrameError::FrameTooLarge(len) => {
                let mut message = "ALTS frame too large: ".to_owned();
                append_decimal(&mut message, *len as u64);
                message
            },
            FrameError::PartialWrite => "partial ALTS frame write".to_owned(),
        }
    }

    /// The cipher rejected the key.
    pub open spec fn is_bad_key(&self) -> bool {
        self matches FrameError::BadKey(e) && e@ == "Unspecified"@
    }

    /// The cipher did not encrypt the frame.
    pub open spec fn is_encryption_failed(&self) -> bool {
        self matches FrameError::EncryptionFailed(e) && e@ == "Unspecified"@
    }
}

/// The nonce of the frame with the given sequence number.
pub open spec fn nonce_bytes(counter: nat) -> Seq<u8> {
    Seq::new(NONCE_PREFIX_SIZE as nat, |i: int| 0u8) + le_bytes(counter, COUNTER_SIZE as nat)
}

/// The plaintext of the sealed frame with the given sequence number, or `None`
/// where the key cannot be one or the frame does not decrypt.
pub open spec fn frame_plaintext(key: Seq<u8>, counter: nat, sealed: Seq<u8>) -> Option<Seq<u8>> {
    if key.len() == KEY_SIZE {
        gcm_opened(key, nonce_bytes(counter), sealed)
    } else {
        None
    }
}

/// The sealed frame with the given sequence number and plaintext, or `None`
/// where the key cannot be one or the plaintext is too long.
pub open spec fn sealed_frame(key: Seq<u8>, counter: nat, plaintext: Seq<u8>) -> Option<Seq<u8>> {
    if key.len() == KEY_SIZE && plaintext.len() <= MAX_MESSAGE_SIZE {
        Some(gcm_sealed(key, nonce_bytes(counter), plaintext))
    } else {
        None
    }
}

/// A sealed frame as it travels: its length, then the frame.
pub open spec fn wire_frame(sealed: Seq<u8>) -> Seq<u8> {
    le_bytes(sealed.len(), FRAME_LENGTH_SIZE as nat) + sealed
}

/// Derives the client and server keys from the ALTS handshake key material.
///
/// The client key is the first [`KEY_SIZE`] bytes of the material, the server
/// key the next [`KEY_SIZE`] bytes. A client encrypts with the client key and
/// decrypts with the server key.
pub fn derive_keys(key_data: &[u8]) -> (r: Result<(Vec<u8>, Vec<u8>), FrameError>)
    ensures
        r is Ok <==> key_data@.len() >= 2 * KEY_SIZE,
        r matches Ok((client_key, server_key)) ==> {
            &&& client_key@ == key_data@.subrange(0, KEY_SIZE as int)
            &&& server_key@ == key_data@.subrange(KEY_SIZE as int, 2 * KEY_SIZE as int)
        },
        r matches Err(e) ==> e == FrameError::KeyDataTooShort(key_data@.len() as usize),
{
    if key_data.len() < 2 * KEY_SIZE {
        return Err(FrameError::KeyDataTooShort(key_data.len()));
    }
    let client_key = slice_to_vec(slice_subrange(key_data, 0, KEY_SIZE));
    let server_key = slice_to_vec(slice_subrange(key_data, KEY_SIZE, 2 * KEY_SIZE));
    Ok((client_key, server_key))
}

/// Builds the nonce of the frame with the given sequence number.
pub fn make_nonce(counter: u64) -> (nonce: [u8; 12])
    ensures
        nonce@ == nonce_bytes(counter as nat),
        nonce@[0] == 0 && nonce@[1] == 0 && nonce@[2] == 0 && nonce@[3] == 0,
        counter == nonce@[4] + 0x100 * nonce@[5] + 0x1_0000 * nonce@[6] + 0x100_0000 * nonce@[7]
            + 0x1_0000_0000 * nonce@[8] + 0x100_0000_0000 * nonce@[9] + 0x1_0000_0000_0000
            * nonce@[10] + 0x100_0000_0000_0000 * nonce@[11],
{
    let c = to_le_bytes(counter, COUNTER_SIZE);
    proof {
        lemma_le_bytes_len(counter as nat, COUNTER_SIZE as nat);
    }
    let nonce: [u8; 12] = [0, 0, 0, 0, c[0], c[1], c[2], c[3], c[4], c[5], c[6], c[7]];
    assert(nonce@ =~= nonce_bytes(counter as nat));
    proof {
        nonce_holds_counter(counter);
    }
    nonce
}

/// The nonce of a frame has 12 bytes: four zeros, then the sequence number,
/// least significant byte first.
pub proof fn nonce_holds_counter(counter: u64)
    ensures
        ({
            let nonce = nonce_bytes(counter as nat);
            &&& nonce.len() == 12
            &&& nonce[0] == 0 && nonce[1] == 0 && nonce[2] == 0 && nonce[3] == 0
            &&& counter == nonce[4] + 0x100 * nonce[5] + 0x1_0000 * nonce[6] + 0x100_0000 * nonce[7]
                + 0x1_0000_0000 * nonce[8] + 0x100_0000_0000 * nonce[9] + 0x1_0000_0000_0000
                * nonce[10] + 0x100_0000_0000_0000 * nonce[11]
        }),
{
    let digits = le_bytes(counter as nat, 8);
    reveal_with_fuel(byte_capacity, 9);
    lemma_le_bytes_len(counter as nat, 8);
    lemma_le_round_trip(counter as nat, 8);
    eight_bytes_weigh(digits);
    let nonce = nonce_bytes(counter as nat);
    assert(nonce[4] == digits[0] && nonce[5] == digits[1] && nonce[6] == digits[2] && nonce[7]
        == digits[3]);
    assert(nonce[8] == digits[4] && nonce[9] == digits[5] && nonce[10] == digits[6] && nonce[11]
        == digits[7]);
}

/// Encrypts a plaintext frame using AES-128-GCM.
///
/// Returns the encrypted payload (ciphertext and tag), which decrypts under the
/// same key and sequence number to the plaintext.
pub fn encrypt_frame(key: &[u8], counter: u64, plaintext: &[u8]) -> (r: Result<
    Vec<u8>,
    FrameError,
>)
    ensures
        r is Ok <==> key@.len() == KEY_SIZE && plaintext@.len() <= MAX_MESSAGE_SIZE,
        match r {
            Ok(sealed) => sealed_frame(key@, counter as nat, plaintext@) == Some(sealed@),
            Err(_) => sealed_frame(key@, counter as nat, plaintext@) is None,
        },
        r matches Ok(sealed) ==> {
            &&& sealed@.len() == plaintext@.len() + TAG_SIZE
            &&& frame_plaintext(key@, counter as nat, sealed@) == Some(plaintext@)
            &&& sealed@ == gcm_sealed(key@, nonce_bytes(counter as nat), plaintext@)
            &&& gcm_opened(key@, nonce_bytes(counter as nat), sealed@) == Some(plaintext@)
        },
        r matches Err(FrameError::BadKey(e)) ==> key@.len() != 16 && e@ == "Unspecified"@,
        r matches Err(FrameError::EncryptionFailed(e)) ==> key@.len() == 16 && e@ == "Unspecified"@,
        r matches Err(e) ==> e is BadKey || e is EncryptionFailed,
        r matches Err(e) ==> if key@.len() != KEY_SIZE {
            e.is_bad_key()
        } else {
            e.is_encryption_failed()
        },
{
    match cipher::seal(key, make_nonce(counter), plaintext) {
        Err(e) => Err(FrameError::BadKey(cipher::describe(&e))),
        Ok(Err(e)) => Err(FrameError::EncryptionFailed(cipher::describe(&e))),
        Ok(Ok(sealed)) => Ok(sealed),
    }
}

/// Decrypts a ciphertext frame (ciphertext and tag) using AES-128-GCM.
///
/// Returns the decrypted plaintext, which encrypts under the same key and
/// sequence number to the frame. What is not the encryption of anything, such
/// as a frame shorter than a tag, is refused as invalid data.
pub fn decrypt_frame(key: &[u8], counter: u64, ciphertext_and_tag: &[u8]) -> (r: Result<
    Vec<u8>,
    FrameError,
>)
    ensures
        match r {
            Ok(plaintext) => {
                &&& frame_plaintext(key@, counter as nat, ciphertext_and_tag@) == Some(plaintext@)
                &&& gcm_opened(key@, nonce_bytes(counter as nat), ciphertext_and_tag@) == Some(
                    plaintext@,
                )
                &&& key@.len() == KEY_SIZE
                &&& plaintext@.len() + TAG_SIZE == ciphertext_and_tag@.len()
                &&& plaintext@.len() <= MAX_MESSAGE_SIZE
                &&& sealed_frame(key@, counter as nat, plaintext@) == Some(ciphertext_and_tag@)
            },
            Err(e) => {
                &&& frame_plaintext(key@, counter as nat, ciphertext_and_tag@) is None
                &&& e.spec_kind() == ErrorKind::InvalidData
                &&& key@.len() == 16 ==> gcm_opened(
                    key@,
                    nonce_bytes(counter as nat),
                    ciphertext_and_tag@,
                ) is None && e is DecryptionFailed
                &&& key@.len() != 16 ==> (e matches FrameError::BadKey(t) && t@ == "Unspecified"@)
                &&& if key@.len() != KEY_SIZE {
                    e.is_bad_key()
                } else {
                    e is DecryptionFailed
                }
            },
        },
{
    match cipher::open(key, make_nonce(counter), ciphertext_and_tag) {
        Err(e) => Err(FrameError::BadKey(cipher::describe(&e))),
        Ok(Err(_)) => Err(FrameError::DecryptionFailed),
        Ok(Ok(plaintext)) => Ok(plaintext),
    }
}

} // verus!

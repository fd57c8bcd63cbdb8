use direct_connectivity::alts::cipher::{KEY_SIZE, NONCE_SIZE, TAG_SIZE};
use direct_connectivity::alts::frame::{
    decrypt_frame, derive_keys, encrypt_frame, make_nonce, ErrorKind, FrameError,
    NONCE_PREFIX_SIZE,
};

#[test]
fn test_make_nonce() {
    let nonce = make_nonce(0);
    assert_eq!(nonce, [0u8; NONCE_SIZE]);

    let nonce = make_nonce(1);
    let mut expected = [0u8; NONCE_SIZE];
    expected[NONCE_PREFIX_SIZE] = 1;
    assert_eq!(nonce, expected);

    let nonce = make_nonce(0x0102030405060708);
    let mut expected = [0u8; NONCE_SIZE];
    expected[NONCE_PREFIX_SIZE..].copy_from_slice(&0x0102030405060708u64.to_le_bytes());
    assert_eq!(nonce, expected);
}

#[test]
fn nonces_of_different_frames_differ() {
    let counters = [0, 1, 255, 256, 65536, u64::MAX - 1, u64::MAX];
    for (i, a) in counters.iter().enumerate() {
        for b in &counters[i + 1..] {
            assert_ne!(make_nonce(*a), make_nonce(*b));
        }
    }
    assert_eq!(
        make_nonce(u64::MAX),
        [0, 0, 0, 0, 255, 255, 255, 255, 255, 255, 255, 255]
    );
}

#[test]
fn test_encrypt_decrypt_roundtrip() {
    let key = [0x42u8; KEY_SIZE];
    let plaintext = b"Hello, ALTS!";

    let encrypted = encrypt_frame(&key, 0, plaintext).unwrap();
    assert_ne!(&encrypted[..plaintext.len()], plaintext);
    assert_eq!(encrypted.len(), plaintext.len() + TAG_SIZE);

    let decrypted = decrypt_frame(&key, 0, &encrypted).unwrap();
    assert_eq!(decrypted, plaintext);
}

#[test]
fn test_decrypt_wrong_counter_fails() {
    let key = [0x42u8; KEY_SIZE];
    let plaintext = b"Hello, ALTS!";

    let encrypted = encrypt_frame(&key, 0, plaintext).unwrap();
    let result = decrypt_frame(&key, 1, &encrypted);
    assert!(result.is_err());
}

#[test]
fn test_decrypt_wrong_key_fails() {
    let key1 = [0x42u8; KEY_SIZE];
    let key2 = [0x43u8; KEY_SIZE];
    let plaintext = b"Hello, ALTS!";

    let encrypted = encrypt_frame(&key1, 0, plaintext).unwrap();
    let result = decrypt_frame(&key2, 0, &encrypted);
    assert!(result.is_err());
}

#[test]
fn test_derive_keys() {
    let key_data = vec![0u8; 32];
    let (client_key, server_key) = derive_keys(&key_data).unwrap();
    assert_eq!(client_key.len(), KEY_SIZE);
    assert_eq!(server_key.len(), KEY_SIZE);
}

#[test]
fn test_derive_keys_too_short() {
    let key_data = vec![0u8; 15];
    assert!(derive_keys(&key_data).is_err());
}

#[test]
fn derive_keys_takes_the_first_two_halves() {
    let key_data: Vec<u8> = (0..44).collect();
    let (client_key, server_key) = derive_keys(&key_data).unwrap();
    assert_eq!(client_key, (0..16).collect::<Vec<u8>>());
    assert_eq!(server_key, (16..32).collect::<Vec<u8>>());
}

#[test]
fn derive_keys_reports_the_length() {
    let error = derive_keys(&[7u8; 31]).unwrap_err();
    assert!(matches!(error, FrameError::KeyDataTooShort(31)));
    assert_eq!(error.kind(), ErrorKind::InvalidData);
    assert_eq!(
        error.message(),
        "ALTS key data too short: 31 bytes, need at least 32"
    );
}

/// The AES-128-GCM vectors of the GCM submission that use a zero key, a zero
/// nonce and no associated data.
#[test]
fn encryption_matches_known_vectors() {
    let key = [0u8; KEY_SIZE];
    let empty = encrypt_frame(&key, 0, b"").unwrap();
    assert_eq!(
        empty,
        [
            0x58, 0xe2, 0xfc, 0xce, 0xfa, 0x7e, 0x30, 0x61, 0x36, 0x7f, 0x1d, 0x57, 0xa4, 0xe7,
            0x45, 0x5a
        ]
    );
    let block = encrypt_frame(&key, 0, &[0u8; 16]).unwrap();
    assert_eq!(
        block,
        [
            0x03, 0x88, 0xda, 0xce, 0x60, 0xb6, 0xa3, 0x92, 0xf3, 0x28, 0xc2, 0xb9, 0x71, 0xb2,
            0xfe, 0x78, 0xab, 0x6e, 0x47, 0xd4, 0x2c, 0xec, 0x13, 0xbd, 0xf5, 0x3a, 0x67, 0xb2,
            0x12, 0x57, 0xbd, 0xdf
        ]
    );
    assert_eq!(decrypt_frame(&key, 0, &block).unwrap(), [0u8; 16]);
}

#[test]
fn keys_of_other_sizes_are_rejected() {
    for len in [0usize, 15, 17, 32] {
        let key = vec![1u8; len];
        let error = encrypt_frame(&key, 0, b"x").unwrap_err();
        assert_eq!(error.message(), "bad key: Unspecified");
        assert_eq!(error.kind(), ErrorKind::InvalidData);
        let error = decrypt_frame(&key, 0, &[0u8; 17]).unwrap_err();
        assert_eq!(error.message(), "bad key: Unspecified");
    }
}

#[test]
fn tampered_and_short_frames_are_refused() {
    let key = [0x42u8; KEY_SIZE];
    let mut encrypted = encrypt_frame(&key, 9, b"payload").unwrap();
    encrypted[3] ^= 1;
    let error = decrypt_frame(&key, 9, &encrypted).unwrap_err();
    assert!(matches!(error, FrameError::DecryptionFailed));
    assert_eq!(error.message(), "ALTS frame decryption failed");
    assert_eq!(error.kind(), ErrorKind::InvalidData);
    assert!(decrypt_frame(&key, 9, &[0u8; TAG_SIZE - 1]).is_err());
    assert!(decrypt_frame(&key, 9, b"").is_err());
}

#[test]
fn frame_errors_have_kinds_and_texts() {
    let error = FrameError::EncryptionFailed("Unspecified".to_string());
    assert_eq!(error.kind(), ErrorKind::Other);
    assert_eq!(error.message(), "encryption failed: Unspecified");
    let error = FrameError::FrameTooLarge(1048577);
    assert_eq!(error.kind(), ErrorKind::InvalidData);
    assert_eq!(error.message(), "ALTS frame too large: 1048577");
    let error = FrameError::PartialWrite;
    assert_eq!(error.kind(), ErrorKind::WriteZero);
    assert_eq!(error.message(), "partial ALTS frame write");
}

#[test]
fn what_decrypts_encrypts_to_the_same_frame() {
    let key = [9u8; KEY_SIZE];
    for len in [0usize, 1, 16, 1000] {
        let frame = encrypt_frame(&key, 3, &vec![7u8; len]).unwrap();
        let plaintext = decrypt_frame(&key, 3, &frame).unwrap();
        assert_eq!(encrypt_frame(&key, 3, &plaintext).unwrap(), frame);
    }
}

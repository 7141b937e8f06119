use trueseal_noise::cipher::CipherState;

/// Tracer bullet: encrypt then decrypt recovers the original plaintext.
#[test]
fn cipher_encrypt_decrypt_round_trip() {
    let key = [0u8; 32];
    let mut cs = CipherState::new(key);
    let plaintext = b"hello noise";
    let ad = b"additional data";

    let ciphertext = cs.encrypt(ad, plaintext);

    let mut cs2 = CipherState::new(key);
    let recovered = cs2.decrypt(ad, &ciphertext).expect("decrypt should succeed");

    assert_eq!(recovered, plaintext);
}

/// Wrong AD causes decryption to fail.
#[test]
fn decrypt_with_wrong_ad_fails() {
    let key = [1u8; 32];
    let mut cs_enc = CipherState::new(key);
    let ciphertext = cs_enc.encrypt(b"correct ad", b"secret");

    let mut cs_dec = CipherState::new(key);
    let result = cs_dec.decrypt(b"wrong ad", &ciphertext);
    assert!(result.is_err(), "decrypt with wrong AD should fail");
}

/// Nonce increments: two encryptions with the same key produce different ciphertexts.
#[test]
fn nonce_increments_between_encryptions() {
    let key = [2u8; 32];
    let mut cs = CipherState::new(key);
    let ct1 = cs.encrypt(b"", b"same plaintext");
    let ct2 = cs.encrypt(b"", b"same plaintext");
    assert_ne!(ct1, ct2, "successive encryptions should produce different ciphertexts");
}

/// Nonce encoding: bytes 0-3 are zero, bytes 4-11 are the counter little-endian.
#[test]
fn nonce_encoding_matches_noise_spec() {
    let nonce = CipherState::make_nonce(1);
    let bytes = nonce.as_slice();
    assert_eq!(&bytes[0..4], &[0u8; 4], "first 4 bytes must be zero");
    assert_eq!(&bytes[4..12], &1u64.to_le_bytes(), "bytes 4-11 are counter LE");
}

#[test]
fn nonce_encoding_of_large_counter() {
    let n = 0x0102030405060708u64;
    let nonce = CipherState::make_nonce(n);
    assert_eq!(nonce, [0, 0, 0, 0, 8, 7, 6, 5, 4, 3, 2, 1]);
}

#[test]
fn ciphertext_carries_sixteen_byte_tag_and_nonce_advances() {
    let mut cs = CipherState::new([3u8; 32]);
    assert_eq!(cs.nonce(), 0);
    let ct = cs.encrypt(b"", b"abc");
    assert_eq!(ct.len(), 3 + 16);
    assert_eq!(cs.nonce(), 1);
}

#[test]
fn failed_decrypt_keeps_nonce_and_reports_text() {
    let mut cs = CipherState::new([4u8; 32]);
    let err = cs.decrypt(b"", &[0u8; 20]).unwrap_err();
    assert_eq!(err, "noise: decrypt failed: authentication error");
    assert_eq!(cs.nonce(), 0);
    // shorter than a tag
    assert!(cs.decrypt(b"", &[0u8; 5]).is_err());
    assert_eq!(cs.nonce(), 0);
    // the genuine message still decrypts afterwards
    let mut enc = CipherState::new([4u8; 32]);
    let ct = enc.encrypt(b"", b"ok");
    assert_eq!(cs.decrypt(b"", &ct).unwrap(), b"ok".to_vec());
    assert_eq!(cs.nonce(), 1);
}

#[test]
fn decrypt_at_wrong_nonce_fails() {
    let key = [5u8; 32];
    let mut enc = CipherState::new(key);
    let _first = enc.encrypt(b"", b"one");
    let second = enc.encrypt(b"", b"two");
    let mut dec = CipherState::new(key);
    assert!(dec.decrypt(b"", &second).is_err());
}

/// A long plaintext with associated data survives the round trip.
#[test]
fn encrypt_round_trips_long_plaintext_with_ad() {
    let mut key = [0u8; 32];
    for i in 0..32 {
        key[i] = 0x80 + i as u8;
    }
    let plaintext = b"Ladies and Gentlemen of the class of '99: If I could offer you only one tip for the future, sunscreen would be it.";
    let ad = [0x50u8, 0x51, 0x52, 0x53, 0xc0, 0xc1, 0xc2, 0xc3, 0xc4, 0xc5, 0xc6, 0xc7];
    let mut cs = CipherState::new(key);
    let ct = cs.encrypt(&ad, plaintext);
    assert_eq!(ct.len(), plaintext.len() + 16);
    let mut cs2 = CipherState::new(key);
    assert_eq!(cs2.decrypt(&ad, &ct).unwrap(), plaintext.to_vec());
}

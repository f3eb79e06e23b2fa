use base64::Engine;
use chacha20poly1305::aead::Aead;
use chacha20poly1305::KeyInit;
use osvoice_core::crypto::{protect_api_key, reveal_api_key, CryptoContext, CryptoError};
use osvoice_core::hashing::derive_encryption_key;
use sha2::{Digest, Sha256};

fn ctx_with(secret: &[u8]) -> CryptoContext {
    CryptoContext::new(secret.to_vec())
}

#[test]
fn round_trip_simple_key() {
    let ctx = ctx_with(b"unit-test-secret");
    let bundle = protect_api_key(&ctx, "sk-XXXXabcd");
    let opened = reveal_api_key(&ctx, &bundle.salt_b64, &bundle.ciphertext_b64).unwrap();
    assert_eq!(opened, "sk-XXXXabcd");
}

#[test]
fn round_trip_every_printable_ascii() {
    let ctx = ctx_with(b"unit-test-secret");
    let mut key = String::new();
    for b in 0x21u8..=0x7e {
        key.push(b as char);
    }
    let bundle = protect_api_key(&ctx, &key);
    let opened = reveal_api_key(&ctx, &bundle.salt_b64, &bundle.ciphertext_b64).unwrap();
    assert_eq!(opened, key);
}

#[test]
fn round_trip_non_ascii_text() {
    let ctx = ctx_with(b"unit-test-secret");
    let key = "clef-d'acc\u{e8}s \u{1F511}";
    let bundle = protect_api_key(&ctx, key);
    let opened = reveal_api_key(&ctx, &bundle.salt_b64, &bundle.ciphertext_b64).unwrap();
    assert_eq!(opened, key);
}

#[test]
fn sealing_nondeterministic_opening_deterministic() {
    let ctx = ctx_with(b"unit-test-secret");
    let b1 = protect_api_key(&ctx, "sk-same-plaintext");
    let b2 = protect_api_key(&ctx, "sk-same-plaintext");
    assert_ne!(b1.salt_b64, b2.salt_b64);
    assert_ne!(b1.ciphertext_b64, b2.ciphertext_b64);
    let engine = base64::engine::general_purpose::STANDARD;
    let c1 = engine.decode(&b1.ciphertext_b64).unwrap();
    let c2 = engine.decode(&b2.ciphertext_b64).unwrap();
    assert_ne!(&c1[..12], &c2[..12], "nonces must differ");
    let o1 = reveal_api_key(&ctx, &b1.salt_b64, &b1.ciphertext_b64).unwrap();
    let o2 = reveal_api_key(&ctx, &b2.salt_b64, &b2.ciphertext_b64).unwrap();
    assert_eq!(o1, "sk-same-plaintext");
    assert_eq!(o2, "sk-same-plaintext");
}

#[test]
fn suffix_of_long_key() {
    let ctx = ctx_with(b"unit-test-secret");
    let bundle = protect_api_key(&ctx, "sk-XXXXabcd");
    assert_eq!(bundle.key_suffix.as_deref(), Some("abcd"));
}

#[test]
fn suffix_of_short_key() {
    let ctx = ctx_with(b"unit-test-secret");
    let bundle = protect_api_key(&ctx, "abc");
    assert_eq!(bundle.key_suffix.as_deref(), Some("abc"));
}

#[test]
fn suffix_of_empty_key() {
    let ctx = ctx_with(b"unit-test-secret");
    let bundle = protect_api_key(&ctx, "");
    assert!(bundle.key_suffix.is_none());
}

#[test]
fn fingerprint_matches_direct_hash() {
    let ctx = ctx_with(b"unit-test-secret");
    let bundle = protect_api_key(&ctx, "sk-check-hash");
    let engine = base64::engine::general_purpose::STANDARD;
    let salt = engine.decode(&bundle.salt_b64).unwrap();
    let mut hasher = Sha256::new();
    hasher.update(b"unit-test-secret");
    hasher.update(&salt);
    hasher.update(b"sk-check-hash");
    let expected: [u8; 32] = hasher.finalize().into();
    assert_eq!(engine.decode(&bundle.hash_b64).unwrap(), expected.to_vec());
}

#[test]
fn stored_ciphertext_decrypts_with_independent_cipher() {
    let ctx = ctx_with(b"unit-test-secret");
    let bundle = protect_api_key(&ctx, "sk-independent");
    let engine = base64::engine::general_purpose::STANDARD;
    let salt = engine.decode(&bundle.salt_b64).unwrap();
    let combined = engine.decode(&bundle.ciphertext_b64).unwrap();
    let key = derive_encryption_key(b"unit-test-secret", &salt);
    let cipher = chacha20poly1305::ChaCha20Poly1305::new_from_slice(&key).unwrap();
    let nonce = chacha20poly1305::Nonce::from_slice(&combined[..12]);
    let plaintext = cipher.decrypt(nonce, &combined[12..]).unwrap();
    assert_eq!(plaintext, b"sk-independent".to_vec());
}

#[test]
fn derivation_deterministic_and_salt_sensitive() {
    let k1 = derive_encryption_key(b"secret-a", b"salt-000000000001");
    let k2 = derive_encryption_key(b"secret-a", b"salt-000000000001");
    let k3 = derive_encryption_key(b"secret-a", b"salt-000000000002");
    assert_eq!(k1, k2);
    assert_ne!(k1, k3);
    let mut hasher = Sha256::new();
    hasher.update(b"osvoice-aead-key-v2");
    hasher.update(b"secret-a");
    hasher.update(b"salt-000000000001");
    let expected: [u8; 32] = hasher.finalize().into();
    assert_eq!(k1, expected.to_vec());
}

#[test]
fn tampering_with_any_ciphertext_byte_fails() {
    let ctx = ctx_with(b"unit-test-secret");
    let bundle = protect_api_key(&ctx, "sk-tamper-check");
    let engine = base64::engine::general_purpose::STANDARD;
    let combined = engine.decode(&bundle.ciphertext_b64).unwrap();
    for i in 0..combined.len() {
        let mut broken = combined.clone();
        broken[i] ^= 0x01;
        let reencoded = engine.encode(&broken);
        let outcome = reveal_api_key(&ctx, &bundle.salt_b64, &reencoded);
        match outcome {
            Ok(recovered) => panic!(
                "tampered byte {} still revealed {:?}",
                i, recovered
            ),
            Err(e) => assert!(matches!(e, CryptoError::DecryptionFailed(_))),
        }
    }
}

#[test]
fn malformed_base64_is_reported_as_such() {
    let ctx = ctx_with(b"unit-test-secret");
    let bundle = protect_api_key(&ctx, "sk-valid");
    let r1 = reveal_api_key(&ctx, "not base64!!!", &bundle.ciphertext_b64);
    assert!(matches!(r1, Err(CryptoError::Base64(_))));
    let r2 = reveal_api_key(&ctx, &bundle.salt_b64, "%%%");
    assert!(matches!(r2, Err(CryptoError::Base64(_))));
}

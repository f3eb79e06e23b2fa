use base64::Engine;
use osvoice_core::crypto::{
    is_plausible_api_key, legacy_default_secret_bytes, resolve_root_secret, reveal_api_key,
    try_legacy_xor_decrypt, CryptoContext, CryptoError,
};
use osvoice_core::legacy::xor_keystream_legacy;
use osvoice_core::rng::fresh_root_secret;
use sha2::{Digest, Sha256};

fn b64(bytes: &[u8]) -> String {
    base64::engine::general_purpose::STANDARD.encode(bytes)
}

fn legacy_bundle(secret: &[u8], salt: &[u8], plaintext: &str) -> (String, String) {
    let ct = xor_keystream_legacy(secret, salt, plaintext.as_bytes());
    (b64(salt), b64(&ct))
}

#[test]
fn legacy_bundle_is_recovered_under_same_secret() {
    let secret = b"customized-secret-value";
    let salt = b"0123456789abcdef";
    let (salt_b64, ct_b64) = legacy_bundle(secret, salt, "legacy-api-key-1234");
    let ctx = CryptoContext::new(secret.to_vec());
    let opened = reveal_api_key(&ctx, &salt_b64, &ct_b64).unwrap();
    assert_eq!(opened, "legacy-api-key-1234");
}

#[test]
fn legacy_bundle_under_default_secret_survives_customization() {
    let default_secret = legacy_default_secret_bytes();
    assert_eq!(default_secret, b"osvoice-default-secret".to_vec());
    let salt = b"fedcba9876543210";
    let (salt_b64, ct_b64) = legacy_bundle(&default_secret, salt, "sk-old-install-key");
    let ctx = CryptoContext::new(b"a-new-customized-secret".to_vec());
    let opened = reveal_api_key(&ctx, &salt_b64, &ct_b64).unwrap();
    assert_eq!(opened, "sk-old-install-key");
}

#[test]
fn keystream_matches_direct_hash_chain() {
    let secret = b"ks-secret";
    let salt = b"ks-salt-16-bytes";
    let data = [0u8; 70];
    let ct = xor_keystream_legacy(secret, salt, &data);
    let mut expected = Vec::new();
    let mut counter: u32 = 0;
    while expected.len() < 70 {
        let mut hasher = Sha256::new();
        hasher.update(secret);
        hasher.update(salt);
        hasher.update(counter.to_be_bytes());
        expected.extend_from_slice(&hasher.finalize());
        counter += 1;
    }
    expected.truncate(70);
    assert_eq!(ct, expected, "XOR against zeros exposes the keystream");
}

#[test]
fn implausible_legacy_results_are_rejected() {
    let secret = b"gate-check-secret";
    let salt = b"0123456789abcdef";
    let ctx = CryptoContext::new(secret.to_vec());

    // empty plaintext: nothing plausible can come back from any path
    let (s1, c1) = legacy_bundle(secret, salt, "");
    assert!(matches!(
        reveal_api_key(&ctx, &s1, &c1),
        Err(CryptoError::DecryptionFailed(_))
    ));

    // an embedded newline is not printable
    let (s2, c2) = legacy_bundle(secret, salt, "bad\nkey");
    assert!(matches!(
        reveal_api_key(&ctx, &s2, &c2),
        Err(CryptoError::DecryptionFailed(_))
    ));

    // 512 bytes or more is too long to be a credential
    let long = "A".repeat(512);
    let (s3, c3) = legacy_bundle(secret, salt, &long);
    assert!(matches!(
        reveal_api_key(&ctx, &s3, &c3),
        Err(CryptoError::DecryptionFailed(_))
    ));

    // 511 bytes is still a plausible credential
    let edge = "A".repeat(511);
    let (s4, c4) = legacy_bundle(secret, salt, &edge);
    assert_eq!(reveal_api_key(&ctx, &s4, &c4).unwrap(), edge);
}

#[test]
fn plausibility_filter_cases() {
    assert!(is_plausible_api_key("sk-abc_123!~"));
    assert!(is_plausible_api_key("!"));
    assert!(!is_plausible_api_key(""));
    assert!(!is_plausible_api_key("has space"));
    assert!(!is_plausible_api_key("tab\tkey"));
    assert!(!is_plausible_api_key("touch\u{e9}"));
    assert!(!is_plausible_api_key("del\u{7f}key"));
    assert!(is_plausible_api_key(&"a".repeat(511)));
    assert!(!is_plausible_api_key(&"a".repeat(512)));
}

#[test]
fn legacy_decrypt_filters_directly() {
    let secret = b"direct-secret";
    let salt = b"0123456789abcdef";
    let good = xor_keystream_legacy(secret, salt, b"plausible-key");
    assert_eq!(
        try_legacy_xor_decrypt(secret, salt, &good).as_deref(),
        Some("plausible-key")
    );
    let bad = xor_keystream_legacy(secret, salt, b"not plausible");
    assert!(try_legacy_xor_decrypt(secret, salt, &bad).is_none());
}

#[test]
fn secret_resolution_priority() {
    let env = Some(b"from-env".to_vec());
    let file = Some(b"from-file".to_vec());
    let fallback = b"from-fallback".to_vec();
    assert_eq!(
        resolve_root_secret(env.clone(), file.clone(), fallback.clone()),
        b"from-env".to_vec()
    );
    assert_eq!(
        resolve_root_secret(Some(Vec::new()), file.clone(), fallback.clone()),
        b"from-file".to_vec()
    );
    assert_eq!(
        resolve_root_secret(None, file, fallback.clone()),
        b"from-file".to_vec()
    );
    assert_eq!(
        resolve_root_secret(None, None, fallback.clone()),
        fallback
    );
}

#[test]
fn fresh_root_secret_is_32_bytes() {
    let s1 = fresh_root_secret();
    let s2 = fresh_root_secret();
    assert_eq!(s1.len(), 32);
    assert_eq!(s2.len(), 32);
    assert_ne!(s1, s2, "two fresh secrets coinciding is a broken generator");
}

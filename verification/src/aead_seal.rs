use vstd::prelude::*;
use chacha20poly1305::aead::Aead;
use chacha20poly1305::KeyInit;

verus! {

/// Largest plaintext the sealing cipher is asked to handle. The cipher itself
/// refuses messages of 2^32 - 1 or more 64-byte blocks; this bound stays far
/// below that.
pub open spec fn cipher_msg_max() -> int {
    0x3f_ffff_ff00
}

/// The ciphertext-with-tag that ChaCha20-Poly1305 produces for a key, a nonce
/// and a plaintext, named so that contracts can speak of it; the bytes
/// themselves are computed by the chacha20poly1305 crate. For a fixed key and
/// nonce, distinct plaintexts give distinct ciphertexts, and the output is 16
/// bytes (the tag) longer than the plaintext.
pub uninterp spec fn chacha_seal(key: Seq<u8>, nonce: Seq<u8>, pt: Seq<u8>) -> Seq<u8>;

/// Relies on chacha20poly1305::ChaCha20Poly1305: new_from_slice accepts any
/// 32-byte key, and encrypt is deterministic in key, nonce and plaintext and
/// succeeds for every message below the cipher's block-count limit.
#[verifier::external_body]
pub(crate) fn aead_encrypt(key: &[u8], nonce: &[u8], pt: &[u8]) -> (r: Vec<u8>)
    requires
        key@.len() == 32,
        nonce@.len() == 12,
        pt@.len() <= cipher_msg_max(),
    ensures
        r@ == chacha_seal(key@, nonce@, pt@),
        r@.len() == pt@.len() + 16,
{
    let cipher = chacha20poly1305::ChaCha20Poly1305::new_from_slice(key).unwrap();
    cipher.encrypt(chacha20poly1305::Nonce::from_slice(nonce), pt).unwrap()
}

/// Relies on chacha20poly1305::ChaCha20Poly1305 decrypt: it verifies the
/// Poly1305 tag and returns the decrypted bytes only when the tag matches, so
/// it succeeds on the genuine sealing of a plaintext under the same key and
/// nonce and returns exactly that plaintext, and anything it accepts is the
/// sealing of what it returns. Oversized inputs are rejected, never a panic.
#[verifier::external_body]
pub(crate) fn aead_decrypt(key: &[u8], nonce: &[u8], ct: &[u8]) -> (r: Option<Vec<u8>>)
    requires
        key@.len() == 32,
        nonce@.len() == 12,
    ensures
        r is Some <== exists|pt: Seq<u8>|
            pt.len() <= cipher_msg_max() && ct@ == chacha_seal(key@, nonce@, pt),
        r matches Some(m) ==> (m@.len() + 16 == ct@.len() && ct@ == chacha_seal(
            key@,
            nonce@,
            m@,
        )),
        r matches Some(m) ==> forall|pt: Seq<u8>|
            (pt.len() <= cipher_msg_max() && ct@ == chacha_seal(key@, nonce@, pt)) ==> m@ == pt,
{
    let cipher = chacha20poly1305::ChaCha20Poly1305::new_from_slice(key).unwrap();
    cipher.decrypt(chacha20poly1305::Nonce::from_slice(nonce), ct).ok()
}

} // verus!

use vstd::prelude::*;
use vstd::utf8::encode_utf8;
use crate::crypto::{
    aead_openable, aead_opens_to, bundle_opens_to, legacy_default_secret, legacy_openable,
    plausible_key, reveal_post, sealed_bundle, CryptoError,
};
use crate::encoding::{is_base64_char, trim_spec};
use crate::hashing::derive_key_spec;
use crate::legacy::{keystream_byte, legacy_xor_spec};

verus! {

/// Key derivation is deterministic: the same secret and salt always give the
/// same key.
pub proof fn lemma_derive_deterministic(
    secret1: Seq<u8>,
    salt1: Seq<u8>,
    secret2: Seq<u8>,
    salt2: Seq<u8>,
)
    requires
        secret1 == secret2,
        salt1 == salt2,
    ensures
        derive_key_spec(secret1, salt1) == derive_key_spec(secret2, salt2),
{
}

/// A freshly sealed bundle opens on the authenticated path to exactly the
/// plaintext that was sealed, under the same secret.
pub proof fn lemma_seal_round_trip(
    secret: Seq<u8>,
    p: Seq<char>,
    salt: Seq<u8>,
    nonce: Seq<u8>,
    combined: Seq<u8>,
)
    requires
        sealed_bundle(secret, p, salt, nonce, combined),
    ensures
        aead_opens_to(secret, salt, combined, p),
        bundle_opens_to(secret, salt, combined, p),
{
}

/// Sealing twice yields bundles that may differ everywhere, yet an opening
/// that meets its contract returns the identical plaintext for both.
pub proof fn lemma_seal_twice_open_same(
    secret: Seq<u8>,
    p: Seq<char>,
    salt1: Seq<u8>,
    nonce1: Seq<u8>,
    c1: Seq<u8>,
    salt2: Seq<u8>,
    nonce2: Seq<u8>,
    c2: Seq<u8>,
    res1: Result<String, CryptoError>,
    res2: Result<String, CryptoError>,
)
    requires
        sealed_bundle(secret, p, salt1, nonce1, c1),
        sealed_bundle(secret, p, salt2, nonce2, c2),
        reveal_post(secret, salt1, c1, res1),
        reveal_post(secret, salt2, c2, res2),
    ensures
        res1 matches Ok(k1) && k1@ == p,
        res2 matches Ok(k2) && k2@ == p,
{
    lemma_seal_round_trip(secret, p, salt1, nonce1, c1);
    lemma_seal_round_trip(secret, p, salt2, nonce2, c2);
}

/// The legacy XOR transform is its own inverse, so a bundle produced by the
/// legacy keystream scheme reads back, under the same secret and salt, as the
/// plausible plaintext it was made from.
pub proof fn lemma_legacy_round_trip(secret: Seq<u8>, salt: Seq<u8>, p: Seq<char>)
    requires
        plausible_key(p),
    ensures
        crate::crypto::legacy_opens_to(
            secret,
            salt,
            legacy_xor_spec(secret, salt, encode_utf8(p)),
            p,
        ),
{
    let d = encode_utf8(p);
    let c = legacy_xor_spec(secret, salt, d);
    assert forall|i: int| 0 <= i < d.len() implies legacy_xor_spec(secret, salt, c)[i] == d[i] by {
        let x = d[i];
        let y = keystream_byte(secret, salt, i);
        assert(((x ^ y) ^ y) == x) by (bit_vector);
    }
    assert(legacy_xor_spec(secret, salt, c) =~= d);
}

/// A bundle of the legacy keystream scheme is recovered by an opening that
/// meets its contract, under the secret that sealed it, whenever the
/// authenticated path does not claim the bundle first.
pub proof fn lemma_legacy_recovery(
    secret: Seq<u8>,
    salt: Seq<u8>,
    p: Seq<char>,
    ct: Seq<u8>,
    res: Result<String, CryptoError>,
)
    requires
        plausible_key(p),
        ct == legacy_xor_spec(secret, salt, encode_utf8(p)),
        !aead_openable(secret, salt, ct),
        reveal_post(secret, salt, ct, res),
    ensures
        res matches Ok(k) && k@ == p,
{
    lemma_legacy_round_trip(secret, salt, p);
    assert(bundle_opens_to(secret, salt, ct, p));
}

/// A bundle sealed by the legacy scheme under the fixed historical default
/// secret is still recovered after the active secret has been customized,
/// whenever no earlier path claims the bundle first.
pub proof fn lemma_default_secret_recovery(
    secret: Seq<u8>,
    salt: Seq<u8>,
    p: Seq<char>,
    ct: Seq<u8>,
    res: Result<String, CryptoError>,
)
    requires
        plausible_key(p),
        ct == legacy_xor_spec(legacy_default_secret(), salt, encode_utf8(p)),
        secret != legacy_default_secret(),
        !aead_openable(secret, salt, ct),
        !legacy_openable(secret, salt, ct),
        reveal_post(secret, salt, ct, res),
    ensures
        res matches Ok(k) && k@ == p,
{
    lemma_legacy_round_trip(legacy_default_secret(), salt, p);
    assert(bundle_opens_to(secret, salt, ct, p));
}

/// Anything an opening returns that did not come from the authenticated path
/// has passed the plausibility filter: it is non-empty, under 512 bytes, and
/// printable throughout.
pub proof fn lemma_plausibility_gate(
    secret: Seq<u8>,
    salt: Seq<u8>,
    ct: Seq<u8>,
    res: Result<String, CryptoError>,
)
    requires
        reveal_post(secret, salt, ct, res),
        !aead_openable(secret, salt, ct),
    ensures
        res matches Ok(k) ==> plausible_key(k@),
{
}

/// Text drawn entirely from the base64 alphabet carries no surrounding
/// whitespace, so trimming secret-file contents leaves a freshly written
/// encoding untouched and the stored secret reads back unchanged.
pub proof fn lemma_trim_keeps_base64_text(s: Seq<char>)
    requires
        forall|i: int| 0 <= i < s.len() ==> is_base64_char(#[trigger] s[i]),
    ensures
        trim_spec(s) == s,
{
}

} // verus!

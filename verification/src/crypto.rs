use vstd::prelude::*;
use vstd::utf8::{encode_utf8, valid_utf8};
use crate::aead_seal::{aead_decrypt, aead_encrypt, chacha_seal, cipher_msg_max};
use crate::bytes_util::{bytes_equal, push_all};
use crate::encoding::{
    base64_decode, base64_encode, base64_of, is_base64_char, trim_chars, trim_spec,
};
use crate::hashing::{derive_encryption_key, derive_key_spec, fingerprint_spec, hash_key};
use crate::legacy::{legacy_xor_spec, xor_keystream_legacy};
use crate::rng::os_random_bytes;
use crate::strings_util::{chars_to_string, str_to_chars, string_from_utf8};
use vstd::string::StringSliceAdditionalSpecFns;

verus! {

/// The four opaque text fields stored for one protected credential.
pub struct ProtectedApiKey {
    pub salt_b64: String,
    pub hash_b64: String,
    pub ciphertext_b64: String,
    pub key_suffix: Option<String>,
}

/// The errors an opening attempt can surface to a caller.
#[derive(Debug)]
pub enum CryptoError {
    /// A stored field is not valid base64 text.
    Base64(String),
    /// Decrypted bytes are not valid text.
    InvalidUtf8(String),
    /// Every opening path was exhausted.
    DecryptionFailed(String),
}

/// The resolved root secret, computed once and passed explicitly to sealing
/// and opening calls.
pub struct CryptoContext {
    pub secret: Vec<u8>,
}

impl CryptoContext {
    pub fn new(secret: Vec<u8>) -> (r: Self)
        ensures
            r.secret@ == secret@,
    {
        CryptoContext { secret }
    }
}

/// The root secret chosen from the three sources, in priority order: a
/// non-empty environment override, then the managed secret file, then an
/// ephemeral fallback for this process only.
pub open spec fn resolve_secret_spec(
    env_value: Option<Seq<u8>>,
    file_secret: Option<Seq<u8>>,
    fallback: Seq<u8>,
) -> Seq<u8> {
    if env_value is Some && env_value->0.len() > 0 {
        env_value->0
    } else if file_secret is Some {
        file_secret->0
    } else {
        fallback
    }
}

/// Picks the root secret from what the three sources offered.
pub fn resolve_root_secret(
    env_value: Option<Vec<u8>>,
    file_secret: Option<Vec<u8>>,
    fallback: Vec<u8>,
) -> (r: Vec<u8>)
    ensures
        r@ == resolve_secret_spec(env_value.deep_view(), file_secret.deep_view(), fallback@),
{
    match env_value {
        Some(e) => {
            if e.len() > 0 {
                return e;
            }
        },
        None => {},
    }
    match file_secret {
        Some(f) => f,
        None => fallback,
    }
}

/// The fixed secret the application shipped with before secrets became
/// per-installation; bundles sealed under it must stay recoverable.
pub open spec fn legacy_default_secret() -> Seq<u8> {
    seq![
        0x6fu8, 0x73, 0x76, 0x6f, 0x69, 0x63, 0x65, 0x2d, 0x64, 0x65, 0x66, 0x61, 0x75, 0x6c,
        0x74, 0x2d, 0x73, 0x65, 0x63, 0x72, 0x65, 0x74,
    ]
}

pub fn legacy_default_secret_bytes() -> (r: Vec<u8>)
    ensures
        r@ == legacy_default_secret(),
{
    let mut v: Vec<u8> = Vec::new();
    v.push(0x6f);
    v.push(0x73);
    v.push(0x76);
    v.push(0x6f);
    v.push(0x69);
    v.push(0x63);
    v.push(0x65);
    v.push(0x2d);
    v.push(0x64);
    v.push(0x65);
    v.push(0x66);
    v.push(0x61);
    v.push(0x75);
    v.push(0x6c);
    v.push(0x74);
    v.push(0x2d);
    v.push(0x73);
    v.push(0x65);
    v.push(0x63);
    v.push(0x72);
    v.push(0x65);
    v.push(0x74);
    proof {
        assert(v@ =~= legacy_default_secret());
    }
    v
}

/// Byte-level plausibility of a recovered credential: non-empty, under 512
/// bytes, and nothing but printable, non-space ASCII.
pub open spec fn plausible_key_bytes(b: Seq<u8>) -> bool {
    &&& 0 < b.len() < 512
    &&& forall|i: int| 0 <= i < b.len() ==> 0x21 <= #[trigger] b[i] <= 0x7e
}

/// Plausibility of a recovered credential string; the legacy scheme carries no
/// integrity check, so implausible results must never be surfaced.
pub open spec fn plausible_key(p: Seq<char>) -> bool {
    plausible_key_bytes(encode_utf8(p))
}

/// Heuristic filter for results of the unauthenticated legacy scheme.
pub fn is_plausible_api_key(s: &str) -> (r: bool)
    ensures
        r == plausible_key(s@),
{
    let bytes = s.as_bytes();
    if bytes.len() == 0 || bytes.len() >= 512 {
        return false;
    }
    let mut i: usize = 0;
    while i < bytes.len()
        invariant
            bytes@ == encode_utf8(s@),
            0 < bytes@.len() < 512,
            i <= bytes@.len(),
            forall|j: int| 0 <= j < i ==> 0x21 <= #[trigger] bytes@[j] <= 0x7e,
        decreases bytes@.len() - i,
    {
        let b = bytes[i];
        if b < 0x21 || b > 0x7e {
            return false;
        }
        i = i + 1;
    }
    true
}

/// The short display suffix of a credential: its last four characters, all of
/// it when it is shorter, nothing when it is empty.
pub open spec fn suffix_spec(p: Seq<char>) -> Option<Seq<char>> {
    if p.len() == 0 {
        None
    } else if p.len() <= 4 {
        Some(p)
    } else {
        Some(p.skip(p.len() - 4))
    }
}

/// Computes the display suffix of a credential.
pub fn compute_key_suffix(key: &str) -> (r: Option<String>)
    ensures
        r is Some <==> key@.len() > 0,
        r matches Some(s) ==> Some(s@) == suffix_spec(key@),
{
    let chars = str_to_chars(key);
    if chars.len() == 0 {
        return None;
    }
    let start: usize = if chars.len() > 4 {
        chars.len() - 4
    } else {
        0
    };
    let mut tail: Vec<char> = Vec::new();
    let mut i: usize = start;
    while i < chars.len()
        invariant
            start <= i <= chars@.len(),
            tail@ == chars@.subrange(start as int, i as int),
        decreases chars@.len() - i,
    {
        tail.push(chars[i]);
        proof {
            assert(chars@.subrange(start as int, i as int).push(chars@[i as int])
                =~= chars@.subrange(start as int, i + 1));
        }
        i = i + 1;
    }
    proof {
        if chars@.len() > 4 {
            assert(tail@ =~= key@.skip(key@.len() - 4));
        } else {
            assert(tail@ =~= key@);
        }
    }
    Some(chars_to_string(tail.as_slice()))
}

/// The primary, authenticated reading of a stored bundle: the combined field
/// is a 12-byte nonce followed by the sealing of the plaintext's UTF-8 bytes
/// under the key derived from this secret and salt.
pub open spec fn aead_opens_to(
    secret: Seq<u8>,
    salt: Seq<u8>,
    combined: Seq<u8>,
    p: Seq<char>,
) -> bool {
    &&& encode_utf8(p).len() <= cipher_msg_max()
    &&& combined.len() == encode_utf8(p).len() + 28
    &&& combined.skip(12) == chacha_seal(derive_key_spec(secret, salt), combined.take(12), encode_utf8(p))
}

pub open spec fn aead_openable(secret: Seq<u8>, salt: Seq<u8>, combined: Seq<u8>) -> bool {
    exists|p: Seq<char>| aead_opens_to(secret, salt, combined, p)
}

/// The deprecated, unauthenticated reading of a stored bundle: XOR against
/// the keystream yields the plaintext's UTF-8 bytes, and the result passes
/// the plausibility filter.
pub open spec fn legacy_opens_to(
    secret: Seq<u8>,
    salt: Seq<u8>,
    ciphertext: Seq<u8>,
    p: Seq<char>,
) -> bool {
    &&& encode_utf8(p) == legacy_xor_spec(secret, salt, ciphertext)
    &&& plausible_key(p)
}

pub open spec fn legacy_openable(secret: Seq<u8>, salt: Seq<u8>, ciphertext: Seq<u8>) -> bool {
    exists|p: Seq<char>| legacy_opens_to(secret, salt, ciphertext, p)
}

/// What an opening attempt returns for decoded fields: the authenticated path
/// first, then the legacy path under the active secret, then the legacy path
/// under the fixed historical default, each tried only when every earlier
/// path fails.
pub open spec fn bundle_opens_to(
    secret: Seq<u8>,
    salt: Seq<u8>,
    ciphertext: Seq<u8>,
    p: Seq<char>,
) -> bool {
    ||| aead_opens_to(secret, salt, ciphertext, p)
    ||| (!aead_openable(secret, salt, ciphertext) && legacy_opens_to(secret, salt, ciphertext, p))
    ||| (!aead_openable(secret, salt, ciphertext) && !legacy_openable(secret, salt, ciphertext)
        && secret != legacy_default_secret() && legacy_opens_to(
        legacy_default_secret(),
        salt,
        ciphertext,
        p,
    ))
}

pub open spec fn bundle_openable(secret: Seq<u8>, salt: Seq<u8>, ciphertext: Seq<u8>) -> bool {
    exists|p: Seq<char>| bundle_opens_to(secret, salt, ciphertext, p)
}

/// Attempts the authenticated path. Succeeds exactly when the bundle has the
/// sealed shape under this secret and salt, and then returns the one
/// plaintext it seals.
fn try_aead_decrypt(secret: &[u8], salt: &[u8], combined: &[u8]) -> (r: Option<String>)
    ensures
        r matches Some(k) ==> aead_opens_to(secret@, salt@, combined@, k@),
        r matches Some(k) ==> forall|p: Seq<char>|
            #[trigger] aead_opens_to(secret@, salt@, combined@, p) ==> p == k@,
        r is None ==> !aead_openable(secret@, salt@, combined@),
{
    broadcast use vstd::utf8::encode_utf8_valid_utf8;
    broadcast use vstd::utf8::encode_utf8_decode_utf8;

    if combined.len() < 28 {
        proof {
            assert forall|p: Seq<char>| !aead_opens_to(secret@, salt@, combined@, p) by {}
        }
        return None;
    }
    if (combined.len() - 28) as u64 > 0x3f_ffff_ff00u64 {
        proof {
            assert forall|p: Seq<char>| !aead_opens_to(secret@, salt@, combined@, p) by {}
        }
        return None;
    }
    let (nonce, ct) = combined.split_at(12);
    proof {
        assert(nonce@ =~= combined@.take(12));
        assert(ct@ =~= combined@.skip(12));
    }
    let key = derive_encryption_key(secret, salt);
    match aead_decrypt(key.as_slice(), nonce, ct) {
        Some(m) => {
            let ghost m_view = m@;
            match string_from_utf8(m) {
                Some(s) => {
                    proof {
                        assert(aead_opens_to(secret@, salt@, combined@, s@));
                        assert forall|p: Seq<char>|
                            #[trigger] aead_opens_to(secret@, salt@, combined@, p) implies p
                            == s@ by {
                            assert(m_view == encode_utf8(p));
                            assert(vstd::utf8::decode_utf8(encode_utf8(p)) == p);
                        }
                    }
                    Some(s)
                },
                None => {
                    proof {
                        assert forall|p: Seq<char>| !aead_opens_to(
                            secret@,
                            salt@,
                            combined@,
                            p,
                        ) by {
                            if aead_opens_to(secret@, salt@, combined@, p) {
                                assert(m_view == encode_utf8(p));
                                assert(valid_utf8(m_view));
                            }
                        }
                    }
                    None
                },
            }
        },
        None => {
            proof {
                assert forall|p: Seq<char>| !aead_opens_to(secret@, salt@, combined@, p) by {
                    if aead_opens_to(secret@, salt@, combined@, p) {
                        assert(ct@ == chacha_seal(key@, nonce@, encode_utf8(p)));
                    }
                }
            }
            None
        },
    }
}

/// Attempts the deprecated keystream path under the given secret. Succeeds
/// exactly when the XOR transform yields valid, plausible text, and then
/// returns that text.
pub fn try_legacy_xor_decrypt(secret: &[u8], salt: &[u8], ciphertext: &[u8]) -> (r: Option<
    String,
>)
    ensures
        r matches Some(k) ==> legacy_opens_to(secret@, salt@, ciphertext@, k@),
        r matches Some(k) ==> forall|p: Seq<char>|
            #[trigger] legacy_opens_to(secret@, salt@, ciphertext@, p) ==> p == k@,
        r is None ==> !legacy_openable(secret@, salt@, ciphertext@),
{
    broadcast use vstd::utf8::encode_utf8_valid_utf8;
    broadcast use vstd::utf8::encode_utf8_decode_utf8;

    let plaintext = xor_keystream_legacy(secret, salt, ciphertext);
    let ghost pt_view = plaintext@;
    match string_from_utf8(plaintext) {
        None => {
            proof {
                assert forall|p: Seq<char>| !legacy_opens_to(secret@, salt@, ciphertext@, p) by {
                    if legacy_opens_to(secret@, salt@, ciphertext@, p) {
                        assert(valid_utf8(pt_view));
                    }
                }
            }
            None
        },
        Some(s) => {
            if is_plausible_api_key(s.as_str()) {
                proof {
                    assert(legacy_opens_to(secret@, salt@, ciphertext@, s@));
                    assert forall|p: Seq<char>|
                        #[trigger] legacy_opens_to(secret@, salt@, ciphertext@, p) implies p
                        == s@ by {
                        assert(encode_utf8(p) == pt_view);
                        assert(vstd::utf8::decode_utf8(encode_utf8(p)) == p);
                    }
                }
                Some(s)
            } else {
                proof {
                    assert forall|p: Seq<char>| !legacy_opens_to(
                        secret@,
                        salt@,
                        ciphertext@,
                        p,
                    ) by {
                        if legacy_opens_to(secret@, salt@, ciphertext@, p) {
                            assert(encode_utf8(p) == pt_view);
                            assert(vstd::utf8::decode_utf8(encode_utf8(p)) == p);
                            assert(p == s@);
                        }
                    }
                }
                None
            }
        },
    }
}

/// An upper bound for the UTF-8 encoding: no character takes more than four
/// bytes.
pub proof fn lemma_encode_utf8_len(chars: Seq<char>)
    ensures
        encode_utf8(chars).len() <= 4 * chars.len(),
    decreases chars.len(),
{
    if chars.len() > 0 {
        lemma_encode_utf8_len(chars.drop_first());
    }
}

/// The shape of a freshly sealed bundle's combined ciphertext field: the
/// 12-byte nonce, then the sealing of the plaintext's UTF-8 bytes under the
/// key derived from the secret and the 16-byte salt.
pub open spec fn sealed_bundle(
    secret: Seq<u8>,
    p: Seq<char>,
    salt: Seq<u8>,
    nonce: Seq<u8>,
    combined: Seq<u8>,
) -> bool {
    &&& salt.len() == 16
    &&& nonce.len() == 12
    &&& encode_utf8(p).len() <= cipher_msg_max()
    &&& combined.len() == encode_utf8(p).len() + 28
    &&& combined.take(12) == nonce
    &&& combined.skip(12) == chacha_seal(derive_key_spec(secret, salt), nonce, encode_utf8(p))
}

/// Everything a sealing call promises of its output: the three stored text
/// fields encode a fresh salt, the combined ciphertext of the sealed shape,
/// and the integrity fingerprint, and the display suffix is the plaintext's.
pub open spec fn protect_post(secret: Seq<u8>, p: Seq<char>, r: ProtectedApiKey) -> bool {
    &&& exists|salt: Seq<u8>, nonce: Seq<u8>, combined: Seq<u8>|
        {
            &&& #[trigger] sealed_bundle(secret, p, salt, nonce, combined)
            &&& r.salt_b64@ == base64_of(salt)
            &&& r.ciphertext_b64@ == base64_of(combined)
            &&& r.hash_b64@ == base64_of(fingerprint_spec(secret, salt, encode_utf8(p)))
        }
    &&& (r.key_suffix is Some <==> p.len() > 0)
    &&& (r.key_suffix matches Some(s) ==> Some(s@) == suffix_spec(p))
}

/// Seals a credential under the context's root secret: fresh salt and nonce,
/// authenticated encryption of the text, an integrity fingerprint, and the
/// display suffix, all ready for storage. The length bound keeps the UTF-8
/// bytes far below the cipher's message limit; a character count is something
/// any caller can check, with str_to_chars or a byte-length bound.
pub fn protect_api_key(ctx: &CryptoContext, key: &str) -> (r: ProtectedApiKey)
    requires
        key@.len() <= 0x0fff_ffff,
    ensures
        protect_post(ctx.secret@, key@, r),
{
    let secret = ctx.secret.as_slice();
    let salt = os_random_bytes(16);
    let encryption_key = derive_encryption_key(secret, salt.as_slice());
    let nonce = os_random_bytes(12);
    let key_bytes = key.as_bytes();
    proof {
        lemma_encode_utf8_len(key@);
    }
    let ciphertext = aead_encrypt(encryption_key.as_slice(), nonce.as_slice(), key_bytes);
    let mut combined: Vec<u8> = Vec::new();
    push_all(&mut combined, nonce.as_slice());
    push_all(&mut combined, ciphertext.as_slice());
    let hash = hash_key(secret, salt.as_slice(), key_bytes);
    let r = ProtectedApiKey {
        salt_b64: base64_encode(salt.as_slice()),
        hash_b64: base64_encode(hash.as_slice()),
        ciphertext_b64: base64_encode(combined.as_slice()),
        key_suffix: compute_key_suffix(key),
    };
    proof {
        assert(combined@.take(12) =~= nonce@);
        assert(combined@.skip(12) =~= ciphertext@);
        assert(sealed_bundle(ctx.secret@, key@, salt@, nonce@, combined@));
    }
    r
}

/// A stored text field is base64 text: the canonical encoding of some bytes.
pub open spec fn is_base64_text(s: Seq<char>) -> bool {
    exists|b: Seq<u8>| s == base64_of(b)
}

/// Everything an opening call promises of its result, for the decoded salt
/// and ciphertext: whatever some path of the fallback chain yields is
/// returned exactly; a success is always such a yield; and any other failure
/// is the final decryption-failure error.
pub open spec fn reveal_post(
    secret: Seq<u8>,
    salt: Seq<u8>,
    ciphertext: Seq<u8>,
    res: Result<String, CryptoError>,
) -> bool {
    &&& forall|p: Seq<char>|
        #[trigger] bundle_opens_to(secret, salt, ciphertext, p) ==> (res matches Ok(k) && k@
            == p)
    &&& (res matches Ok(k) ==> bundle_opens_to(secret, salt, ciphertext, k@))
    &&& (res matches Err(e) ==> (e matches CryptoError::DecryptionFailed(_) && !bundle_openable(
        secret,
        salt,
        ciphertext,
    )))
}

/// Opens a stored bundle, trying the authenticated path, the legacy keystream
/// path under the active secret, and the legacy path under the historical
/// default secret, strictly in that order.
pub fn reveal_api_key(ctx: &CryptoContext, salt_b64: &str, ciphertext_b64: &str) -> (r: Result<
    String,
    CryptoError,
>)
    ensures
        (r matches Err(e) && e matches CryptoError::Base64(_)) <==> !(is_base64_text(salt_b64@)
            && is_base64_text(ciphertext_b64@)),
        forall|salt: Seq<u8>, ct: Seq<u8>|
            #![trigger base64_of(salt), base64_of(ct)]
            (salt_b64@ == base64_of(salt) && ciphertext_b64@ == base64_of(ct)) ==> reveal_post(
                ctx.secret@,
                salt,
                ct,
                r,
            ),
{
    let salt = match base64_decode(salt_b64) {
        Ok(v) => v,
        Err(m) => {
            return Err(CryptoError::Base64(m));
        },
    };
    let ct = match base64_decode(ciphertext_b64) {
        Ok(v) => v,
        Err(m) => {
            return Err(CryptoError::Base64(m));
        },
    };
    let ghost dsalt = salt@;
    let ghost dct = ct@;
    if let Some(key) = try_aead_decrypt(ctx.secret.as_slice(), salt.as_slice(), ct.as_slice()) {
        proof {
            lemma_reveal_post_unique(ctx.secret@, dsalt, dct, key@);
        }
        return Ok(key);
    }
    if let Some(key) = try_legacy_xor_decrypt(
        ctx.secret.as_slice(),
        salt.as_slice(),
        ct.as_slice(),
    ) {
        proof {
            lemma_reveal_post_unique(ctx.secret@, dsalt, dct, key@);
        }
        return Ok(key);
    }
    let default_secret = legacy_default_secret_bytes();
    if !bytes_equal(ctx.secret.as_slice(), default_secret.as_slice()) {
        if let Some(key) = try_legacy_xor_decrypt(
            default_secret.as_slice(),
            salt.as_slice(),
            ct.as_slice(),
        ) {
            proof {
                lemma_reveal_post_unique(ctx.secret@, dsalt, dct, key@);
            }
            return Ok(key);
        }
    }
    proof {
        assert forall|p: Seq<char>| !bundle_opens_to(ctx.secret@, dsalt, dct, p) by {}
    }
    Err(
        CryptoError::DecryptionFailed(
            "unable to decrypt API key with any available method".to_owned(),
        ),
    )
}

/// The text written to a fresh secret file: the base64 encoding of the raw
/// secret bytes, drawn entirely from the base64 alphabet.
pub fn encode_secret_file_contents(secret: &[u8]) -> (r: String)
    ensures
        r@ == base64_of(secret@),
        forall|i: int| 0 <= i < r@.len() ==> is_base64_char(#[trigger] r@[i]),
{
    base64_encode(secret)
}

/// Reads raw secret bytes back out of secret-file text: surrounding
/// whitespace is ignored, and the rest must be the base64 encoding of the
/// secret.
pub fn parse_secret_file_contents(contents: &str) -> (r: Result<Vec<u8>, CryptoError>)
    ensures
        r matches Ok(d) ==> trim_spec(contents@) == base64_of(d@),
        r matches Ok(d) ==> forall|b: Seq<u8>| trim_spec(contents@) == base64_of(b) ==> d@ == b,
        r is Ok <==> is_base64_text(trim_spec(contents@)),
        r matches Err(e) ==> e matches CryptoError::Base64(_),
{
    let chars = str_to_chars(contents);
    let trimmed = trim_chars(chars.as_slice());
    let trimmed_text = chars_to_string(trimmed.as_slice());
    match base64_decode(trimmed_text.as_str()) {
        Ok(d) => Ok(d),
        Err(m) => Err(CryptoError::Base64(m)),
    }
}

/// Whichever path produced a success, no other reading of the same bundle can
/// disagree with it; used to discharge the exactness half of reveal_post.
proof fn lemma_reveal_post_unique(secret: Seq<u8>, salt: Seq<u8>, ct: Seq<u8>, k: Seq<char>)
    requires
        bundle_opens_to(secret, salt, ct, k),
        forall|p: Seq<char>| #[trigger] aead_opens_to(secret, salt, ct, p) ==> p == k,
        !aead_openable(secret, salt, ct) ==> forall|p: Seq<char>|
            #[trigger] legacy_opens_to(secret, salt, ct, p) ==> p == k,
        (!aead_openable(secret, salt, ct) && !legacy_openable(secret, salt, ct) && secret
            != legacy_default_secret()) ==> forall|p: Seq<char>|
            #[trigger] legacy_opens_to(legacy_default_secret(), salt, ct, p) ==> p == k,
    ensures
        forall|p: Seq<char>| #[trigger] bundle_opens_to(secret, salt, ct, p) ==> p == k,
{
}

} // verus!

use vstd::prelude::*;
use crate::bytes_util::push_all;
use sha2::{Digest, Sha256};

verus! {

/// The SHA-256 digest of a byte string, named so that contracts can speak of
/// it; the digest itself is computed by the sha2 crate.
pub uninterp spec fn sha256_of(data: Seq<u8>) -> Seq<u8>;

/// Relies on sha2::Sha256 through the one-shot Digest::digest: the 32-byte
/// SHA-256 digest of the input, a function of the input bytes alone.
#[verifier::external_body]
pub(crate) fn sha256(data: &[u8]) -> (r: Vec<u8>)
    ensures
        r@ == sha256_of(data@),
        r@.len() == 32,
{
    Sha256::digest(data).to_vec()
}

/// Domain-separation tag mixed into every derived encryption key, so this
/// derivation can never collide with another use of the same secret.
pub open spec fn aead_key_domain() -> Seq<u8> {
    seq![
        0x6fu8, 0x73, 0x76, 0x6f, 0x69, 0x63, 0x65, 0x2d, 0x61, 0x65, 0x61, 0x64, 0x2d, 0x6b,
        0x65, 0x79, 0x2d, 0x76, 0x32,
    ]
}

fn aead_key_domain_bytes() -> (r: Vec<u8>)
    ensures
        r@ == aead_key_domain(),
{
    let mut v: Vec<u8> = Vec::new();
    v.push(0x6f);
    v.push(0x73);
    v.push(0x76);
    v.push(0x6f);
    v.push(0x69);
    v.push(0x63);
    v.push(0x65);
    v.push(0x2d);
    v.push(0x61);
    v.push(0x65);
    v.push(0x61);
    v.push(0x64);
    v.push(0x2d);
    v.push(0x6b);
    v.push(0x65);
    v.push(0x79);
    v.push(0x2d);
    v.push(0x76);
    v.push(0x32);
    proof {
        assert(v@ =~= aead_key_domain());
    }
    v
}

/// The 256-bit key derived from a root secret and a per-record salt:
/// SHA-256 over the domain tag, the secret and the salt, in that order.
pub open spec fn derive_key_spec(secret: Seq<u8>, salt: Seq<u8>) -> Seq<u8> {
    sha256_of(aead_key_domain() + secret + salt)
}

/// Derives the per-record encryption key. Deterministic: identical inputs
/// always yield the identical 32-byte key.
pub fn derive_encryption_key(secret: &[u8], salt: &[u8]) -> (r: Vec<u8>)
    ensures
        r@ == derive_key_spec(secret@, salt@),
        r@.len() == 32,
{
    let mut buf = aead_key_domain_bytes();
    push_all(&mut buf, secret);
    push_all(&mut buf, salt);
    proof {
        assert(buf@ =~= aead_key_domain() + secret@ + salt@);
    }
    sha256(buf.as_slice())
}

/// The integrity fingerprint stored beside a sealed credential:
/// SHA-256 over the secret, the salt and the plaintext bytes, in that order.
pub open spec fn fingerprint_spec(secret: Seq<u8>, salt: Seq<u8>, key_bytes: Seq<u8>) -> Seq<u8> {
    sha256_of(secret + salt + key_bytes)
}

pub(crate) fn hash_key(secret: &[u8], salt: &[u8], key: &[u8]) -> (r: Vec<u8>)
    ensures
        r@ == fingerprint_spec(secret@, salt@, key@),
        r@.len() == 32,
{
    let mut buf: Vec<u8> = Vec::new();
    push_all(&mut buf, secret);
    push_all(&mut buf, salt);
    push_all(&mut buf, key);
    proof {
        assert(buf@ =~= secret@ + salt@ + key@);
    }
    sha256(buf.as_slice())
}

} // verus!

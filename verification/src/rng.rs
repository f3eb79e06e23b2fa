use vstd::prelude::*;
use rand::RngCore;

verus! {

/// Relies on rand::rngs::OsRng::fill_bytes: fills the buffer with bytes drawn
/// from the operating system's randomness source. Nothing is assumed of the
/// values themselves, only that the requested number of bytes comes back.
#[verifier::external_body]
pub(crate) fn os_random_bytes(len: usize) -> (r: Vec<u8>)
    ensures
        r@.len() == len,
{
    let mut bytes = vec![0u8; len];
    rand::rngs::OsRng.fill_bytes(&mut bytes);
    bytes
}

/// A fresh 32-byte root secret, for first-run secret-file creation and for the
/// ephemeral in-memory fallback.
pub fn fresh_root_secret() -> (r: Vec<u8>)
    ensures
        r@.len() == 32,
{
    os_random_bytes(32)
}

} // verus!

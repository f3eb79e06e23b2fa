pub mod aead_seal;
pub mod bytes_util;
pub mod crypto;
pub mod domain;
pub mod encoding;
pub mod hashing;
pub mod laws;
pub mod legacy;
pub mod naming;
pub mod rng;
pub mod strings_util;

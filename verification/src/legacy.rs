use vstd::prelude::*;
use crate::bytes_util::{push_all, u32_be_bytes, u32_be_bytes_spec};
use crate::hashing::{sha256, sha256_of};

verus! {

/// One 32-byte block of the deprecated keystream: SHA-256 over the secret,
/// the salt and the big-endian block counter.
pub open spec fn keystream_block(secret: Seq<u8>, salt: Seq<u8>, counter: u32) -> Seq<u8> {
    sha256_of(secret + salt + u32_be_bytes_spec(counter))
}

/// Byte `i` of the deprecated keystream. The counter wraps around after
/// 2^32 blocks, exactly as the block loop's 32-bit counter does.
pub open spec fn keystream_byte(secret: Seq<u8>, salt: Seq<u8>, i: int) -> u8 {
    keystream_block(secret, salt, ((i / 32) % 0x1_0000_0000) as u32)[i % 32]
}

/// XOR of a byte string against the deprecated keystream, the whole of the
/// legacy sealing and opening transform (XOR is its own inverse).
pub open spec fn legacy_xor_spec(secret: Seq<u8>, salt: Seq<u8>, data: Seq<u8>) -> Seq<u8> {
    Seq::new(data.len(), |i: int| data[i] ^ keystream_byte(secret, salt, i))
}

fn derive_keystream_legacy(secret: &[u8], salt: &[u8], length: usize) -> (r: Vec<u8>)
    ensures
        r@.len() == length,
        forall|i: int| 0 <= i < length ==> r@[i] == keystream_byte(secret@, salt@, i),
{
    let mut keystream: Vec<u8> = Vec::new();
    let mut counter: u32 = 0;
    let ghost mut nblocks: int = 0;
    while keystream.len() < length
        invariant
            nblocks >= 0,
            keystream@.len() == 32 * nblocks,
            counter == nblocks % 0x1_0000_0000,
            forall|i: int|
                0 <= i < keystream@.len() ==> keystream@[i] == keystream_byte(
                    secret@,
                    salt@,
                    i,
                ),
        decreases length + 32 - keystream.len(),
    {
        let counter_bytes = u32_be_bytes(counter);
        let mut block_input: Vec<u8> = Vec::new();
        push_all(&mut block_input, secret);
        push_all(&mut block_input, salt);
        push_all(&mut block_input, counter_bytes.as_slice());
        proof {
            assert(block_input@ =~= secret@ + salt@ + u32_be_bytes_spec(counter));
        }
        let block = sha256(block_input.as_slice());
        push_all(&mut keystream, block.as_slice());
        proof {
            assert forall|i: int| 32 * nblocks <= i < 32 * nblocks + 32 implies keystream@[i]
                == keystream_byte(secret@, salt@, i) by {
                vstd::arithmetic::div_mod::lemma_fundamental_div_mod_converse_div(
                    i,
                    32,
                    nblocks,
                    i - 32 * nblocks,
                );
                vstd::arithmetic::div_mod::lemma_fundamental_div_mod_converse_mod(
                    i,
                    32,
                    nblocks,
                    i - 32 * nblocks,
                );
                assert(keystream@[i] == block@[i - 32 * nblocks]);
            }
            nblocks = nblocks + 1;
        }
        let ghost old_counter = counter;
        counter = counter.wrapping_add(1);
        proof {
            lemma_mod_succ(nblocks - 1, 0x1_0000_0000);
            if old_counter == 0xffff_ffffu32 {
                assert(counter == 0);
            } else {
                assert(counter == old_counter + 1);
            }
        }
    }
    keystream.truncate(length);
    keystream
}

proof fn lemma_mod_succ(a: int, m: int)
    requires
        a >= 0,
        m > 0,
    ensures
        (a + 1) % m == if a % m == m - 1 {
            0int
        } else {
            a % m + 1
        },
{
    vstd::arithmetic::div_mod::lemma_fundamental_div_mod(a, m);
    vstd::arithmetic::div_mod::lemma_mod_bound(a, m);
    vstd::arithmetic::mul::lemma_mul_is_commutative(m, a / m);
    if a % m == m - 1 {
        assert((a / m + 1) * m == (a / m) * m + m) by (nonlinear_arith);
        assert(a + 1 == (a / m + 1) * m + 0);
        vstd::arithmetic::div_mod::lemma_fundamental_div_mod_converse_mod(
            a + 1,
            m,
            a / m + 1,
            0,
        );
    } else {
        assert(a + 1 == (a / m) * m + (a % m + 1));
        vstd::arithmetic::div_mod::lemma_fundamental_div_mod_converse_mod(
            a + 1,
            m,
            a / m,
            a % m + 1,
        );
    }
}

/// Reconstructs the deprecated keystream for `data`'s length and XORs it
/// against `data`. Applying it twice with the same secret and salt gives the
/// original bytes back.
pub fn xor_keystream_legacy(secret: &[u8], salt: &[u8], data: &[u8]) -> (r: Vec<u8>)
    ensures
        r@ == legacy_xor_spec(secret@, salt@, data@),
{
    let keystream = derive_keystream_legacy(secret, salt, data.len());
    let mut out: Vec<u8> = Vec::new();
    let mut i: usize = 0;
    while i < data.len()
        invariant
            i <= data@.len(),
            keystream@.len() == data@.len(),
            forall|j: int|
                0 <= j < keystream@.len() ==> keystream@[j] == keystream_byte(secret@, salt@, j),
            out@.len() == i,
            forall|j: int| 0 <= j < i ==> out@[j] == (data@[j] ^ keystream_byte(secret@, salt@, j)),
        decreases data@.len() - i,
    {
        out.push(data[i] ^ keystream[i]);
        i = i + 1;
    }
    proof {
        assert(out@ =~= legacy_xor_spec(secret@, salt@, data@));
    }
    out
}

} // verus!

//! HMAC over SHA-256.
use vstd::prelude::*;
use crate::hashes::sha256::{sha256, sha256_digest};

verus! {

/// The key as one block of the hash function: a key longer than a block is
/// hashed first, and zeros fill the block.
pub open spec fn key_block(key: Seq<u8>) -> Seq<u8> {
    let short = if key.len() > 64 {
        sha256_digest(key)
    } else {
        key
    };
    Seq::new(
        64,
        |i: int|
            if i < short.len() {
                short[i]
            } else {
                0u8
            },
    )
}

/// Every octet of `block` with `pad` added bit by bit.
pub open spec fn masked(block: Seq<u8>, pad: u8) -> Seq<u8> {
    Seq::new(block.len(), |i: int| block[i] ^ pad)
}

/// The code that authenticates `msg` under `key`.
pub open spec fn hmac_sha256_code(key: Seq<u8>, msg: Seq<u8>) -> Seq<u8> {
    sha256_digest(
        masked(key_block(key), 0x5cu8) + sha256_digest(masked(key_block(key), 0x36u8) + msg),
    )
}

fn masked_then(block: &Vec<u8>, pad: u8, rest: &[u8]) -> (r: Vec<u8>)
    ensures
        r@ == masked(block@, pad) + rest@,
{
    let mut out: Vec<u8> = Vec::new();
    let mut i: usize = 0;
    while i < block.len()
        invariant
            i <= block.len(),
            out.len() == i,
            forall|j: int| 0 <= j < i ==> out[j] == block[j] ^ pad,
        decreases block.len() - i,
    {
        out.push(block[i] ^ pad);
        i += 1;
    }
    let mut k: usize = 0;
    while k < rest.len()
        invariant
            k <= rest.len(),
            out.len() == block.len() + k,
            forall|j: int| 0 <= j < block.len() ==> out[j] == block[j] ^ pad,
            forall|j: int| 0 <= j < k ==> out[block.len() + j] == rest[j],
        decreases rest.len() - k,
    {
        out.push(rest[k]);
        k += 1;
    }
    proof {
        assert(out@ =~= masked(block@, pad) + rest@);
    }
    out
}

/// The code that authenticates `msg` under `key`: 32 octets.
pub fn hmac_sha256(key: &[u8], msg: &[u8]) -> (r: Vec<u8>)
    ensures
        r@ == hmac_sha256_code(key@, msg@),
        r.len() == 32,
{
    let hashed: Vec<u8>;
    let short: &[u8] = if key.len() > 64 {
        hashed = sha256(key);
        hashed.as_slice()
    } else {
        key
    };
    let mut block: Vec<u8> = Vec::new();
    let mut i: usize = 0;
    while i < 64
        invariant
            i <= 64,
            short.len() <= 64,
            block.len() == i,
            forall|j: int|
                0 <= j < i ==> block[j] == (if j < short.len() {
                    short[j]
                } else {
                    0u8
                }),
        decreases 64 - i,
    {
        if i < short.len() {
            block.push(short[i]);
        } else {
            block.push(0u8);
        }
        i += 1;
    }
    proof {
        assert(block@ =~= key_block(key@));
    }
    let inner = sha256(masked_then(&block, 0x36u8, msg).as_slice());
    sha256(masked_then(&block, 0x5cu8, inner.as_slice()).as_slice())
}

} // verus!

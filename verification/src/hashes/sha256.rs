//! SHA-256.
use vstd::prelude::*;

verus! {

/// `x` rotated right by `n` bits, `n` from 1 to 31.
pub open spec fn rotate_right(x: u32, n: u32) -> u32 {
    (x >> n) | (x << ((32 - n) as u32))
}

/// The constant of round `i`.
pub open spec fn round_constant(i: int) -> u32 {
    if i == 0 {
        0x428a2f98
    } else if i == 1 {
        0x71374491
    } else if i == 2 {
        0xb5c0fbcf
    } else if i == 3 {
        0xe9b5dba5
    } else if i == 4 {
        0x3956c25b
    } else if i == 5 {
        0x59f111f1
    } else if i == 6 {
        0x923f82a4
    } else if i == 7 {
        0xab1c5ed5
    } else if i == 8 {
        0xd807aa98
    } else if i == 9 {
        0x12835b01
    } else if i == 10 {
        0x243185be
    } else if i == 11 {
        0x550c7dc3
    } else if i == 12 {
        0x72be5d74
    } else if i == 13 {
        0x80deb1fe
    } else if i == 14 {
        0x9bdc06a7
    } else if i == 15 {
        0xc19bf174
    } else if i == 16 {
        0xe49b69c1
    } else if i == 17 {
        0xefbe4786
    } else if i == 18 {
        0x0fc19dc6
    } else if i == 19 {
        0x240ca1cc
    } else if i == 20 {
        0x2de92c6f
    } else if i == 21 {
        0x4a7484aa
    } else if i == 22 {
        0x5cb0a9dc
    } else if i == 23 {
        0x76f988da
    } else if i == 24 {
        0x983e5152
    } else if i == 25 {
        0xa831c66d
    } else if i == 26 {
        0xb00327c8
    } else if i == 27 {
        0xbf597fc7
    } else if i == 28 {
        0xc6e00bf3
    } else if i == 29 {
        0xd5a79147
    } else if i == 30 {
        0x06ca6351
    } else if i == 31 {
        0x14292967
    } else if i == 32 {
        0x27b70a85
    } else if i == 33 {
        0x2e1b2138
    } else if i == 34 {
        0x4d2c6dfc
    } else if i == 35 {
        0x53380d13
    } else if i == 36 {
        0x650a7354
    } else if i == 37 {
        0x766a0abb
    } else if i == 38 {
        0x81c2c92e
    } else if i == 39 {
        0x92722c85
    } else if i == 40 {
        0xa2bfe8a1
    } else if i == 41 {
        0xa81a664b
    } else if i == 42 {
        0xc24b8b70
    } else if i == 43 {
        0xc76c51a3
    } else if i == 44 {
        0xd192e819
    } else if i == 45 {
        0xd6990624
    } else if i == 46 {
        0xf40e3585
    } else if i == 47 {
        0x106aa070
    } else if i == 48 {
        0x19a4c116
    } else if i == 49 {
        0x1e376c08
    } else if i == 50 {
        0x2748774c
    } else if i == 51 {
        0x34b0bcb5
    } else if i == 52 {
        0x391c0cb3
    } else if i == 53 {
        0x4ed8aa4a
    } else if i == 54 {
        0x5b9cca4f
    } else if i == 55 {
        0x682e6ff3
    } else if i == 56 {
        0x748f82ee
    } else if i == 57 {
        0x78a5636f
    } else if i == 58 {
        0x84c87814
    } else if i == 59 {
        0x8cc70208
    } else if i == 60 {
        0x90befffa
    } else if i == 61 {
        0xa4506ceb
    } else if i == 62 {
        0xbef9a3f7
    } else {
        0xc67178f2
    }
}

/// Word `i` of the hash value that the computation starts from.
pub open spec fn initial_word(i: int) -> u32 {
    if i == 0 {
        0x6a09e667
    } else if i == 1 {
        0xbb67ae85
    } else if i == 2 {
        0x3c6ef372
    } else if i == 3 {
        0xa54ff53a
    } else if i == 4 {
        0x510e527f
    } else if i == 5 {
        0x9b05688c
    } else if i == 6 {
        0x1f83d9ab
    } else {
        0x5be0cd19
    }
}

/// The hash value that the computation starts from.
pub open spec fn initial_hash() -> Seq<u32> {
    Seq::new(8, |i: int| initial_word(i))
}

/// Word `i` of a block, highest octet first.
pub open spec fn word_of(block: Seq<u8>, i: int) -> u32 {
    ((block[4 * i] as u32) << 24) | ((block[4 * i + 1] as u32) << 16) | ((block[4 * i + 2] as u32)
        << 8) | (block[4 * i + 3] as u32)
}

/// The first of the two functions that extend the message schedule.
pub open spec fn small_sigma0(x: u32) -> u32 {
    rotate_right(x, 7) ^ rotate_right(x, 18) ^ (x >> 3)
}

/// The second of the two functions that extend the message schedule.
pub open spec fn small_sigma1(x: u32) -> u32 {
    rotate_right(x, 17) ^ rotate_right(x, 19) ^ (x >> 10)
}

/// The first of the two functions that mix a working variable.
pub open spec fn big_sigma0(x: u32) -> u32 {
    rotate_right(x, 2) ^ rotate_right(x, 13) ^ rotate_right(x, 22)
}

/// The second of the two functions that mix a working variable.
pub open spec fn big_sigma1(x: u32) -> u32 {
    rotate_right(x, 6) ^ rotate_right(x, 11) ^ rotate_right(x, 25)
}

/// Bit by bit, `y` where `x` is set and `z` where it is not.
pub open spec fn choose_bits(x: u32, y: u32, z: u32) -> u32 {
    (x & y) ^ (!x & z)
}

/// Bit by bit, what most of `x`, `y` and `z` have.
pub open spec fn majority(x: u32, y: u32, z: u32) -> u32 {
    (x & y) ^ (x & z) ^ (y & z)
}

/// Word `i` of the message schedule of a block.
pub open spec fn schedule(block: Seq<u8>, i: nat) -> u32
    decreases i,
{
    if i < 16 {
        word_of(block, i as int)
    } else {
        schedule(block, (i - 16) as nat).wrapping_add(
            small_sigma0(schedule(block, (i - 15) as nat)),
        ).wrapping_add(schedule(block, (i - 7) as nat)).wrapping_add(
            small_sigma1(schedule(block, (i - 2) as nat)),
        )
    }
}

/// The eight working variables after one round with constant `k` and
/// schedule word `w`.
pub open spec fn round(s: Seq<u32>, k: u32, w: u32) -> Seq<u32> {
    let t1 = s[7].wrapping_add(big_sigma1(s[4])).wrapping_add(
        choose_bits(s[4], s[5], s[6]),
    ).wrapping_add(k).wrapping_add(w);
    let t2 = big_sigma0(s[0]).wrapping_add(majority(s[0], s[1], s[2]));
    seq![t1.wrapping_add(t2), s[0], s[1], s[2], s[3].wrapping_add(t1), s[4], s[5], s[6]]
}

/// The working variables after the first `n` rounds on a block.
pub open spec fn rounds(h: Seq<u32>, block: Seq<u8>, n: nat) -> Seq<u32>
    decreases n,
{
    if n == 0 {
        h
    } else {
        round(
            rounds(h, block, (n - 1) as nat),
            round_constant(n - 1),
            schedule(block, (n - 1) as nat),
        )
    }
}

/// The hash value after a block: the working variables after 64 rounds,
/// added to the hash value before.
pub open spec fn compress(h: Seq<u32>, block: Seq<u8>) -> Seq<u32> {
    Seq::new(8, |i: int| h[i].wrapping_add(rounds(h, block, 64)[i]))
}

/// The hash value after all the whole blocks of `data`.
pub open spec fn absorb(h: Seq<u32>, data: Seq<u8>) -> Seq<u32>
    decreases data.len(),
{
    if data.len() < 64 {
        h
    } else {
        absorb(compress(h, data.subrange(0, 64)), data.subrange(64, data.len() as int))
    }
}

/// The number of zeros between the octet that ends the message and the
/// message's length.
pub open spec fn zero_count(len: nat) -> nat {
    ((119 - len % 64) % 64) as nat
}

/// The eight octets of `bits`, highest first.
pub open spec fn length_octets(bits: u64) -> Seq<u8> {
    Seq::new(8, |i: int| ((bits >> ((8 * (7 - i)) as u64)) & 0xff) as u8)
}

/// The message followed by the padding: the octet `0x80`, zeros, and the
/// length of the message in bits in eight octets.
pub open spec fn sha256_pad(msg: Seq<u8>) -> Seq<u8> {
    msg.push(0x80u8) + Seq::new(zero_count(msg.len()), |i: int| 0u8) + length_octets(
        (msg.len() as u64).wrapping_mul(8),
    )
}

/// The octets of the eight words of a hash value, highest first.
pub open spec fn hash_octets(h: Seq<u32>) -> Seq<u8> {
    Seq::new(32, |i: int| ((h[i / 4] >> ((8 * (3 - i % 4)) as u32)) & 0xff) as u8)
}

/// The SHA-256 digest of a message.
#[verifier::opaque]
pub open spec fn sha256_digest(msg: Seq<u8>) -> Seq<u8> {
    hash_octets(absorb(initial_hash(), sha256_pad(msg)))
}

fn rotr(x: u32, n: u32) -> (r: u32)
    requires
        0 < n < 32,
    ensures
        r == rotate_right(x, n),
{
    (x >> n) | (x << (32 - n))
}

fn round_constant_of(i: usize) -> (r: u32)
    requires
        i < 64,
    ensures
        r == round_constant(i as int),
{
    if i == 0 {
        0x428a2f98
    } else if i == 1 {
        0x71374491
    } else if i == 2 {
        0xb5c0fbcf
    } else if i == 3 {
        0xe9b5dba5
    } else if i == 4 {
        0x3956c25b
    } else if i == 5 {
        0x59f111f1
    } else if i == 6 {
        0x923f82a4
    } else if i == 7 {
        0xab1c5ed5
    } else if i == 8 {
        0xd807aa98
    } else if i == 9 {
        0x12835b01
    } else if i == 10 {
        0x243185be
    } else if i == 11 {
        0x550c7dc3
    } else if i == 12 {
        0x72be5d74
    } else if i == 13 {
        0x80deb1fe
    } else if i == 14 {
        0x9bdc06a7
    } else if i == 15 {
        0xc19bf174
    } else if i == 16 {
        0xe49b69c1
    } else if i == 17 {
        0xefbe4786
    } else if i == 18 {
        0x0fc19dc6
    } else if i == 19 {
        0x240ca1cc
    } else if i == 20 {
        0x2de92c6f
    } else if i == 21 {
        0x4a7484aa
    } else if i == 22 {
        0x5cb0a9dc
    } else if i == 23 {
        0x76f988da
    } else if i == 24 {
        0x983e5152
    } else if i == 25 {
        0xa831c66d
    } else if i == 26 {
        0xb00327c8
    } else if i == 27 {
        0xbf597fc7
    } else if i == 28 {
        0xc6e00bf3
    } else if i == 29 {
        0xd5a79147
    } else if i == 30 {
        0x06ca6351
    } else if i == 31 {
        0x14292967
    } else if i == 32 {
        0x27b70a85
    } else if i == 33 {
        0x2e1b2138
    } else if i == 34 {
        0x4d2c6dfc
    } else if i == 35 {
        0x53380d13
    } else if i == 36 {
        0x650a7354
    } else if i == 37 {
        0x766a0abb
    } else if i == 38 {
        0x81c2c92e
    } else if i == 39 {
        0x92722c85
    } else if i == 40 {
        0xa2bfe8a1
    } else if i == 41 {
        0xa81a664b
    } else if i == 42 {
        0xc24b8b70
    } else if i == 43 {
        0xc76c51a3
    } else if i == 44 {
        0xd192e819
    } else if i == 45 {
        0xd6990624
    } else if i == 46 {
        0xf40e3585
    } else if i == 47 {
        0x106aa070
    } else if i == 48 {
        0x19a4c116
    } else if i == 49 {
        0x1e376c08
    } else if i == 50 {
        0x2748774c
    } else if i == 51 {
        0x34b0bcb5
    } else if i == 52 {
        0x391c0cb3
    } else if i == 53 {
        0x4ed8aa4a
    } else if i == 54 {
        0x5b9cca4f
    } else if i == 55 {
        0x682e6ff3
    } else if i == 56 {
        0x748f82ee
    } else if i == 57 {
        0x78a5636f
    } else if i == 58 {
        0x84c87814
    } else if i == 59 {
        0x8cc70208
    } else if i == 60 {
        0x90befffa
    } else if i == 61 {
        0xa4506ceb
    } else if i == 62 {
        0xbef9a3f7
    } else {
        0xc67178f2
    }
}

fn initial_word_of(i: usize) -> (r: u32)
    requires
        i < 8,
    ensures
        r == initial_word(i as int),
{
    if i == 0 {
        0x6a09e667
    } else if i == 1 {
        0xbb67ae85
    } else if i == 2 {
        0x3c6ef372
    } else if i == 3 {
        0xa54ff53a
    } else if i == 4 {
        0x510e527f
    } else if i == 5 {
        0x9b05688c
    } else if i == 6 {
        0x1f83d9ab
    } else {
        0x5be0cd19
    }
}

fn build_schedule(block: &[u8]) -> (w: Vec<u32>)
    requires
        block.len() == 64,
    ensures
        w.len() == 64,
        forall|j: int| 0 <= j < 64 ==> w[j] == schedule(block@, j as nat),
{
    let mut w: Vec<u32> = Vec::new();
    let mut i: usize = 0;
    while i < 64
        invariant
            i <= 64,
            block.len() == 64,
            w.len() == i,
            forall|j: int| 0 <= j < i ==> w[j] == schedule(block@, j as nat),
        decreases 64 - i,
    {
        if i < 16 {
            let word = ((block[4 * i] as u32) << 24) | ((block[4 * i + 1] as u32) << 16) | ((
            block[4 * i + 2] as u32) << 8) | (block[4 * i + 3] as u32);
            w.push(word);
        } else {
            let x = w[i - 15];
            let y = w[i - 2];
            let s0 = rotr(x, 7) ^ rotr(x, 18) ^ (x >> 3);
            let s1 = rotr(y, 17) ^ rotr(y, 19) ^ (y >> 10);
            w.push(w[i - 16].wrapping_add(s0).wrapping_add(w[i - 7]).wrapping_add(s1));
        }
        i += 1;
    }
    w
}

fn round_step(s: &Vec<u32>, k: u32, w: u32) -> (r: Vec<u32>)
    requires
        s.len() == 8,
    ensures
        r.len() == 8,
        r@ == round(s@, k, w),
{
    let e = s[4];
    let a = s[0];
    let sigma1 = rotr(e, 6) ^ rotr(e, 11) ^ rotr(e, 25);
    let ch = (e & s[5]) ^ (!e & s[6]);
    let t1 = s[7].wrapping_add(sigma1).wrapping_add(ch).wrapping_add(k).wrapping_add(w);
    let sigma0 = rotr(a, 2) ^ rotr(a, 13) ^ rotr(a, 22);
    let maj = (a & s[1]) ^ (a & s[2]) ^ (s[1] & s[2]);
    let t2 = sigma0.wrapping_add(maj);
    let mut r: Vec<u32> = Vec::new();
    r.push(t1.wrapping_add(t2));
    r.push(s[0]);
    r.push(s[1]);
    r.push(s[2]);
    r.push(s[3].wrapping_add(t1));
    r.push(s[4]);
    r.push(s[5]);
    r.push(s[6]);
    proof {
        assert(r@ =~= round(s@, k, w));
    }
    r
}

fn copy_words(h: &Vec<u32>) -> (r: Vec<u32>)
    ensures
        r@ == h@,
{
    let mut r: Vec<u32> = Vec::new();
    let mut i: usize = 0;
    while i < h.len()
        invariant
            i <= h.len(),
            r.len() == i,
            forall|j: int| 0 <= j < i ==> r[j] == h[j],
        decreases h.len() - i,
    {
        r.push(h[i]);
        i += 1;
    }
    proof {
        assert(r@ =~= h@);
    }
    r
}

fn compress_block(h: &Vec<u32>, block: &[u8]) -> (r: Vec<u32>)
    requires
        h.len() == 8,
        block.len() == 64,
    ensures
        r.len() == 8,
        r@ == compress(h@, block@),
{
    let w = build_schedule(block);
    let mut s = copy_words(h);
    let mut i: usize = 0;
    while i < 64
        invariant
            i <= 64,
            h.len() == 8,
            s.len() == 8,
            w.len() == 64,
            forall|j: int| 0 <= j < 64 ==> w[j] == schedule(block@, j as nat),
            s@ == rounds(h@, block@, i as nat),
        decreases 64 - i,
    {
        s = round_step(&s, round_constant_of(i), w[i]);
        i += 1;
    }
    let mut r: Vec<u32> = Vec::new();
    let mut j: usize = 0;
    while j < 8
        invariant
            j <= 8,
            h.len() == 8,
            s.len() == 8,
            r.len() == j,
            forall|k: int| 0 <= k < j ==> r[k] == h[k].wrapping_add(s[k]),
        decreases 8 - j,
    {
        r.push(h[j].wrapping_add(s[j]));
        j += 1;
    }
    proof {
        assert(r@ =~= compress(h@, block@));
    }
    r
}

fn pad(msg: &[u8]) -> (r: Vec<u8>)
    ensures
        r@ == sha256_pad(msg@),
        r.len() % 64 == 0,
{
    let mut out: Vec<u8> = Vec::new();
    let mut i: usize = 0;
    while i < msg.len()
        invariant
            i <= msg.len(),
            out.len() == i,
            forall|j: int| 0 <= j < i ==> out[j] == msg[j],
        decreases msg.len() - i,
    {
        out.push(msg[i]);
        i += 1;
    }
    assert(out@ =~= msg@);
    out.push(0x80u8);
    let ghost head = out@;
    let zeros = (119 - msg.len() % 64) % 64;
    let mut z: usize = 0;
    while z < zeros
        invariant
            z <= zeros,
            out@ == head + Seq::new(z as nat, |i: int| 0u8),
        decreases zeros - z,
    {
        out.push(0u8);
        z += 1;
        assert(out@ =~= head + Seq::new(z as nat, |i: int| 0u8));
    }
    let bits = (msg.len() as u64).wrapping_mul(8);
    let ghost padded = out@;
    let mut k: usize = 0;
    while k < 8
        invariant
            k <= 8,
            out.len() == padded.len() + k,
            forall|j: int| 0 <= j < padded.len() ==> out[j] == padded[j],
            forall|j: int| 0 <= j < k ==> out[padded.len() + j] == length_octets(bits)[j],
        decreases 8 - k,
    {
        out.push(((bits >> ((8 * (7 - k)) as u64)) & 0xff) as u8);
        k += 1;
    }
    proof {
        assert(out@ =~= sha256_pad(msg@));
    }
    out
}

/// The SHA-256 digest of a message: 32 octets.
pub fn sha256(msg: &[u8]) -> (r: Vec<u8>)
    ensures
        r@ == sha256_digest(msg@),
        r.len() == 32,
{
    reveal(sha256_digest);
    let padded = pad(msg);
    let mut h: Vec<u32> = Vec::new();
    let mut n: usize = 0;
    while n < 8
        invariant
            n <= 8,
            h.len() == n,
            forall|j: int| 0 <= j < n ==> h[j] == initial_word(j),
        decreases 8 - n,
    {
        h.push(initial_word_of(n));
        n += 1;
    }
    assert(h@ =~= initial_hash());
    let mut off: usize = 0;
    assert(padded@.subrange(0, padded@.len() as int) =~= padded@);
    while off < padded.len()
        invariant
            off <= padded.len(),
            off % 64 == 0,
            padded.len() % 64 == 0,
            h.len() == 8,
            absorb(initial_hash(), padded@) == absorb(
                h@,
                padded@.subrange(off as int, padded@.len() as int),
            ),
        decreases padded.len() - off,
    {
        let block = vstd::slice::slice_subrange(padded.as_slice(), off, off + 64);
        let ghost rest = padded@.subrange(off as int, padded@.len() as int);
        proof {
            assert(rest.subrange(0, 64) =~= block@);
            assert(rest.subrange(64, rest.len() as int) =~= padded@.subrange(
                off + 64,
                padded@.len() as int,
            ));
        }
        h = compress_block(&h, block);
        off += 64;
    }
    let mut out: Vec<u8> = Vec::new();
    let mut i: usize = 0;
    while i < 32
        invariant
            i <= 32,
            h.len() == 8,
            out.len() == i,
            forall|j: int| 0 <= j < i ==> out[j] == hash_octets(h@)[j],
        decreases 32 - i,
    {
        out.push(((h[i / 4] >> ((8 * (3 - i % 4)) as u32)) & 0xff) as u8);
        i += 1;
    }
    proof {
        assert(out@ =~= hash_octets(h@));
    }
    out
}

} // verus!

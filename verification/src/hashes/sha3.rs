//! SHA3-256: the sponge over the Keccak permutation of 1600 bits, with a
//! rate of 136 octets and the padding of the SHA-3 hash functions.
use vstd::prelude::*;

verus! {

/// The number of octets absorbed between two applications of the permutation.
pub const RATE: usize = 136;

/// `x` rotated left by `n` bits, `n` below 64.
pub open spec fn rotate_left(x: u64, n: u64) -> u64 {
    if n == 0 {
        x
    } else {
        (x << n) | (x >> ((64 - n) as u64))
    }
}

/// By how many bits the lane with index `i` is rotated.
pub open spec fn rho_offset(i: int) -> u64 {
    if i == 0 {
        0
    } else if i == 1 {
        1
    } else if i == 2 {
        62
    } else if i == 3 {
        28
    } else if i == 4 {
        27
    } else if i == 5 {
        36
    } else if i == 6 {
        44
    } else if i == 7 {
        6
    } else if i == 8 {
        55
    } else if i == 9 {
        20
    } else if i == 10 {
        3
    } else if i == 11 {
        10
    } else if i == 12 {
        43
    } else if i == 13 {
        25
    } else if i == 14 {
        39
    } else if i == 15 {
        41
    } else if i == 16 {
        45
    } else if i == 17 {
        15
    } else if i == 18 {
        21
    } else if i == 19 {
        8
    } else if i == 20 {
        18
    } else if i == 21 {
        2
    } else if i == 22 {
        61
    } else if i == 23 {
        56
    } else {
        14
    }
}

/// The constant that round `r` adds to the first lane.
pub open spec fn round_constant(r: int) -> u64 {
    if r == 0 {
        0x0000000000000001
    } else if r == 1 {
        0x0000000000008082
    } else if r == 2 {
        0x800000000000808a
    } else if r == 3 {
        0x8000000080008000
    } else if r == 4 {
        0x000000000000808b
    } else if r == 5 {
        0x0000000080000001
    } else if r == 6 {
        0x8000000080008081
    } else if r == 7 {
        0x8000000000008009
    } else if r == 8 {
        0x000000000000008a
    } else if r == 9 {
        0x0000000000000088
    } else if r == 10 {
        0x0000000080008009
    } else if r == 11 {
        0x000000008000000a
    } else if r == 12 {
        0x000000008000808b
    } else if r == 13 {
        0x800000000000008b
    } else if r == 14 {
        0x8000000000008089
    } else if r == 15 {
        0x8000000000008003
    } else if r == 16 {
        0x8000000000008002
    } else if r == 17 {
        0x8000000000000080
    } else if r == 18 {
        0x000000000000800a
    } else if r == 19 {
        0x800000008000000a
    } else if r == 20 {
        0x8000000080008081
    } else if r == 21 {
        0x8000000000008080
    } else if r == 22 {
        0x0000000080000001
    } else {
        0x8000000080008008
    }
}

/// The parity of the column `x` of the state.
pub open spec fn column(a: Seq<u64>, x: int) -> u64 {
    a[x] ^ a[x + 5] ^ a[x + 10] ^ a[x + 15] ^ a[x + 20]
}

/// The first step of a round: every lane takes up the parities of the two
/// columns beside its own, the one after it rotated by a bit.
pub open spec fn theta(a: Seq<u64>) -> Seq<u64> {
    Seq::new(
        25,
        |i: int| a[i] ^ column(a, (i % 5 + 4) % 5) ^ rotate_left(column(a, (i % 5 + 1) % 5), 1),
    )
}

/// The lane that the second and third step move to the place `j`.
pub open spec fn rho_pi_source(j: int) -> int {
    (j % 5 + 3 * (j / 5)) % 5 + 5 * (j % 5)
}

/// The second and third step of a round: every lane is rotated by its own
/// offset and moved to another place.
pub open spec fn rho_pi(t: Seq<u64>) -> Seq<u64> {
    Seq::new(25, |j: int| rotate_left(t[rho_pi_source(j)], rho_offset(rho_pi_source(j))))
}

/// The fourth step of a round: every lane takes up the conjunction of the
/// complement of the next lane of its row and the one after.
pub open spec fn chi(b: Seq<u64>) -> Seq<u64> {
    Seq::new(
        25,
        |j: int| b[j] ^ (!b[(j % 5 + 1) % 5 + 5 * (j / 5)] & b[(j % 5 + 2) % 5 + 5 * (j / 5)]),
    )
}

/// The last step of a round: the round's constant is added to the first lane.
pub open spec fn iota(c: Seq<u64>, r: int) -> Seq<u64> {
    c.update(0, c[0] ^ round_constant(r))
}

/// Round `r` of the permutation.
pub open spec fn keccak_round(a: Seq<u64>, r: int) -> Seq<u64> {
    iota(chi(rho_pi(theta(a))), r)
}

/// The first `n` rounds of the permutation.
pub open spec fn keccak_rounds(a: Seq<u64>, n: nat) -> Seq<u64>
    decreases n,
{
    if n == 0 {
        a
    } else {
        keccak_round(keccak_rounds(a, (n - 1) as nat), n - 1)
    }
}

/// The permutation: 24 rounds.
pub open spec fn keccak_f(a: Seq<u64>) -> Seq<u64> {
    keccak_rounds(a, 24)
}

/// The message followed by the padding: the octet `0x06`, zeros, and the
/// octet `0x80`, up to the next multiple of the rate. Where one octet is
/// missing, it is `0x86`.
pub open spec fn sha3_pad(msg: Seq<u8>) -> Seq<u8> {
    let q = 136 - msg.len() % 136;
    if q == 1 {
        msg.push(0x86u8)
    } else {
        msg.push(0x06u8) + Seq::new((q - 2) as nat, |i: int| 0u8) + seq![0x80u8]
    }
}

/// The first `k` octets of lane `i` of a block, lowest first, as a lane.
pub open spec fn lane_prefix(block: Seq<u8>, i: int, k: nat) -> u64
    decreases k,
{
    if k == 0 {
        0
    } else {
        lane_prefix(block, i, (k - 1) as nat) | ((block[8 * i + k - 1] as u64) << ((8 * (k - 1)) as u64))
    }
}

/// The state with a block of the rate's length added to its first lanes.
pub open spec fn absorb_block(state: Seq<u64>, block: Seq<u8>) -> Seq<u64> {
    Seq::new(
        25,
        |i: int|
            if i < 17 {
                state[i] ^ lane_prefix(block, i, 8)
            } else {
                state[i]
            },
    )
}

/// The state after all the whole blocks of `data` are absorbed, the
/// permutation applied after each.
pub open spec fn absorb(state: Seq<u64>, data: Seq<u8>) -> Seq<u64>
    decreases data.len(),
{
    if data.len() < 136 {
        state
    } else {
        absorb(
            keccak_f(absorb_block(state, data.subrange(0, 136))),
            data.subrange(136, data.len() as int),
        )
    }
}

/// The first 32 octets of the state, each lane lowest octet first.
pub open spec fn squeeze(state: Seq<u64>) -> Seq<u8> {
    Seq::new(32, |i: int| ((state[i / 8] >> ((8 * (i % 8)) as u64)) & 0xff) as u8)
}

/// The SHA3-256 digest of a message.
#[verifier::opaque]
pub open spec fn sha3_256_digest(msg: Seq<u8>) -> Seq<u8> {
    squeeze(absorb(Seq::new(25, |i: int| 0u64), sha3_pad(msg)))
}

/// A digest has 32 octets.
pub proof fn lemma_digest_len(msg: Seq<u8>)
    ensures
        sha3_256_digest(msg).len() == 32,
{
    reveal(sha3_256_digest);
}

fn rotl(x: u64, n: u64) -> (r: u64)
    requires
        n < 64,
    ensures
        r == rotate_left(x, n),
{
    if n == 0 {
        x
    } else {
        (x << n) | (x >> (64 - n))
    }
}

fn rho_offset_of(i: usize) -> (r: u64)
    requires
        i < 25,
    ensures
        r == rho_offset(i as int),
        r < 64,
{
    if i == 0 {
        0
    } else if i == 1 {
        1
    } else if i == 2 {
        62
    } else if i == 3 {
        28
    } else if i == 4 {
        27
    } else if i == 5 {
        36
    } else if i == 6 {
        44
    } else if i == 7 {
        6
    } else if i == 8 {
        55
    } else if i == 9 {
        20
    } else if i == 10 {
        3
    } else if i == 11 {
        10
    } else if i == 12 {
        43
    } else if i == 13 {
        25
    } else if i == 14 {
        39
    } else if i == 15 {
        41
    } else if i == 16 {
        45
    } else if i == 17 {
        15
    } else if i == 18 {
        21
    } else if i == 19 {
        8
    } else if i == 20 {
        18
    } else if i == 21 {
        2
    } else if i == 22 {
        61
    } else if i == 23 {
        56
    } else {
        14
    }
}

fn round_constant_of(r: usize) -> (c: u64)
    requires
        r < 24,
    ensures
        c == round_constant(r as int),
{
    if r == 0 {
        0x0000000000000001
    } else if r == 1 {
        0x0000000000008082
    } else if r == 2 {
        0x800000000000808a
    } else if r == 3 {
        0x8000000080008000
    } else if r == 4 {
        0x000000000000808b
    } else if r == 5 {
        0x0000000080000001
    } else if r == 6 {
        0x8000000080008081
    } else if r == 7 {
        0x8000000000008009
    } else if r == 8 {
        0x000000000000008a
    } else if r == 9 {
        0x0000000000000088
    } else if r == 10 {
        0x0000000080008009
    } else if r == 11 {
        0x000000008000000a
    } else if r == 12 {
        0x000000008000808b
    } else if r == 13 {
        0x800000000000008b
    } else if r == 14 {
        0x8000000000008089
    } else if r == 15 {
        0x8000000000008003
    } else if r == 16 {
        0x8000000000008002
    } else if r == 17 {
        0x8000000000000080
    } else if r == 18 {
        0x000000000000800a
    } else if r == 19 {
        0x800000008000000a
    } else if r == 20 {
        0x8000000080008081
    } else if r == 21 {
        0x8000000000008080
    } else if r == 22 {
        0x0000000080000001
    } else {
        0x8000000080008008
    }
}

fn column_of(a: &Vec<u64>, x: usize) -> (r: u64)
    requires
        a.len() == 25,
        x < 5,
    ensures
        r == column(a@, x as int),
{
    a[x] ^ a[x + 5] ^ a[x + 10] ^ a[x + 15] ^ a[x + 20]
}

fn theta_step(a: &Vec<u64>) -> (r: Vec<u64>)
    requires
        a.len() == 25,
    ensures
        r@ == theta(a@),
{
    let mut out: Vec<u64> = Vec::new();
    let mut i: usize = 0;
    while i < 25
        invariant
            i <= 25,
            a.len() == 25,
            out.len() == i,
            forall|j: int| 0 <= j < i ==> out[j] == theta(a@)[j],
        decreases 25 - i,
    {
        let before = column_of(a, (i % 5 + 4) % 5);
        let after = column_of(a, (i % 5 + 1) % 5);
        out.push(a[i] ^ before ^ rotl(after, 1));
        i += 1;
    }
    proof {
        assert(out@ =~= theta(a@));
    }
    out
}

fn rho_pi_step(t: &Vec<u64>) -> (r: Vec<u64>)
    requires
        t.len() == 25,
    ensures
        r@ == rho_pi(t@),
{
    let mut out: Vec<u64> = Vec::new();
    let mut j: usize = 0;
    while j < 25
        invariant
            j <= 25,
            t.len() == 25,
            out.len() == j,
            forall|k: int| 0 <= k < j ==> out[k] == rho_pi(t@)[k],
        decreases 25 - j,
    {
        let source = (j % 5 + 3 * (j / 5)) % 5 + 5 * (j % 5);
        out.push(rotl(t[source], rho_offset_of(source)));
        j += 1;
    }
    proof {
        assert(out@ =~= rho_pi(t@));
    }
    out
}

fn chi_step(b: &Vec<u64>) -> (r: Vec<u64>)
    requires
        b.len() == 25,
    ensures
        r@ == chi(b@),
{
    let mut out: Vec<u64> = Vec::new();
    let mut j: usize = 0;
    while j < 25
        invariant
            j <= 25,
            b.len() == 25,
            out.len() == j,
            forall|k: int| 0 <= k < j ==> out[k] == chi(b@)[k],
        decreases 25 - j,
    {
        let next = b[(j % 5 + 1) % 5 + 5 * (j / 5)];
        let after = b[(j % 5 + 2) % 5 + 5 * (j / 5)];
        out.push(b[j] ^ (!next & after));
        j += 1;
    }
    proof {
        assert(out@ =~= chi(b@));
    }
    out
}

/// The Keccak permutation of a state of 25 lanes.
pub fn permute(state: Vec<u64>) -> (r: Vec<u64>)
    requires
        state.len() == 25,
    ensures
        r.len() == 25,
        r@ == keccak_f(state@),
{
    let ghost start = state@;
    let mut a = state;
    let mut round: usize = 0;
    while round < 24
        invariant
            round <= 24,
            a.len() == 25,
            a@ == keccak_rounds(start, round as nat),
        decreases 24 - round,
    {
        let t = theta_step(&a);
        let b = rho_pi_step(&t);
        let mut c = chi_step(&b);
        let first = c[0] ^ round_constant_of(round);
        c.set(0, first);
        a = c;
        round += 1;
    }
    a
}

fn lane_of(block: &[u8], i: usize) -> (r: u64)
    requires
        block.len() == 136,
        i < 17,
    ensures
        r == lane_prefix(block@, i as int, 8),
{
    let mut lane: u64 = 0;
    let mut k: usize = 0;
    while k < 8
        invariant
            k <= 8,
            block.len() == 136,
            i < 17,
            lane == lane_prefix(block@, i as int, k as nat),
        decreases 8 - k,
    {
        lane = lane | ((block[8 * i + k] as u64) << ((8 * k) as u64));
        k += 1;
    }
    lane
}

fn absorb_one(state: &Vec<u64>, block: &[u8]) -> (r: Vec<u64>)
    requires
        state.len() == 25,
        block.len() == 136,
    ensures
        r.len() == 25,
        r@ == absorb_block(state@, block@),
{
    let mut out: Vec<u64> = Vec::new();
    let mut i: usize = 0;
    while i < 25
        invariant
            i <= 25,
            state.len() == 25,
            block.len() == 136,
            out.len() == i,
            forall|j: int| 0 <= j < i ==> out[j] == absorb_block(state@, block@)[j],
        decreases 25 - i,
    {
        if i < 17 {
            out.push(state[i] ^ lane_of(block, i));
        } else {
            out.push(state[i]);
        }
        i += 1;
    }
    proof {
        assert(out@ =~= absorb_block(state@, block@));
    }
    out
}

fn pad(msg: &[u8]) -> (r: Vec<u8>)
    ensures
        r@ == sha3_pad(msg@),
        r.len() % 136 == 0,
        r.len() >= 136,
{
    let mut out: Vec<u8> = Vec::new();
    let mut i: usize = 0;
    while i < msg.len()
        invariant
            i <= msg.len(),
            out.len() == i,
            forall|j: int| 0 <= j < i ==> out[j] == msg[j],
        decreases msg.len() - i,
    {
        out.push(msg[i]);
        i += 1;
    }
    assert(out@ =~= msg@);
    let q = 136 - msg.len() % 136;
    if q == 1 {
        out.push(0x86u8);
    } else {
        out.push(0x06u8);
        let ghost head = out@;
        let mut z: usize = 0;
        while z < q - 2
            invariant
                z <= q - 2,
                out@ == head + Seq::new(z as nat, |i: int| 0u8),
            decreases q - 2 - z,
        {
            out.push(0u8);
            z += 1;
            assert(out@ =~= head + Seq::new(z as nat, |i: int| 0u8));
        }
        out.push(0x80u8);
        assert(out@ =~= sha3_pad(msg@));
    }
    out
}

/// The SHA3-256 digest of a message: 32 octets.
pub fn sha3_256(msg: &[u8]) -> (r: Vec<u8>)
    ensures
        r@ == sha3_256_digest(msg@),
        r.len() == 32,
{
    reveal(sha3_256_digest);
    let padded = pad(msg);
    let mut state: Vec<u64> = Vec::new();
    let mut n: usize = 0;
    while n < 25
        invariant
            n <= 25,
            state.len() == n,
            forall|j: int| 0 <= j < n ==> state[j] == 0u64,
        decreases 25 - n,
    {
        state.push(0u64);
        n += 1;
    }
    let ghost empty = Seq::new(25, |i: int| 0u64);
    assert(state@ =~= empty);
    let mut off: usize = 0;
    assert(padded@.subrange(0, padded@.len() as int) =~= padded@);
    while off < padded.len()
        invariant
            off <= padded.len(),
            off % 136 == 0,
            padded.len() % 136 == 0,
            state.len() == 25,
            absorb(empty, padded@) == absorb(
                state@,
                padded@.subrange(off as int, padded@.len() as int),
            ),
        decreases padded.len() - off,
    {
        let block = vstd::slice::slice_subrange(padded.as_slice(), off, off + 136);
        let ghost rest = padded@.subrange(off as int, padded@.len() as int);
        proof {
            assert(rest.subrange(0, 136) =~= block@);
            assert(rest.subrange(136, rest.len() as int) =~= padded@.subrange(
                off + 136,
                padded@.len() as int,
            ));
        }
        let mixed = absorb_one(&state, block);
        state = permute(mixed);
        off += 136;
    }
    let mut out: Vec<u8> = Vec::new();
    let mut i: usize = 0;
    while i < 32
        invariant
            i <= 32,
            state.len() == 25,
            out.len() == i,
            forall|j: int| 0 <= j < i ==> out[j] == squeeze(state@)[j],
        decreases 32 - i,
    {
        out.push(((state[i / 8] >> ((8 * (i % 8)) as u64)) & 0xff) as u8);
        i += 1;
    }
    proof {
        assert(out@ =~= squeeze(state@));
    }
    out
}

} // verus!

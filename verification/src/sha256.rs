//! SHA-256, so that data files can be identified by their digest.
use crate::text::{hex_word, push_hex_word};
use vstd::slice::slice_to_vec;
use vstd::prelude::*;

verus! {

/// The first 32 bits of the fractional parts of the cube roots of the first 64
/// primes.
pub const ROUND_CONSTANTS: [u32; 64] = [
    0x428a2f98, 0x71374491, 0xb5c0fbcf, 0xe9b5dba5,
    0x3956c25b, 0x59f111f1, 0x923f82a4, 0xab1c5ed5,
    0xd807aa98, 0x12835b01, 0x243185be, 0x550c7dc3,
    0x72be5d74, 0x80deb1fe, 0x9bdc06a7, 0xc19bf174,
    0xe49b69c1, 0xefbe4786, 0x0fc19dc6, 0x240ca1cc,
    0x2de92c6f, 0x4a7484aa, 0x5cb0a9dc, 0x76f988da,
    0x983e5152, 0xa831c66d, 0xb00327c8, 0xbf597fc7,
    0xc6e00bf3, 0xd5a79147, 0x06ca6351, 0x14292967,
    0x27b70a85, 0x2e1b2138, 0x4d2c6dfc, 0x53380d13,
    0x650a7354, 0x766a0abb, 0x81c2c92e, 0x92722c85,
    0xa2bfe8a1, 0xa81a664b, 0xc24b8b70, 0xc76c51a3,
    0xd192e819, 0xd6990624, 0xf40e3585, 0x106aa070,
    0x19a4c116, 0x1e376c08, 0x2748774c, 0x34b0bcb5,
    0x391c0cb3, 0x4ed8aa4a, 0x5b9cca4f, 0x682e6ff3,
    0x748f82ee, 0x78a5636f, 0x84c87814, 0x8cc70208,
    0x90befffa, 0xa4506ceb, 0xbef9a3f7, 0xc67178f2,
];

/// The eight working words of the hash.
#[derive(Clone, Copy, Debug, PartialEq, Eq, Structural)]
pub struct HashState {
    pub a: u32,
    pub b: u32,
    pub c: u32,
    pub d: u32,
    pub e: u32,
    pub f: u32,
    pub g: u32,
    pub h: u32,
}

/// The state before the first block: the first 32 bits of the fractional parts
/// of the square roots of the first eight primes.
pub open spec fn initial_state() -> HashState {
    HashState {
        a: 0x6a09e667,
        b: 0xbb67ae85,
        c: 0x3c6ef372,
        d: 0xa54ff53a,
        e: 0x510e527f,
        f: 0x9b05688c,
        g: 0x1f83d9ab,
        h: 0x5be0cd19,
    }
}

/// `x` rotated right by `n` bits.
pub open spec fn rotated(x: u32, n: u32) -> u32 {
    (x >> n) | (x << ((32 - n) as u32))
}

fn rotate_right(x: u32, n: u32) -> (r: u32)
    requires
        0 < n < 32,
    ensures
        r == rotated(x, n),
{
    (x >> n) | (x << (32 - n))
}

/// The big-endian word at byte `i` of `bytes`.
pub open spec fn be_word(bytes: Seq<u8>, i: int) -> u32 {
    (bytes[i] * 0x100_0000 + bytes[i + 1] * 0x1_0000 + bytes[i + 2] * 0x100 + bytes[i + 3]) as u32
}

/// Reads the big-endian word at byte `i`.
pub fn read_be_word(bytes: &[u8], i: usize) -> (word: u32)
    requires
        i + 4 <= bytes@.len(),
    ensures
        word == be_word(bytes@, i as int),
{
    bytes[i] as u32 * 0x100_0000 + bytes[i + 1] as u32 * 0x1_0000 + bytes[i + 2] as u32 * 0x100
        + bytes[i + 3] as u32
}

/// Word `t` of the message schedule of the 64-byte block at `base`.
pub open spec fn schedule(data: Seq<u8>, base: int, t: nat) -> u32
    decreases t,
{
    if t < 16 {
        be_word(data, base + 4 * t)
    } else {
        let w15 = schedule(data, base, (t - 15) as nat);
        let w2 = schedule(data, base, (t - 2) as nat);
        let s0 = rotated(w15, 7) ^ rotated(w15, 18) ^ (w15 >> 3);
        let s1 = rotated(w2, 17) ^ rotated(w2, 19) ^ (w2 >> 10);
        schedule(data, base, (t - 16) as nat).wrapping_add(s0).wrapping_add(
            schedule(data, base, (t - 7) as nat),
        ).wrapping_add(s1)
    }
}

/// One round with round constant `k` and schedule word `w`.
pub open spec fn round(s: HashState, k: u32, w: u32) -> HashState {
    let s1 = rotated(s.e, 6) ^ rotated(s.e, 11) ^ rotated(s.e, 25);
    let ch = (s.e & s.f) ^ (!s.e & s.g);
    let t1 = s.h.wrapping_add(s1).wrapping_add(ch).wrapping_add(k).wrapping_add(w);
    let s0 = rotated(s.a, 2) ^ rotated(s.a, 13) ^ rotated(s.a, 22);
    let maj = (s.a & s.b) ^ (s.a & s.c) ^ (s.b & s.c);
    let t2 = s0.wrapping_add(maj);
    HashState {
        a: t1.wrapping_add(t2),
        b: s.a,
        c: s.b,
        d: s.c,
        e: s.d.wrapping_add(t1),
        f: s.e,
        g: s.f,
        h: s.g,
    }
}

/// The working state after the first `t` rounds over the block at `base`.
pub open spec fn rounds(s: HashState, data: Seq<u8>, base: int, t: nat) -> HashState
    decreases t,
{
    if t == 0 {
        s
    } else {
        round(
            rounds(s, data, base, (t - 1) as nat),
            ROUND_CONSTANTS@[t - 1],
            schedule(data, base, (t - 1) as nat),
        )
    }
}

/// Wordwise sum.
pub open spec fn added(s: HashState, v: HashState) -> HashState {
    HashState {
        a: s.a.wrapping_add(v.a),
        b: s.b.wrapping_add(v.b),
        c: s.c.wrapping_add(v.c),
        d: s.d.wrapping_add(v.d),
        e: s.e.wrapping_add(v.e),
        f: s.f.wrapping_add(v.f),
        g: s.g.wrapping_add(v.g),
        h: s.h.wrapping_add(v.h),
    }
}

/// The state after the first `blocks` 64-byte blocks of `data`.
pub open spec fn hashed(data: Seq<u8>, blocks: nat) -> HashState
    decreases blocks,
{
    if blocks == 0 {
        initial_state()
    } else {
        let s = hashed(data, (blocks - 1) as nat);
        added(s, rounds(s, data, 64 * (blocks - 1), 64))
    }
}

/// `value` as eight big-endian bytes.
pub open spec fn be_bytes(value: u64) -> Seq<u8> {
    Seq::new(8, |i: int| (value >> ((56 - 8 * i) as u64)) as u8)
}

/// The number of zero bytes between the end marker and the length.
pub open spec fn zero_fill(len: int) -> int {
    (119 - len % 64) % 64
}

/// The message followed by the end marker, zeros up to the last eight bytes of
/// a block, and the length in bits.
pub open spec fn padded(bytes: Seq<u8>) -> Seq<u8> {
    bytes.push(0x80) + Seq::new(zero_fill(bytes.len() as int) as nat, |i: int| 0u8) + be_bytes(
        (bytes.len() * 8) as u64,
    )
}

/// The SHA-256 digest of `bytes`.
pub open spec fn sha256(bytes: Seq<u8>) -> HashState {
    hashed(padded(bytes), padded(bytes).len() / 64)
}

/// The state as 64 lower-case hexadecimal digits.
pub open spec fn hex_state(s: HashState) -> Seq<char> {
    hex_word(s.a) + hex_word(s.b) + hex_word(s.c) + hex_word(s.d) + hex_word(s.e) + hex_word(s.f)
        + hex_word(s.g) + hex_word(s.h)
}

/// The padded message.
fn pad(bytes: &[u8]) -> (data: Vec<u8>)
    requires
        bytes@.len() * 8 <= u64::MAX,
    ensures
        data@ == padded(bytes@),
{
    let mut data: Vec<u8> = slice_to_vec(bytes);
    let bit_len: u64 = (bytes.len() as u64) * 8;
    data.push(0x80);
    let ghost fill = zero_fill(bytes@.len() as int);
    let ghost mut zeros: int = 0;
    assert(data@ =~= bytes@.push(0x80) + Seq::new(0, |i: int| 0u8));
    while data.len() % 64 != 56
        invariant
            fill == zero_fill(bytes@.len() as int),
            0 <= zeros <= fill,
            data@ == bytes@.push(0x80) + Seq::new(zeros as nat, |i: int| 0u8),
        decreases fill - zeros,
    {
        data.push(0);
        proof {
            zeros = zeros + 1;
        }
        assert(data@ =~= bytes@.push(0x80) + Seq::new(zeros as nat, |i: int| 0u8));
    }
    assert(zeros == fill);
    let ghost front = data@;
    let mut i: u64 = 0;
    assert(data@ =~= front + be_bytes(bit_len).take(0));
    while i < 8
        invariant
            i <= 8,
            data@ == front + be_bytes(bit_len).take(i as int),
        decreases 8 - i,
    {
        let shift: u64 = 56 - 8 * i;
        data.push((bit_len >> shift) as u8);
        i = i + 1;
        assert(data@ =~= front + be_bytes(bit_len).take(i as int));
    }
    assert(be_bytes(bit_len).take(8) =~= be_bytes(bit_len));
    data
}

/// The message schedule of the 64-byte block at `base`.
fn expand(data: &[u8], base: usize) -> (w: Vec<u32>)
    requires
        base + 64 <= data@.len(),
    ensures
        w@.len() == 64,
        forall|t: int| 0 <= t < 64 ==> w@[t] == schedule(data@, base as int, t as nat),
{
    let mut w: Vec<u32> = Vec::new();
    let len: usize = data.len();
    let mut i: usize = 0;
    while i < 16
        invariant
            i <= 16,
            base + 64 <= len == data@.len(),
            w@.len() == i,
            forall|t: int| 0 <= t < i ==> w@[t] == schedule(data@, base as int, t as nat),
        decreases 16 - i,
    {
        w.push(read_be_word(data, base + 4 * i));
        i = i + 1;
    }
    while i < 64
        invariant
            16 <= i <= 64,
            w@.len() == i,
            forall|t: int| 0 <= t < i ==> w@[t] == schedule(data@, base as int, t as nat),
        decreases 64 - i,
    {
        let w15: u32 = w[i - 15];
        let w2: u32 = w[i - 2];
        let s0: u32 = rotate_right(w15, 7) ^ rotate_right(w15, 18) ^ (w15 >> 3);
        let s1: u32 = rotate_right(w2, 17) ^ rotate_right(w2, 19) ^ (w2 >> 10);
        let word: u32 = w[i - 16].wrapping_add(s0).wrapping_add(w[i - 7]).wrapping_add(s1);
        w.push(word);
        i = i + 1;
    }
    w
}

/// One round.
fn apply_round(s: HashState, k: u32, w: u32) -> (next: HashState)
    ensures
        next == round(s, k, w),
{
    let s1: u32 = rotate_right(s.e, 6) ^ rotate_right(s.e, 11) ^ rotate_right(s.e, 25);
    let ch: u32 = (s.e & s.f) ^ (!s.e & s.g);
    let t1: u32 = s.h.wrapping_add(s1).wrapping_add(ch).wrapping_add(k).wrapping_add(w);
    let s0: u32 = rotate_right(s.a, 2) ^ rotate_right(s.a, 13) ^ rotate_right(s.a, 22);
    let maj: u32 = (s.a & s.b) ^ (s.a & s.c) ^ (s.b & s.c);
    let t2: u32 = s0.wrapping_add(maj);
    HashState {
        a: t1.wrapping_add(t2),
        b: s.a,
        c: s.b,
        d: s.c,
        e: s.d.wrapping_add(t1),
        f: s.e,
        g: s.f,
        h: s.g,
    }
}

/// Takes the block at `base` into the state.
fn compress(s: HashState, data: &[u8], base: usize) -> (next: HashState)
    requires
        base + 64 <= data@.len(),
    ensures
        next == added(s, rounds(s, data@, base as int, 64)),
{
    let w = expand(data, base);
    let mut v: HashState = s;
    let mut t: usize = 0;
    while t < 64
        invariant
            t <= 64,
            w@.len() == 64,
            forall|j: int| 0 <= j < 64 ==> w@[j] == schedule(data@, base as int, j as nat),
            v == rounds(s, data@, base as int, t as nat),
        decreases 64 - t,
    {
        v = apply_round(v, ROUND_CONSTANTS[t], w[t]);
        t = t + 1;
    }
    HashState {
        a: s.a.wrapping_add(v.a),
        b: s.b.wrapping_add(v.b),
        c: s.c.wrapping_add(v.c),
        d: s.d.wrapping_add(v.d),
        e: s.e.wrapping_add(v.e),
        f: s.f.wrapping_add(v.f),
        g: s.g.wrapping_add(v.g),
        h: s.h.wrapping_add(v.h),
    }
}

/// The SHA-256 digest of `bytes` in lower-case hexadecimal. The length in bits
/// has to fit into 64 bits.
pub fn sha256_hex(bytes: &[u8]) -> (text: String)
    requires
        bytes@.len() * 8 <= u64::MAX,
    ensures
        text@ == hex_state(sha256(bytes@)),
{
    let data = pad(bytes);
    let mut s = HashState {
        a: 0x6a09e667,
        b: 0xbb67ae85,
        c: 0x3c6ef372,
        d: 0xa54ff53a,
        e: 0x510e527f,
        f: 0x9b05688c,
        g: 0x1f83d9ab,
        h: 0x5be0cd19,
    };
    let len: usize = data.len();
    let blocks: usize = len / 64;
    let mut i: usize = 0;
    while i < blocks
        invariant
            i <= blocks,
            len == data@.len(),
            blocks == len / 64,
            s == hashed(data@, i as nat),
        decreases blocks - i,
    {
        s = compress(s, data.as_slice(), 64 * i);
        i = i + 1;
    }
    let mut text = String::new();
    push_hex_word(&mut text, s.a);
    push_hex_word(&mut text, s.b);
    push_hex_word(&mut text, s.c);
    push_hex_word(&mut text, s.d);
    push_hex_word(&mut text, s.e);
    push_hex_word(&mut text, s.f);
    push_hex_word(&mut text, s.g);
    push_hex_word(&mut text, s.h);
    assert(text@ =~= hex_state(s));
    text
}

/// A padded message is a whole number of blocks, and starts with the message.
pub proof fn law_padding_fills_blocks(bytes: Seq<u8>)
    ensures
        padded(bytes).len() % 64 == 0,
        padded(bytes).take(bytes.len() as int) == bytes,
        padded(bytes).len() <= bytes.len() + 72,
{
    assert(padded(bytes).take(bytes.len() as int) =~= bytes);
}

} // verus!

//! CPU counterparts of the smoke kernels.
use crate::abi::wasm_u32;
use vstd::prelude::*;

verus! {

/// What a Collatz kernel reports when the next number would not fit into 32
/// bits.
pub const OVERFLOW: u32 = 0xffff_ffff;

/// The number after `n` in the Collatz sequence.
pub open spec fn collatz_next(n: nat) -> nat {
    if n % 2 == 0 {
        n / 2
    } else {
        3 * n + 1
    }
}

/// The number `k` steps after `n`.
pub open spec fn collatz_at(n: nat, k: nat) -> nat
    decreases k,
{
    if k == 0 {
        n
    } else {
        collatz_next(collatz_at(n, (k - 1) as nat))
    }
}

/// The sequence from `n` first reaches 1 (or 0) after `k` steps, and all
/// numbers on the way fit into 32 bits.
pub open spec fn collatz_stops(n: nat, k: nat) -> bool {
    &&& collatz_at(n, k) <= 1
    &&& forall|j: nat|
        j < k ==> (#[trigger] collatz_at(n, j)) > 1 && collatz_next(collatz_at(n, j)) <= u32::MAX
}

/// The number of steps from `n` to 1, or [`OVERFLOW`] when the sequence leaves
/// 32 bits first.
pub open spec fn collatz_count(n: u32) -> u32 {
    if exists|k: u32| k < OVERFLOW && #[trigger] collatz_stops(n as nat, k as nat) {
        choose|k: u32| k < OVERFLOW && #[trigger] collatz_stops(n as nat, k as nat)
    } else {
        OVERFLOW
    }
}

/// The number of steps is unique.
pub proof fn law_collatz_count(n: u32, k: u32)
    requires
        k < OVERFLOW,
    ensures
        collatz_stops(n as nat, k as nat) <==> collatz_count(n) == k,
{
    if collatz_stops(n as nat, k as nat) {
        let c = collatz_count(n);
        assert(collatz_stops(n as nat, c as nat));
        if k < c {
            assert(collatz_at(n as nat, k as nat) > 1);
        } else if c < k {
            assert(collatz_at(n as nat, c as nat) > 1);
        }
    }
}

/// Counts Collatz steps. The step counter bounds the search: a sequence that
/// used it up would be reported like one that leaves 32 bits.
pub fn collatz_iterations(n_base: u32) -> (count: u32)
    ensures
        count == collatz_count(n_base),
{
    let ghost base = n_base as nat;
    let mut n: u32 = n_base;
    let mut i: u32 = 0;
    while n > 1
        invariant
            base == n_base as nat,
            n == collatz_at(base, i as nat),
            forall|j: nat|
                j < i ==> (#[trigger] collatz_at(base, j)) > 1 && collatz_next(collatz_at(base, j))
                    <= u32::MAX,
        decreases u32::MAX - i,
    {
        if i == u32::MAX {
            assert forall|k: u32| k < OVERFLOW implies !#[trigger] collatz_stops(base, k as nat) by {
                assert(collatz_at(base, k as nat) > 1);
            }
            return OVERFLOW;
        }
        if n % 2 == 0 {
            n = n / 2;
        } else {
            if n >= 0x5555_5555 {
                assert(collatz_next(collatz_at(base, i as nat)) > u32::MAX);
                assert forall|k: u32| k < OVERFLOW implies !#[trigger] collatz_stops(
                    base,
                    k as nat,
                ) by {
                    if k <= i {
                        assert(collatz_at(base, k as nat) > 1);
                    } else {
                        assert(!(collatz_next(collatz_at(base, i as nat)) <= u32::MAX));
                    }
                }
                return OVERFLOW;
            }
            n = 3 * n + 1;
        }
        i = i + 1;
    }
    proof {
        if i < OVERFLOW {
            assert(collatz_stops(base, i as nat));
            law_collatz_count(n_base, i);
        } else {
            assert forall|k: u32| k < OVERFLOW implies !#[trigger] collatz_stops(base, k as nat) by {
                assert(collatz_at(base, k as nat) > 1);
            }
        }
    }
    i
}

/// The Collatz kernel over a whole buffer.
pub fn collatz_reference(numbers: &[u32]) -> (counts: Vec<u32>)
    ensures
        counts@ == numbers@.map_values(|n: u32| collatz_count(n)),
{
    let mut counts: Vec<u32> = Vec::new();
    let mut i: usize = 0;
    while i < numbers.len()
        invariant
            i <= numbers@.len(),
            counts@ == numbers@.take(i as int).map_values(|n: u32| collatz_count(n)),
        decreases numbers@.len() - i,
    {
        counts.push(collatz_iterations(numbers[i]));
        i = i + 1;
        assert(counts@ =~= numbers@.take(i as int).map_values(|n: u32| collatz_count(n)));
    }
    assert(numbers@.take(i as int) =~= numbers@);
    counts
}

/// Chris Wellons' lowbias32 integer hash.
pub open spec fn lowbias32_of(x: u32) -> u32 {
    let a = x ^ (x >> 16);
    let b = a.wrapping_mul(0x7feb_352d);
    let c = b ^ (b >> 15);
    let d = c.wrapping_mul(0x846c_a68b);
    d ^ (d >> 16)
}

/// Chris Wellons' lowbias32 integer hash; every step is defined modulo 2^32.
pub fn lowbias32(x: u32) -> (hash: u32)
    ensures
        hash == lowbias32_of(x),
{
    let a: u32 = x ^ (x >> 16);
    let b: u32 = a.wrapping_mul(0x7feb_352d);
    let c: u32 = b ^ (b >> 15);
    let d: u32 = c.wrapping_mul(0x846c_a68b);
    d ^ (d >> 16)
}

/// The lowbias32 kernel over a whole buffer.
pub fn lowbias32_reference(numbers: &[u32]) -> (hashes: Vec<u32>)
    ensures
        hashes@ == numbers@.map_values(|n: u32| lowbias32_of(n)),
{
    let mut hashes: Vec<u32> = Vec::new();
    let mut i: usize = 0;
    while i < numbers.len()
        invariant
            i <= numbers@.len(),
            hashes@ == numbers@.take(i as int).map_values(|n: u32| lowbias32_of(n)),
        decreases numbers@.len() - i,
    {
        hashes.push(lowbias32(numbers[i]));
        i = i + 1;
        assert(hashes@ =~= numbers@.take(i as int).map_values(|n: u32| lowbias32_of(n)));
    }
    assert(numbers@.take(i as int) =~= numbers@);
    hashes
}

/// Multiplication modulo 2^32.
proof fn lemma_wrapping_mul(x: u32, y: u32)
    ensures
        x.wrapping_mul(y) as int == (x * y) % 0x1_0000_0000,
{
}

/// Multiplying by a number with an inverse modulo 2^32 can be undone.
proof fn lemma_mul_undone(x: u32, factor: u32, inverse: u32)
    requires
        (factor * inverse) % 0x1_0000_0000 == 1,
    ensures
        x.wrapping_mul(factor).wrapping_mul(inverse) == x,
{
    lemma_wrapping_mul(x, factor);
    lemma_wrapping_mul(x.wrapping_mul(factor), inverse);
    let m = 0x1_0000_0000int;
    let product = x * factor;
    vstd::arithmetic::div_mod::lemma_mul_mod_noop_left(product, inverse as int, m);
    assert(product * inverse == x * (factor * inverse)) by (nonlinear_arith)
        requires
            product == x * factor,
    ;
    vstd::arithmetic::div_mod::lemma_mul_mod_noop_right(x as int, factor * inverse, m);
}

/// Distinct inputs have distinct hashes.
pub proof fn law_lowbias32_is_injective(x: u32, y: u32)
    requires
        lowbias32_of(x) == lowbias32_of(y),
    ensures
        x == y,
{
    let (a, p) = (x ^ (x >> 16), y ^ (y >> 16));
    let (b, q) = (a.wrapping_mul(0x7feb_352d), p.wrapping_mul(0x7feb_352d));
    let (c, r) = (b ^ (b >> 15), q ^ (q >> 15));
    let (d, s) = (c.wrapping_mul(0x846c_a68b), r.wrapping_mul(0x846c_a68b));
    assert(d == s) by (bit_vector)
        requires
            d ^ (d >> 16) == s ^ (s >> 16),
    ;
    lemma_mul_undone(c, 0x846c_a68b, 0x4302_1123);
    lemma_mul_undone(r, 0x846c_a68b, 0x4302_1123);
    assert(c == r);
    assert(b == q) by (bit_vector)
        requires
            b ^ (b >> 15) == q ^ (q >> 15),
    ;
    lemma_mul_undone(a, 0x7feb_352d, 0x1d69_e2a5);
    lemma_mul_undone(p, 0x7feb_352d, 0x1d69_e2a5);
    assert(a == p);
    assert(x == y) by (bit_vector)
        requires
            x ^ (x >> 16) == y ^ (y >> 16),
    ;
}

/// `x` as a 32-bit word in two's complement.
pub open spec fn word_of(x: i32) -> u32 {
    crate::abi::unsigned(x) as u32
}

/// The hash of a lattice point: a number of 24 bits.
pub open spec fn lattice_hash_of(x: i32, y: i32, seed: u32) -> u32 {
    let mixed = word_of(x).wrapping_mul(0x9e37_79b1).wrapping_add(
        word_of(y).wrapping_mul(0x85eb_ca6b),
    ).wrapping_add(seed.wrapping_mul(0xc2b2_ae35));
    lowbias32_of(mixed) >> 8
}

/// Hashes a lattice point to 24 bits, evenly enough for noise.
pub fn lattice_hash(x: i32, y: i32, seed: u32) -> (hash: u32)
    ensures
        hash == lattice_hash_of(x, y, seed),
        hash < 0x100_0000,
{
    let h: u32 = lowbias32(
        wasm_u32(x).wrapping_mul(0x9e37_79b1).wrapping_add(
            wasm_u32(y).wrapping_mul(0x85eb_ca6b),
        ).wrapping_add(seed.wrapping_mul(0xc2b2_ae35)),
    );
    assert(h >> 8 < 0x100_0000) by (bit_vector);
    h >> 8
}

} // verus!

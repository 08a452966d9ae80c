//! Binomial coefficients, the weights of the blur kernel.
use vstd::arithmetic::div_mod::lemma_div_multiples_vanish;
use vstd::arithmetic::mul::lemma_mul_is_commutative;
use vstd::arithmetic::power2::{lemma2_to64, lemma_pow2_strictly_increases, lemma_pow2_unfold, pow2};
use vstd::prelude::*;

verus! {

/// `C(n, k)`, by Pascal's rule.
pub open spec fn choose_count(n: nat, k: nat) -> nat
    decreases n, k,
{
    if k == 0 {
        1
    } else if n == 0 {
        0
    } else {
        choose_count((n - 1) as nat, k) + choose_count((n - 1) as nat, (k - 1) as nat)
    }
}

/// A row of binomials reads the same from both ends.
pub proof fn lemma_choose_symmetric(n: nat, k: nat)
    requires
        k <= n,
    ensures
        choose_count(n, k) == choose_count(n, (n - k) as nat),
    decreases n,
{
    if n > 0 {
        let m = (n - 1) as nat;
        if k == 0 || k == n {
            lemma_choose_full(n);
        } else {
            lemma_choose_symmetric(m, k);
            lemma_choose_symmetric(m, (k - 1) as nat);
        }
    }
}

/// A row of binomials ends in 1.
proof fn lemma_choose_full(n: nat)
    ensures
        choose_count(n, n) == 1,
    decreases n,
{
    if n > 0 {
        lemma_choose_full((n - 1) as nat);
        lemma_choose_beyond((n - 1) as nat, n);
    }
}

/// The sum of the first `m` coefficients of row `n`.
pub open spec fn row_sum(n: nat, m: nat) -> nat
    decreases m,
{
    if m == 0 {
        0
    } else {
        row_sum(n, (m - 1) as nat) + choose_count(n, (m - 1) as nat)
    }
}

/// Coefficients beyond the row vanish.
pub proof fn lemma_choose_beyond(n: nat, k: nat)
    requires
        n < k,
    ensures
        choose_count(n, k) == 0,
    decreases n,
{
    if n > 0 {
        lemma_choose_beyond((n - 1) as nat, k);
        lemma_choose_beyond((n - 1) as nat, (k - 1) as nat);
    }
}

/// `C(n, k) * (n - k) == C(n, k + 1) * (k + 1)`.
pub proof fn lemma_choose_step(n: nat, k: nat)
    requires
        k <= n,
    ensures
        choose_count(n, k) * (n - k) == choose_count(n, k + 1) * (k + 1),
    decreases n,
{
    if k == n {
        lemma_choose_beyond(n, k + 1);
        assert(choose_count(n, k) * (n - k) == 0) by (nonlinear_arith)
            requires
                n == k,
        ;
    } else {
        let m = (n - 1) as nat;
        lemma_choose_step(m, k);
        let a = choose_count(m, k) as int;
        let b = choose_count(m, k + 1) as int;
        assert(choose_count(n, k + 1) == b + a);
        if k == 0 {
            assert(choose_count(n, 0) == 1 && a == 1);
            assert(a * (n - k) == (b + a) * (k + 1)) by (nonlinear_arith)
                requires
                    a * (m - k) == b * (k + 1),
                    a == 1,
                    k == 0,
                    n == m + 1,
            ;
        } else {
            lemma_choose_step(m, (k - 1) as nat);
            let c = choose_count(m, (k - 1) as nat) as int;
            assert(choose_count(n, k) == a + c);
            assert(a * (m - k) == b * (k + 1));
            assert(c * (m - (k - 1)) == a * k);
            assert((a + c) * (n - k) == (b + a) * (k + 1)) by (nonlinear_arith)
                requires
                    a * (m - k) == b * (k + 1),
                    c * (m - (k - 1)) == a * k,
                    n == m + 1,
            ;
        }
    }
}

/// Every coefficient is at most the sum of its row.
pub proof fn lemma_choose_bound(n: nat, k: nat)
    ensures
        choose_count(n, k) <= pow2(n),
    decreases n,
{
    lemma2_to64();
    if n > 0 {
        lemma_pow2_unfold(n);
        lemma_choose_bound((n - 1) as nat, k);
        if k > 0 {
            lemma_choose_bound((n - 1) as nat, (k - 1) as nat);
        }
    }
}

/// Pascal's rule, summed.
proof fn lemma_row_sum_step(n: nat, m: nat)
    ensures
        row_sum(n + 1, m + 1) == row_sum(n, m + 1) + row_sum(n, m),
    decreases m,
{
    if m == 0 {
        assert(row_sum(n + 1, 1) == row_sum(n + 1, 0) + choose_count(n + 1, 0));
        assert(row_sum(n, 1) == row_sum(n, 0) + choose_count(n, 0));
    } else {
        lemma_row_sum_step(n, (m - 1) as nat);
    }
}

/// The coefficients of row `n` sum to `2^n`.
pub proof fn lemma_row_sum(n: nat, m: nat)
    requires
        n < m,
    ensures
        row_sum(n, m) == pow2(n),
    decreases n, m,
{
    lemma2_to64();
    if m > n + 1 {
        lemma_row_sum(n, (m - 1) as nat);
        lemma_choose_beyond(n, (m - 1) as nat);
    } else if n > 0 {
        lemma_pow2_unfold(n);
        lemma_row_sum((n - 1) as nat, m);
        lemma_row_sum((n - 1) as nat, (m - 1) as nat);
        lemma_row_sum_step((n - 1) as nat, (m - 1) as nat);
    } else {
        assert(row_sum(0, 1) == row_sum(0, 0) + choose_count(0, 0));
    }
}

/// `C(n, k)` for any `n`: below zero, `C(-m, k)` is `C(m + k - 1, k)` with the
/// sign of `(-1)^k`.
pub open spec fn choose_signed(n: int, k: nat) -> int {
    if n >= 0 {
        choose_count(n as nat, k) as int
    } else if k % 2 == 0 {
        choose_count((k - 1 - n) as nat, k) as int
    } else {
        -(choose_count((k - 1 - n) as nat, k) as int)
    }
}

/// Taking out one of `n` things in all `n` ways counts every choice of `k + 1`
/// as often as it has members.
proof fn lemma_choose_absorb(n: nat, k: nat)
    requires
        1 <= n,
        k < n,
    ensures
        choose_count(n, k + 1) * (k + 1) == choose_count((n - 1) as nat, k) * n,
{
    let m = (n - 1) as nat;
    lemma_choose_step(m, k);
    let a = choose_count(m, k) as int;
    let b = choose_count(m, k + 1) as int;
    assert(choose_count(n, k + 1) == a + b);
    assert((a + b) * (k + 1) == a * n) by (nonlinear_arith)
        requires
            a * (m - k) == b * (k + 1),
            n == m + 1,
    ;
}

/// There is always at least one choice of `k` things out of `k` or more.
proof fn lemma_choose_positive(n: nat, k: nat)
    requires
        k <= n,
    ensures
        choose_count(n, k) >= 1,
    decreases n,
{
    if k > 0 {
        lemma_choose_positive((n - 1) as nat, (k - 1) as nat);
    }
}

/// One step of the recurrence.
pub proof fn lemma_signed_step(n: int, k: nat)
    ensures
        choose_signed(n, k) * (n - k) == choose_signed(n, k + 1) * (k + 1),
        n < 0 ==> choose_signed(n, k) != 0,
        n >= 0 && k > n ==> choose_signed(n, k) == 0,
{
    if n >= 0 {
        if k <= n {
            lemma_choose_step(n as nat, k);
        } else {
            lemma_choose_beyond(n as nat, k);
            lemma_choose_beyond(n as nat, k + 1);
            assert(0 * (n - k) == 0 * (k + 1)) by (nonlinear_arith);
        }
    } else {
        let size = (k - n) as nat;
        lemma_choose_absorb(size, k);
        lemma_choose_positive((k - 1 - n) as nat, k);
        let a = choose_count((size - 1) as nat, k) as int;
        let b = choose_count(size, k + 1) as int;
        assert((k + 1) - 1 - n == size);
        assert(a * (n - k) == (-b) * (k + 1) && (-a) * (n - k) == b * (k + 1)) by (nonlinear_arith)
            requires
                b * (k + 1) == a * (k - n),
        ;
        assert(k % 2 == 0 <==> (k + 1) % 2 == 1);
    }
}

/// Every intermediate product of the recurrence fits into 32 bits.
pub open spec fn binomial_fits(n: int, k: nat) -> bool {
    forall|i: nat|
        i < k ==> i32::MIN <= #[trigger] choose_signed(n, i) * (n - i) <= i32::MAX
}

/// Short rows always fit.
pub proof fn lemma_binomial_fits(n: nat, k: nat)
    requires
        n <= 20,
    ensures
        binomial_fits(n as int, k),
{
    assert forall|i: nat| i < k implies i32::MIN <= #[trigger] choose_signed(n as int, i) * (n - i)
        <= i32::MAX by {
        let c = choose_signed(n as int, i);
        if i <= n {
            lemma_choose_bound(n, i);
            lemma2_to64();
            if n < 20 {
                lemma_pow2_strictly_increases(n, 20);
            }
            assert(0 <= c * (n - i) <= 0x10_0000 * 20) by (nonlinear_arith)
                requires
                    0 <= c <= 0x10_0000,
                    0 <= n - i <= 20,
            ;
        } else {
            lemma_choose_beyond(n, i);
            assert(c * (n - i) == 0) by (nonlinear_arith)
                requires
                    c == 0,
            ;
        }
    }
}

/// `v / d` for a multiple `v` of `d`.
fn exact_quotient(v: i32, d: i32, q: Ghost<int>) -> (quotient: i32)
    requires
        0 < d,
        v == q@ * d,
    ensures
        quotient == q@,
{
    let ghost q = q@;
    let wide: i64 = v as i64;
    let by: i64 = d as i64;
    proof {
        lemma_div_multiples_vanish(q, d as int);
        lemma_div_multiples_vanish(-q, d as int);
        lemma_mul_is_commutative(q, d as int);
        lemma_mul_is_commutative(-q, d as int);
        assert((-q) * d == -(q * d)) by (nonlinear_arith);
        assert(i32::MIN <= q <= i32::MAX) by (nonlinear_arith)
            requires
                i32::MIN <= q * d <= i32::MAX,
                d >= 1,
        ;
    }
    if wide >= 0 {
        (wide / by) as i32
    } else {
        (-((-wide) / by)) as i32
    }
}

/// `C(n, k)` by the same exact integer recurrence the blur kernel uses; 1 where
/// `k` is negative.
pub fn binomial(n: i32, k: i32) -> (c: i32)
    requires
        k <= 0 || 0 <= n <= 20 || binomial_fits(n as int, k as nat),
    ensures
        c as int == if k < 0 {
            1
        } else {
            choose_signed(n as int, k as nat)
        },
{
    let mut c: i32 = 1;
    if k <= 0 {
        assert(choose_signed(n as int, 0) == 1);
        return c;
    }
    proof {
        if 0 <= n <= 20 {
            lemma_binomial_fits(n as nat, k as nat);
        }
    }
    let mut i: i32 = 0;
    while i < k
        invariant
            0 <= i <= k,
            binomial_fits(n as int, k as nat),
            c as int == choose_signed(n as int, i as nat),
        decreases k - i,
    {
        let ghost next = choose_signed(n as int, (i + 1) as nat);
        proof {
            lemma_signed_step(n as int, i as nat);
            assert(i32::MIN <= choose_signed(n as int, i as nat) * (n - i as nat) <= i32::MAX);
            if n < 0 {
                assert(i32::MIN <= n - i) by (nonlinear_arith)
                    requires
                        i32::MIN <= c * (n - i) <= i32::MAX,
                        c != 0,
                        n < 0,
                        0 <= i,
                ;
            }
        }
        c = exact_quotient(c * (n - i), i + 1, Ghost(next));
        i = i + 1;
    }
    c
}

} // verus!

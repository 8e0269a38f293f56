//! The modulus is prime, and Fermat's little theorem for primes: the facts
//! behind the field inverse.

use vstd::prelude::*;
use vstd::arithmetic::div_mod::*;
use vstd::arithmetic::mul::*;
use vstd::arithmetic::power::*;
use crate::field::M;

verus! {

/// `p` is prime: it is greater than one and has no divisor strictly between
/// one and itself.
pub open spec fn is_prime(p: nat) -> bool {
    p > 1 && forall|d: nat| 1 < d < p ==> #[trigger] (p % d) != 0
}

/// No integer from 2 to 46341 divides 2^31 - 1 (46341^2 exceeds it).
#[verifier::rlimit(100)]
proof fn lemma_no_small_factor()
    by (bit_vector)
    ensures
        forall|d: u64, q: u64|
            2 <= d <= 46341 && q <= 2147483647 ==> #[trigger] (d * q) != 2147483647u64,
{
}

/// The modulus 2^31 - 1 is prime.
pub proof fn lemma_modulus_is_prime()
    ensures
        is_prime(M as nat),
{
    lemma_no_small_factor();
    let m: nat = M as nat;
    assert forall|d: nat| 1 < d < m implies #[trigger] (m % d) != 0 by {
        if m % d == 0 {
            let q: nat = m / d;
            lemma_fundamental_div_mod(m as int, d as int);
            assert(d * q == m);
            if d <= 46341 {
                assert((d as u64) * (q as u64) != 2147483647u64);
            } else {
                assert(q >= 2) by {
                    if q == 0 {
                        assert(d * q == 0) by (nonlinear_arith)
                            requires
                                q == 0,
                        ;
                    } else if q == 1 {
                        assert(d * q == d) by (nonlinear_arith)
                            requires
                                q == 1,
                        ;
                    }
                }
                assert(q <= 46341) by {
                    if q > 46341 {
                        assert(d * q > 46341 * 46341) by (nonlinear_arith)
                            requires
                                d > 46341,
                                q > 46341,
                        ;
                    }
                }
                assert(q * d == m) by (nonlinear_arith)
                    requires
                        d * q == m,
                ;
                assert((q as u64) * (d as u64) != 2147483647u64);
            }
        }
    }
}

/// Euclid's lemma: a prime that divides `k * b`, where `0 < k < p`, divides
/// `b`.
pub proof fn lemma_euclid(p: nat, k: nat, b: nat)
    requires
        is_prime(p),
        0 < k < p,
        (k * b) % p == 0,
    ensures
        b % p == 0,
    decreases k,
{
    if k == 1 {
        assert(k * b == b) by (nonlinear_arith)
            requires
                k == 1,
        ;
    } else {
        let r: nat = p % k;
        let q: nat = p / k;
        let t: int = (k * b) as int / p as int;
        assert(p % k != 0);
        lemma_fundamental_div_mod(p as int, k as int);
        lemma_fundamental_div_mod((k * b) as int, p as int);
        assert(r * b == p * (b - q * t)) by (nonlinear_arith)
            requires
                p == k * q + r,
                k * b == p * t,
        ;
        lemma_mod_multiples_basic(b - q * t, p as int);
        assert((b - q * t) * p == p * (b - q * t)) by (nonlinear_arith);
        lemma_mod_bound(p as int, k as int);
        lemma_euclid(p, r, b);
    }
}

/// The binomial coefficient, by Pascal's rule.
pub open spec fn binom(n: nat, k: nat) -> nat
    decreases n,
{
    if k == 0 {
        1
    } else if n == 0 {
        0
    } else {
        binom((n - 1) as nat, (k - 1) as nat) + binom((n - 1) as nat, k)
    }
}

proof fn lemma_binom_above(n: nat, k: nat)
    requires
        k > n,
    ensures
        binom(n, k) == 0,
    decreases n,
{
    if n > 0 {
        lemma_binom_above((n - 1) as nat, (k - 1) as nat);
        lemma_binom_above((n - 1) as nat, k);
    }
}

proof fn lemma_binom_diagonal(n: nat)
    ensures
        binom(n, n) == 1,
    decreases n,
{
    if n > 0 {
        lemma_binom_diagonal((n - 1) as nat);
        lemma_binom_above((n - 1) as nat, n);
    }
}

/// `k * C(n, k) == n * C(n - 1, k - 1)`.
proof fn lemma_binom_absorption(n: nat, k: nat)
    requires
        n >= 1,
        k >= 1,
    ensures
        k * binom(n, k) == n * binom((n - 1) as nat, (k - 1) as nat),
    decreases n,
{
    if n == 1 {
        if k == 1 {
            assert(binom(1, 1) == binom(0, 0) + binom(0, 1));
            assert(k * binom(n, k) == n * binom((n - 1) as nat, (k - 1) as nat)) by (nonlinear_arith)
                requires
                    k == 1,
                    n == 1,
                    binom(n, k) == 1,
                    binom((n - 1) as nat, (k - 1) as nat) == 1,
            ;
        } else {
            lemma_binom_above(1, k);
            lemma_binom_above(0, (k - 1) as nat);
            assert(k * binom(n, k) == n * binom((n - 1) as nat, (k - 1) as nat)) by (nonlinear_arith)
                requires
                    binom(n, k) == 0,
                    binom((n - 1) as nat, (k - 1) as nat) == 0,
            ;
        }
    } else if k == 1 {
        lemma_binom_one(n);
        assert(binom((n - 1) as nat, 0) == 1);
        assert(k * binom(n, k) == n * binom((n - 1) as nat, (k - 1) as nat)) by (nonlinear_arith)
            requires
                k == 1,
                binom(n, k) == n,
                binom((n - 1) as nat, (k - 1) as nat) == 1,
        ;
    } else {
        let a: nat = binom((n - 1) as nat, (k - 1) as nat);
        let c: nat = binom((n - 1) as nat, k);
        let a2: nat = binom((n - 2) as nat, (k - 2) as nat);
        let c2: nat = binom((n - 2) as nat, (k - 1) as nat);
        lemma_binom_absorption((n - 1) as nat, (k - 1) as nat);
        lemma_binom_absorption((n - 1) as nat, k);
        assert(binom(n, k) == a + c);
        assert(a == a2 + c2);
        assert(k * (a + c) == n * a) by (nonlinear_arith)
            requires
                (k - 1) * a == (n - 1) * a2,
                k * c == (n - 1) * c2,
                a == a2 + c2,
        ;
    }
}

proof fn lemma_binom_one(n: nat)
    ensures
        binom(n, 1) == n,
    decreases n,
{
    if n > 0 {
        lemma_binom_one((n - 1) as nat);
        assert(binom(n, 1) == binom((n - 1) as nat, 0) + binom((n - 1) as nat, 1));
    }
}

/// A prime divides every binomial coefficient `C(p, k)` with `0 < k < p`.
proof fn lemma_prime_divides_binom(p: nat, k: nat)
    requires
        is_prime(p),
        0 < k < p,
    ensures
        binom(p, k) % p == 0,
{
    lemma_binom_absorption(p, k);
    let c: nat = binom((p - 1) as nat, (k - 1) as nat);
    lemma_mod_multiples_basic(c as int, p as int);
    assert(c * p == p * c) by (nonlinear_arith);
    lemma_euclid(p, k, binom(p, k));
}

/// The first `k` terms of the binomial expansion of `(a + 1)^n`.
pub open spec fn binom_sum(n: nat, a: int, k: nat) -> int
    decreases k,
{
    if k == 0 {
        0
    } else {
        binom_sum(n, a, (k - 1) as nat) + binom(n, (k - 1) as nat) * pow(a, (k - 1) as nat)
    }
}

proof fn lemma_binom_sum_step(n: nat, a: int, k: nat)
    ensures
        binom_sum(n + 1, a, k + 1) == a * binom_sum(n, a, k) + binom_sum(n, a, k + 1),
    decreases k,
{
    reveal(pow);
    if k == 0 {
        lemma_pow0(a);
        assert(binom_sum(n + 1, a, 0) == 0);
        assert(binom_sum(n, a, 0) == 0);
        assert(binom(n + 1, 0) == 1);
        assert(binom(n, 0) == 1);
        assert(binom_sum(n + 1, a, 1) == binom(n + 1, 0) * pow(a, 0));
        assert(binom_sum(n, a, 1) == binom(n, 0) * pow(a, 0));
        assert(a * binom_sum(n, a, 0) == 0) by (nonlinear_arith)
            requires
                binom_sum(n, a, 0) == 0,
        ;
    } else {
        lemma_binom_sum_step(n, a, (k - 1) as nat);
        let b1: nat = binom(n, (k - 1) as nat);
        let b2: nat = binom(n, k);
        let pk: int = pow(a, k);
        let pk1: int = pow(a, (k - 1) as nat);
        assert(pk == a * pk1);
        assert(binom(n + 1, k) == b1 + b2);
        assert((b1 + b2) * pk == a * (b1 * pk1) + b2 * pk) by (nonlinear_arith)
            requires
                pk == a * pk1,
        ;
        assert(a * (binom_sum(n, a, (k - 1) as nat) + b1 * pk1) == a * binom_sum(
            n,
            a,
            (k - 1) as nat,
        ) + a * (b1 * pk1)) by (nonlinear_arith);
    }
}

/// The binomial theorem for `(a + 1)^n`.
proof fn lemma_binomial_theorem(n: nat, a: int)
    ensures
        pow(a + 1, n) == binom_sum(n, a, n + 1),
    decreases n,
{
    reveal(pow);
    if n == 0 {
        lemma_pow0(a);
        lemma_pow0(a + 1);
        assert(binom_sum(0, a, 0) == 0);
        assert(binom(0, 0) == 1);
        assert(binom_sum(0, a, 1) == binom(0, 0) * pow(a, 0));
        assert(binom_sum(0, a, 1) == 1);
    } else {
        let m: nat = (n - 1) as nat;
        lemma_binomial_theorem(m, a);
        lemma_binom_sum_step(m, a, n);
        lemma_binom_above(m, n);
        assert(binom_sum(m, a, n + 1) == binom_sum(m, a, n) + binom(m, n) * pow(a, n));
        assert(pow(a + 1, m) == binom_sum(m, a, n));
        assert(binom_sum(n, a, n + 1) == a * binom_sum(m, a, n) + binom_sum(m, a, n + 1));
        assert(binom(m, n) * pow(a, n) == 0) by (nonlinear_arith)
            requires
                binom(m, n) == 0,
        ;
        assert(pow(a + 1, n) == (a + 1) * pow(a + 1, m));
        assert((a + 1) * binom_sum(m, a, n) == a * binom_sum(m, a, n) + binom_sum(m, a, n))
            by (nonlinear_arith);
    }
}

/// Modulo a prime, all middle terms of the expansion vanish.
proof fn lemma_binom_sum_prime(p: nat, a: nat, k: nat)
    requires
        is_prime(p),
        1 <= k <= p,
    ensures
        binom_sum(p, a as int, k) % (p as int) == 1,
    decreases k,
{
    reveal(pow);
    if k == 1 {
        assert(binom_sum(p, a as int, 0) == 0);
        assert(binom_sum(p, a as int, 1) == binom(p, 0) * pow(a as int, 0));
        lemma_small_mod(1, p);
    } else {
        let j: nat = (k - 1) as nat;
        lemma_binom_sum_prime(p, a, j);
        lemma_prime_divides_binom(p, j);
        let t: int = binom(p, j) * pow(a as int, j);
        lemma_mul_mod_noop_left(binom(p, j) as int, pow(a as int, j), p as int);
        assert(((binom(p, j) as int) % (p as int)) * pow(a as int, j) == 0) by (nonlinear_arith)
            requires
                (binom(p, j) as int) % (p as int) == 0,
        ;
        lemma_small_mod(0, p);
        assert(t % (p as int) == 0);
        assert(binom_sum(p, a as int, k) == binom_sum(p, a as int, j) + t);
        lemma_add_mod_noop(binom_sum(p, a as int, j), t, p as int);
        lemma_small_mod(1, p);
    }
}

/// The freshman's dream for a prime exponent: `(a + 1)^p == a^p + 1`
/// modulo `p`.
proof fn lemma_prime_power_of_successor(p: nat, a: nat)
    requires
        is_prime(p),
    ensures
        pow((a + 1) as int, p) % (p as int) == (pow(a as int, p) + 1) % (p as int),
{
    reveal(pow);
    lemma_binomial_theorem(p, a as int);
    lemma_binom_sum_prime(p, a, p);
    lemma_binom_diagonal(p);
    assert(binom_sum(p, a as int, p + 1) == binom_sum(p, a as int, p) + binom(p, p) * pow(
        a as int,
        p,
    ));
    assert(binom(p, p) * pow(a as int, p) == pow(a as int, p)) by (nonlinear_arith)
        requires
            binom(p, p) == 1,
    ;
    lemma_add_mod_noop(binom_sum(p, a as int, p), pow(a as int, p), p as int);
    lemma_add_mod_noop(1, pow(a as int, p), p as int);
    lemma_small_mod(1, p);
}

/// Fermat's little theorem, first form: `a^p == a` modulo a prime `p`.
pub proof fn lemma_fermat_power(p: nat, a: nat)
    requires
        is_prime(p),
    ensures
        pow(a as int, p) % (p as int) == (a as int) % (p as int),
    decreases a,
{
    if a == 0 {
        lemma0_pow(p);
    } else {
        let b: nat = (a - 1) as nat;
        lemma_fermat_power(p, b);
        lemma_prime_power_of_successor(p, b);
        lemma_add_mod_noop(pow(b as int, p), 1, p as int);
        lemma_add_mod_noop(b as int, 1, p as int);
    }
}

/// Fermat's little theorem: `a^(p-1) == 1` modulo a prime `p` that does not
/// divide `a`.
pub proof fn lemma_fermat(p: nat, a: nat)
    requires
        is_prime(p),
        a % p != 0,
    ensures
        pow(a as int, (p - 1) as nat) % (p as int) == 1,
{
    let e: nat = (p - 1) as nat;
    let x: int = pow(a as int, e);
    lemma_fermat_power(p, a);
    lemma_pow_adds(a as int, e, 1);
    lemma_pow1(a as int);
    assert(pow(a as int, p) == x * a);
    if a == 0 {
        lemma_small_mod(0, p);
    }
    assert(a > 0);
    lemma_pow_positive(a as int, e);
    // p divides a * (x - 1)
    lemma_sub_mod_noop(x * a, a as int, p as int);
    assert((x * a) % (p as int) == (a as int) % (p as int));
    lemma_small_mod(0, p);
    assert(((x * a) % (p as int) - (a as int) % (p as int)) % (p as int) == 0);
    assert(x * a - a == a * (x - 1)) by (nonlinear_arith);
    assert((a * (x - 1)) % (p as int) == 0);
    lemma_mul_mod_noop_left(a as int, x - 1, p as int);
    let k: nat = a % p;
    lemma_mod_bound(a as int, p as int);
    lemma_euclid(p, k, (x - 1) as nat);
    lemma_add_mod_noop(x - 1, 1, p as int);
    lemma_small_mod(1, p);
}

} // verus!

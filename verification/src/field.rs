//! Integers modulo the Mersenne prime `M`, and additive three-way secret
//! sharing over them.

use vstd::prelude::*;
use vstd::arithmetic::div_mod::*;
use vstd::arithmetic::mul::*;
use vstd::arithmetic::power::*;
use rand::RngExt;
use crate::primality::{lemma_fermat, lemma_modulus_is_prime};

verus! {

/// The modulus, 2^31 - 1 (a Mersenne prime). It is chosen well above any
/// total demand or supply the auction handles.
pub const M: u64 = 2147483647;

/// An element of the integers modulo `M`, always held in reduced form.
#[derive(Debug, Clone, Copy, PartialEq, Eq, PartialOrd, Structural)]
pub struct Fp {
    value: u64,
}

impl Fp {
    #[verifier::type_invariant]
    spec fn reduced(self) -> bool {
        self.value < M
    }
}

impl View for Fp {
    type V = nat;

    closed spec fn view(&self) -> nat {
        self.value as nat
    }
}

/// Two elements with the same residue are the same element.
pub proof fn lemma_fp_view_injective(a: Fp, b: Fp)
    ensures
        a@ == b@ ==> a == b,
{
}

impl Fp {
    /// The residue of `value` modulo `M`.
    pub fn new(value: u64) -> (r: Fp)
        ensures
            r@ == value % M,
    {
        Fp { value: value % M }
    }

    pub fn zero() -> (r: Fp)
        ensures
            r@ == 0,
    {
        Fp::new(0)
    }

    pub fn one() -> (r: Fp)
        ensures
            r@ == 1,
    {
        Fp::new(1)
    }

    /// The reduced representative, in `[0, M)`.
    pub fn value(&self) -> (r: u64)
        ensures
            r == self@,
            r < M,
    {
        proof {
            use_type_invariant(self);
        }
        self.value
    }
}

impl core::ops::Add for Fp {
    type Output = Fp;

    fn add(self, other: Fp) -> (r: Fp)
        ensures
            r@ == (self@ + other@) % (M as nat),
    {
        proof {
            use_type_invariant(&self);
            use_type_invariant(&other);
            lemma_mod_add_multiples_vanish((self.value + other.value) as int, M as int);
        }
        let new_value: u64 = (self.value + other.value + M) % M;
        Fp::new(new_value)
    }
}

impl vstd::std_specs::ops::AddSpecImpl for Fp {
    open spec fn obeys_add_spec() -> bool {
        true
    }

    open spec fn add_req(self, rhs: Fp) -> bool {
        true
    }

    closed spec fn add_spec(self, rhs: Fp) -> Fp {
        Fp { value: ((self.value + rhs.value) % (M as int)) as u64 }
    }
}

impl core::ops::Sub for Fp {
    type Output = Fp;

    fn sub(self, other: Fp) -> (r: Fp)
        ensures
            r@ == (self@ - other@) % (M as int),
    {
        proof {
            use_type_invariant(&self);
            use_type_invariant(&other);
            lemma_mod_add_multiples_vanish(self@ - other@, M as int);
        }
        let new_value: u64 = (self.value + M - other.value) % M;
        Fp::new(new_value)
    }
}

impl vstd::std_specs::ops::SubSpecImpl for Fp {
    open spec fn obeys_sub_spec() -> bool {
        true
    }

    open spec fn sub_req(self, rhs: Fp) -> bool {
        true
    }

    closed spec fn sub_spec(self, rhs: Fp) -> Fp {
        Fp { value: ((self.value - rhs.value) % (M as int)) as u64 }
    }
}

impl core::ops::Mul for Fp {
    type Output = Fp;

    fn mul(self, other: Fp) -> (r: Fp)
        ensures
            r@ == (self@ * other@) % (M as nat),
    {
        proof {
            use_type_invariant(&self);
            use_type_invariant(&other);
            let a: u64 = self.value;
            let b: u64 = other.value;
            assert(a * b < 0x4000_0000_0000_0000) by (nonlinear_arith)
                requires
                    a < 0x8000_0000,
                    b < 0x8000_0000,
            ;
        }
        let new_value: u64 = (self.value * other.value) % M;
        Fp::new(new_value)
    }
}

impl vstd::std_specs::ops::MulSpecImpl for Fp {
    open spec fn obeys_mul_spec() -> bool {
        true
    }

    open spec fn mul_req(self, rhs: Fp) -> bool {
        true
    }

    closed spec fn mul_spec(self, rhs: Fp) -> Fp {
        Fp { value: ((self.value * rhs.value) % (M as int)) as u64 }
    }
}

/// One squaring step of exponentiation by squaring keeps the product of the
/// accumulator and the remaining power unchanged modulo `M`.
proof fn lemma_square_step(acc: int, b: int, k: nat, odd: bool)
    ensures
        ({
            let e: nat = if odd { 2 * k + 1 } else { 2 * k };
            let acc2: int = if odd { (acc * b) % (M as int) } else { acc };
            (acc2 * pow((b * b) % (M as int), k)) % (M as int) == (acc * pow(b, e)) % (M as int)
        }),
{
    let m: int = M as int;
    let p: int = pow(b * b, k);
    lemma_pow_mod_noop(b * b, k, m);
    lemma_square_is_pow2(b);
    lemma_pow_multiplies(b, 2, k);
    assert(p == pow(b, 2 * k));
    if odd {
        lemma_pow_adds(b, 2 * k, 1);
        lemma_pow1(b);
        assert(pow(b, 2 * k + 1) == p * b);
        lemma_mul_mod_noop_left(acc * b, pow((b * b) % m, k), m);
        lemma_mul_mod_noop_right(acc * b, pow((b * b) % m, k), m);
        lemma_mul_mod_noop_right(acc * b, p, m);
        assert((acc * b) * p == acc * (p * b)) by (nonlinear_arith);
    } else {
        lemma_mul_mod_noop_right(acc, pow((b * b) % m, k), m);
        lemma_mul_mod_noop_right(acc, p, m);
    }
}

impl Fp {
    /// `self` raised to `exp`, by square-and-multiply.
    pub fn pow(&self, exp: u64) -> (r: Fp)
        ensures
            r@ == pow(self@ as int, exp as nat) % (M as int),
    {
        let mut result: Fp = Fp::one();
        let mut base: Fp = *self;
        let mut e: u64 = exp;
        proof {
            lemma_pow0(self@ as int);
            lemma_small_mod(1, M as nat);
        }
        while e > 0
            invariant
                (result@ * pow(base@ as int, e as nat)) % (M as int) == pow(self@ as int, exp as nat)
                    % (M as int),
            decreases e,
        {
            let odd: bool = e & 1 == 1;
            assert((e & 1 == 1) == (e % 2 == 1)) by (bit_vector);
            assert(e >> 1 == e / 2) by (bit_vector);
            proof {
                lemma_square_step(result@ as int, base@ as int, (e / 2) as nat, odd);
            }
            if odd {
                result = result * base;
            }
            base = base * base;
            e = e >> 1;
        }
        proof {
            lemma_pow0(base@ as int);
            use_type_invariant(&result);
            lemma_small_mod(result@, M as nat);
        }
        result
    }

    /// The multiplicative inverse `self^(M-2)`, or `None` for zero.
    pub fn inverse(&self) -> (r: Option<Fp>)
        ensures
            r is None <==> self@ == 0,
            r matches Some(x) ==> x@ == pow(self@ as int, (M - 2) as nat) % (M as int),
            r matches Some(x) ==> (self@ * x@) % (M as nat) == 1,
    {
        proof {
            use_type_invariant(self);
            if self@ != 0 {
                lemma_inverse_is_inverse(self@);
            }
        }
        match self.value {
            0 => None,
            _ => Some(self.pow(M - 2)),
        }
    }
}

/// A nonzero residue times its `(M - 2)`-th power is one: the inverse is
/// an inverse (Fermat's little theorem for the prime `M`).
pub proof fn lemma_inverse_is_inverse(a: nat)
    requires
        0 < a < M,
    ensures
        (a * (pow(a as int, (M - 2) as nat) % (M as int))) % (M as int) == 1,
{
    let m: int = M as int;
    let e: nat = (M - 2) as nat;
    lemma_modulus_is_prime();
    lemma_small_mod(a, M as nat);
    lemma_fermat(M as nat, a);
    lemma_pow_adds(a as int, e, 1);
    lemma_pow1(a as int);
    lemma_mul_mod_noop_right(a as int, pow(a as int, e), m);
    assert(a * pow(a as int, e) == pow(a as int, e) * a) by (nonlinear_arith);
}

/// A share of a secret-shared value.
pub type Share = Fp;

/// The value that three shares stand for: their sum modulo `M`.
pub open spec fn share_sum(shares: [Fp; 3]) -> nat {
    (shares[0]@ + shares[1]@ + shares[2]@) % (M as nat)
}

/// A value drawn uniformly from `[low, high)` by the thread-local generator.
///
/// Calls `rand::rng().random_range(low..high)`. Claimed: the result lies in
/// the range (the crate panics on an empty range, which `requires` excludes).
/// Which value comes back is left open.
#[verifier::external_body]
pub(crate) fn random_range(low: u64, high: u64) -> (r: u64)
    requires
        low < high,
    ensures
        low <= r < high,
{
    rand::rng().random_range(low..high)
}

/// The three shares of `v` for the draws `r1`, `r2`: the draws themselves,
/// and `v - r1 - r2`, so that the three sum to `v` modulo `M`.
pub fn shares_from_draws(v: Fp, r1: u64, r2: u64) -> (shares: [Share; 3])
    requires
        r1 < M,
        r2 < M,
    ensures
        shares[0]@ == r1,
        shares[1]@ == r2,
        shares[2]@ == (v@ - r1 - r2) % (M as int),
        share_sum(shares) == v@,
{
    let s1: Fp = Fp::new(r1);
    let s2: Fp = Fp::new(r2);
    let s3: Fp = v - s1 - s2;
    proof {
        use_type_invariant(&v);
        let m: int = M as int;
        let a: int = r1 as int;
        let b: int = r2 as int;
        lemma_small_mod(r1 as nat, M as nat);
        lemma_small_mod(r2 as nat, M as nat);
        lemma_sub_mod_noop(v@ - a, b, m);
        lemma_mod_twice(v@ - a, m);
        lemma_add_mod_noop_right(a + b, v@ - a - b, m);
        lemma_small_mod(v@, M as nat);
    }
    [s1, s2, s3]
}

/// Splits `v` into three shares: two drawn uniformly from `[0, M)`, the
/// third making the three sum to `v` modulo `M` (see `shares_from_draws`).
pub fn split_into_shares(v: Fp) -> (shares: [Share; 3])
    ensures
        shares[0]@ < M,
        shares[1]@ < M,
        shares[2]@ == (v@ - shares[0]@ - shares[1]@) % (M as int),
        share_sum(shares) == v@,
{
    let r1: u64 = random_range(0, M);
    let r2: u64 = random_range(0, M);
    shares_from_draws(v, r1, r2)
}

/// The value the three shares stand for.
pub fn reconstruct(shares: &[Fp; 3]) -> (r: Fp)
    ensures
        r@ == share_sum(*shares),
{
    let r: Fp = shares[0] + shares[1] + shares[2];
    proof {
        let m: int = M as int;
        lemma_add_mod_noop((shares[0]@ + shares[1]@) as int, shares[2]@ as int, m);
        lemma_mod_twice((shares[0]@ + shares[1]@) as int, m);
    }
    r
}

/// Reconstructing the shares that a split produced gives back the value that
/// was split.
pub proof fn lemma_reconstruct_split(v: Fp, shares: [Fp; 3], r: Fp)
    requires
        share_sum(shares) == v@,
        r@ == share_sum(shares),
    ensures
        r == v,
{
}

/// Subtracting `b` after adding it gives back `a` (residues of `+` and `-`).
pub proof fn lemma_add_then_sub(a: nat, b: nat)
    requires
        a < M,
    ensures
        (((a + b) % (M as nat)) - b) % (M as int) == a,
{
    let m: int = M as int;
    lemma_sub_mod_noop((a + b) as int, b as int, m);
    lemma_sub_mod_noop_right(((a + b) % (M as nat)) as int, b as int, m);
    lemma_small_mod(a, M as nat);
}

} // verus!

use mpc_rust::field::{reconstruct, shares_from_draws, split_into_shares, Fp, M};

#[test]
fn shares_sum_to_original_value_mod_m() {
    let v = Fp::new(350u64);
    let shares = split_into_shares(v);
    let sum: Fp = shares[0] + shares[1] + shares[2];
    assert_eq!(sum, v);
}

#[test]
fn fp_addition_and_subtraction() {
    let a = Fp::new(10);
    let b = Fp::new(20);
    let c = Fp::new(M - 5);

    assert_eq!((a + b).value(), 30);
    assert_eq!((a - b).value(), (M + 10 - 20) % M);
    assert_eq!((b - a).value(), 10);
    assert_eq!((c + a).value(), (M - 5 + 10) % M);
}

#[test]
fn fp_multiplication() {
    let a = Fp::new(10);
    let b = Fp::new(20);
    assert_eq!((a * b).value(), 200);
}

#[test]
fn fp_inverse() {
    let a = Fp::new(3);
    let inv_a = a.inverse().unwrap();
    assert_eq!((a * inv_a).value(), 1);
}

#[test]
fn test_reconstruct() {
    let v = Fp::new(24);
    let shares = split_into_shares(v);
    let reconstructed = reconstruct(&shares);
    assert_eq!(v, reconstructed);
}

#[test]
fn fp_new_reduces_modulo_m() {
    assert_eq!(Fp::new(M).value(), 0);
    assert_eq!(Fp::new(M + 7).value(), 7);
    assert_eq!(Fp::new(u64::MAX).value(), u64::MAX % M);
    assert_eq!(Fp::zero().value(), 0);
    assert_eq!(Fp::one().value(), 1);
}

#[test]
fn fp_wraps_at_the_modulus() {
    let big = Fp::new(M - 1);
    assert_eq!((big + Fp::one()).value(), 0);
    assert_eq!((Fp::zero() - Fp::one()).value(), M - 1);
    assert_eq!((big * big).value(), 1);
}

#[test]
fn fp_pow_exact_values() {
    assert_eq!(Fp::new(2).pow(10).value(), 1024);
    assert_eq!(Fp::new(7).pow(0).value(), 1);
    assert_eq!(Fp::new(2).pow(31).value(), 1);
    assert_eq!(Fp::new(3).pow(5).value(), 243);
}

#[test]
fn fp_inverse_of_zero_is_none() {
    assert_eq!(Fp::zero().inverse(), None);
    assert_eq!(Fp::new(M).inverse(), None);
}

#[test]
fn fp_inverse_of_several_values() {
    for x in [1u64, 2, 12345, M - 1] {
        let a = Fp::new(x);
        assert_eq!((a * a.inverse().unwrap()).value(), 1);
    }
    assert_eq!(Fp::new(2).inverse().unwrap().value(), (M + 1) / 2);
}

#[test]
fn split_shares_are_reduced_and_reconstruct() {
    for x in [0u64, 1, 999, M - 1] {
        let v = Fp::new(x);
        let shares = split_into_shares(v);
        for s in shares.iter() {
            assert!(s.value() < M);
        }
        assert_eq!(reconstruct(&shares), v);
    }
}

#[test]
fn split_into_shares_draws_fresh_randomness() {
    let v = Fp::new(5);
    let first: Vec<u64> = (0..4).map(|_| split_into_shares(v)[0].value()).collect();
    assert!(first.iter().any(|x| *x != first[0]));
}

#[test]
fn shares_are_the_draws_and_the_rest() {
    let v = Fp::new(350u64);
    let shares = shares_from_draws(v, 5, 1000);
    assert_eq!(shares[0].value(), 5);
    assert_eq!(shares[1].value(), 1000);
    assert_eq!(shares[2].value(), M - 655);
    assert_eq!(reconstruct(&shares), v);
    let zero = shares_from_draws(Fp::new(0), 0, 0);
    assert_eq!(zero, [Fp::new(0), Fp::new(0), Fp::new(0)]);
}

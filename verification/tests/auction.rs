use mpc_rust::auction::{
    aggrigate_market, allocate, allocation_for, clear_market, clearing_price,
    set_share_for_send, set_share_from_draws, PriceQuantity, PRICES,
};
use mpc_rust::field::{Fp, M};
use mpc_rust::node::Branch;

#[test]
fn test_derive() {
    let pq1 = mpc_rust::auction::derive(120, 100, true);
    let pq1_test = PriceQuantity::new([
        Fp::new(100),
        Fp::new(100),
        Fp::new(100),
        Fp::new(100),
        Fp::new(100),
        Fp::new(100),
        Fp::zero(),
        Fp::zero(),
        Fp::zero(),
    ]);
    assert_eq!(pq1, pq1_test);

    let pq2 = mpc_rust::auction::derive(100, 100, false);
    let pq2_test = PriceQuantity::new([
        Fp::zero(),
        Fp::new(100),
        Fp::new(100),
        Fp::new(100),
        Fp::new(100),
        Fp::new(100),
        Fp::new(100),
        Fp::new(100),
        Fp::new(100),
    ]);
    assert_eq!(pq2, pq2_test);
}

#[test]
fn test_quantity() {
    let quantities = [
        Fp::new(10),
        Fp::new(10),
        Fp::new(10),
        Fp::new(10),
        Fp::new(10),
        Fp::new(10),
        Fp::new(10),
        Fp::new(10),
        Fp::new(10),
    ];
    let q1 = PriceQuantity::new(quantities);
    let q2 = PriceQuantity::from_quantities(&[10, 10, 10, 10, 10, 10, 10, 10, 10]);
    let quantity2 = q2.to_quantities();
    assert_eq!(q1, q2);
    assert_eq!(quantity2, [10, 10, 10, 10, 10, 10, 10, 10, 10]);
}

#[test]
fn test_quantities_share() {
    let quantities = [
        Fp::new(10),
        Fp::new(10),
        Fp::new(10),
        Fp::new(10),
        Fp::new(10),
        Fp::new(10),
        Fp::new(10),
        Fp::new(10),
        Fp::new(10),
    ];
    let q = PriceQuantity::new(quantities);
    let (share_1, share_2, share_3) = q.quantities_share();
    let new_q = PriceQuantity::quantities_join(&share_1, &share_2, &share_3);
    assert_eq!(q, new_q);
}

#[test]
fn test_clearing_price() {
    let dq = [
        Fp::new(100),
        Fp::new(90),
        Fp::new(80),
        Fp::new(70),
        Fp::new(60),
        Fp::new(50),
        Fp::new(40),
        Fp::new(30),
        Fp::new(20),
    ];
    let sq1 = [
        Fp::new(10),
        Fp::new(20),
        Fp::new(30),
        Fp::new(40),
        Fp::new(50),
        Fp::new(60),
        Fp::new(70),
        Fp::new(80),
        Fp::new(90),
    ];
    let sq2 = [
        Fp::new(1),
        Fp::new(2),
        Fp::new(3),
        Fp::new(4),
        Fp::new(5),
        Fp::new(6),
        Fp::new(7),
        Fp::new(8),
        Fp::new(9),
    ];
    let dpq = PriceQuantity::new(dq);
    let spq1 = PriceQuantity::new(sq1);
    let spq2 = PriceQuantity::new(sq2);
    let res1 = (120u64, 50u64);
    assert_eq!(res1, clearing_price(dpq, spq1).unwrap().clone());
    assert_eq!(None, clearing_price(dpq, spq2));
}

#[test]
fn test_allocate() {
    let (d1, total, traded) = (50, 100, 20);
    let a1 = allocate(d1, total, traded);
    assert_eq!(10u64, a1);
}

#[test]
fn allocate_rounds_down() {
    assert_eq!(allocate(400, 900, 600), 266);
    assert_eq!(allocate(500, 900, 600), 333);
    assert_eq!(allocate(0, 7, 5), 0);
}

#[test]
fn derive_reduces_quantity_modulo_m_and_respects_edges() {
    let pq = mpc_rust::auction::derive(95, M + 3, true);
    assert_eq!(pq.to_quantities(), [3, 0, 0, 0, 0, 0, 0, 0, 0]);
    let seller = mpc_rust::auction::derive(135, 7, false);
    assert_eq!(seller.to_quantities(), [0, 0, 0, 0, 0, 0, 0, 0, 7]);
    assert_eq!(mpc_rust::auction::derive(94, 7, true).to_quantities(), [0; 9]);
    assert_eq!(mpc_rust::auction::derive(136, 7, false).to_quantities(), [0; 9]);
    assert_eq!(mpc_rust::auction::derive(u64::MAX, 1, true).to_quantities(), [1; 9]);
}

#[test]
fn clearing_at_the_lowest_band_and_ties() {
    let d = PriceQuantity::from_quantities(&[5, 5, 5, 5, 5, 5, 5, 5, 5]);
    let s = PriceQuantity::from_quantities(&[5, 0, 0, 0, 0, 0, 0, 0, 0]);
    assert_eq!(clearing_price(d, s), Some((95, 5)));
    let zero = PriceQuantity::from_quantities(&[0; 9]);
    assert_eq!(clearing_price(zero, zero), Some((95, 0)));
    assert_eq!(clearing_price(zero, s), Some((95, 0)));
    assert_eq!(clearing_price(d, zero), None);
}

#[test]
fn set_share_for_send_recombines_to_the_derived_bid() {
    let (shares, branch) = set_share_for_send(110, 250, false);
    assert_eq!(branch, Branch::Seller);
    let joined = PriceQuantity::quantities_join(&shares[0], &shares[1], &shares[2]);
    assert_eq!(joined, mpc_rust::auction::derive(110, 250, false));
    let (_, branch) = set_share_for_send(110, 250, true);
    assert_eq!(branch, Branch::Buyer);
}

#[test]
fn aggrigate_market_bench_scenario() {
    assert_eq!(
        aggrigate_market(110, 120, 95, 110, 100, 200, 100, 100, 200, 200),
        Some((110, (200, 100, 0, 150, 150)))
    );
}

#[test]
fn aggrigate_market_without_clearing() {
    // Supply only at the top of the grid and below demand everywhere.
    assert_eq!(aggrigate_market(135, 135, 135, 135, 135, 10, 10, 10, 1, 1), None);
}

#[test]
fn clear_market_reports_totals_at_the_clearing_band() {
    let bids = [(110, 200, true), (120, 100, true), (95, 100, true), (110, 200, false), (100, 200, false)];
    assert_eq!(clear_market(&bids), Some((110, 300, 300, 400)));
    assert_eq!(clear_market(&[]), Some((95, 0, 0, 0)));
    assert_eq!(PRICES[3], 110);
}

#[test]
fn allocation_for_gates_on_the_clearing_price() {
    let outcome = (110, 300, 300, 400);
    assert_eq!(allocation_for(outcome, 110, 200, true), 200);
    assert_eq!(allocation_for(outcome, 95, 100, true), 0);
    assert_eq!(allocation_for(outcome, 100, 200, false), 150);
    assert_eq!(allocation_for(outcome, 120, 200, false), 0);
}

#[test]
fn clearing_does_not_depend_on_bid_order() {
    let bids = [(110, 200, true), (120, 100, true), (95, 100, true), (110, 200, false), (100, 200, false)];
    let mut reversed = bids;
    reversed.reverse();
    let mut swapped = bids;
    swapped.swap(2, 3);
    assert_eq!(clear_market(&bids), clear_market(&reversed));
    assert_eq!(clear_market(&bids), clear_market(&swapped));
}

#[test]
fn modulus_has_no_small_factor() {
    assert!((2..=46341u64).all(|d| M % d != 0));
    assert!(46341u64 * 46341 > M);
}

#[test]
fn no_trade_without_demand() {
    assert_eq!(aggrigate_market(110, 120, 95, 110, 100, 0, 0, 0, 200, 200), None);
    // Without demand the lowest band clears, with nothing traded.
    assert_eq!(clear_market(&[(110, 200, false), (100, 200, false)]), Some((95, 0, 0, 0)));
}

#[test]
fn no_trade_without_supply() {
    assert_eq!(aggrigate_market(110, 120, 95, 110, 100, 200, 100, 100, 0, 0), None);
    // Without supply the first band without demand clears, with nothing traded.
    assert_eq!(clear_market(&[(110, 200, true), (120, 100, true)]), Some((125, 0, 0, 0)));
}

#[test]
fn zero_total_at_the_clearing_band_allocates_nothing() {
    // Demand only at 95, supply from 100: the market clears at 100 with no
    // demand there, so nothing is traded.
    let bids = [(135, 0, true), (95, 10, true), (95, 0, true), (100, 5, false), (135, 0, false)];
    assert_eq!(clear_market(&bids), Some((100, 0, 0, 5)));
    assert_eq!(aggrigate_market(135, 95, 95, 100, 135, 0, 10, 0, 5, 0), None);
    assert_eq!(allocation_for((100, 0, 0, 5), 135, 0, true), 0);
    assert_eq!(allocation_for((100, 0, 0, 0), 100, 3, false), 0);
}

#[test]
fn pro_rata_allocations_stay_within_the_volume() {
    let (total, traded) = (900, 600);
    let sum: u64 = [400u64, 500].iter().map(|d| allocate(*d, total, traded)).sum();
    assert_eq!(sum, 599);
    assert!(sum <= traded);
    assert_eq!(allocate(total, total, traded), traded);
}

#[test]
fn shares_from_draws_per_band() {
    let pq = mpc_rust::auction::derive(110, 250, false);
    let draws_1: [u64; 9] = [1, 2, 3, 4, 5, 6, 7, 8, 9];
    let draws_2: [u64; 9] = [10, 20, 30, 40, 50, 60, 70, 80, M - 1];
    let (s1, s2, s3) = pq.quantities_share_from_draws(&draws_1, &draws_2);
    let values = pq.to_quantities();
    for j in 0..9 {
        assert_eq!(s1[j].value(), draws_1[j]);
        assert_eq!(s2[j].value(), draws_2[j]);
        let rest = (values[j] + 2 * M - draws_1[j] - draws_2[j]) % M;
        assert_eq!(s3[j].value(), rest);
    }
    assert_eq!(s3[0].value(), M - 11);
    assert_eq!(s3[3].value(), 250 - 44);
    assert_eq!(PriceQuantity::quantities_join(&s1, &s2, &s3), pq);

    let (shares, branch) = set_share_from_draws(110, 250, false, &draws_1, &draws_2);
    assert_eq!(branch, Branch::Seller);
    assert_eq!(shares, [s1, s2, s3]);
}

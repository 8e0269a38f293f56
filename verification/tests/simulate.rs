use mpc_rust::auction::allocate;
use mpc_rust::simulate::{play_round, round, Trader};

#[test]
fn test_trader() {
    let trader = Trader::new(true, 100, 100, 100);
    assert_eq!(trader, Trader::new(true, 100, 100, 100));
}

#[test]
fn test_simulate() {
    let threshold_b1 = 100;
    let threshold_b2 = 110;
    let threshold_b3 = 105;
    let threshold_s1 = 90;
    let threshold_s2 = 100;

    let quantity_b1 = 100;
    let quantity_b2 = 200;
    let quantity_b3 = 300;
    let quantity_s1 = 400;
    let quantity_s2 = 500;

    let trader_b1 = Trader::new(true, 100, threshold_b1, 100);
    let trader_b2 = Trader::new(true, 110, threshold_b2, 200);
    let trader_b3 = Trader::new(true, 105, threshold_b3, 300);
    let trader_s1 = Trader::new(false, 90, threshold_s1, 400);
    let trader_s2 = Trader::new(false, 100, threshold_s2, 500);

    let traders = Vec::from([trader_b1, trader_b2, trader_b3, trader_s1, trader_s2]);

    let (price, quantity, total_demmand, total_supply) = round(&traders).unwrap();

    let b1_trade = if price <= threshold_b1 { allocate(quantity_b1, total_demmand, quantity) } else { 0 };
    let b2_trade = if price <= threshold_b2 { allocate(quantity_b2, total_demmand, quantity) } else { 0 };
    let b3_trade = if price <= threshold_b3 { allocate(quantity_b3, total_demmand, quantity) } else { 0 };
    let s1_trade = if price >= threshold_s1 { allocate(quantity_s1, total_supply, quantity) } else { 0 };
    let s2_trade = if price >= threshold_s2 { allocate(quantity_s2, total_supply, quantity) } else { 0 };

    assert_eq!(price, 100);
    assert_eq!(quantity, 600);
    assert_eq!(b1_trade, 100);
    assert_eq!(b2_trade, 200);
    assert_eq!(b3_trade, 300);
    assert_eq!(s1_trade, 400 * 600 / 900);
    assert_eq!(s2_trade, 500 * 600 / 900);
}

#[test]
fn test_profit() {
    let trader1 = Trader::new(true, 100, 100, 100);
    let trader2 = Trader::new(false, 100, 100, 100);

    let price1 = 200u64;
    let price2 = 90u64;
    let quantity1 = 1000u64;
    let quantity2 = 0u64;

    assert_eq!(trader1.profit(price2, quantity1), 10_000i64);
    assert_eq!(trader2.profit(price1, quantity1), 100_000i64);
    assert_eq!(trader2.profit(price2, quantity1), -10_000i64);
    assert_eq!(trader1.profit(price1, quantity2), 0i64);
}

#[test]
fn test_adjust_aggressive() {
    let mut trader1 = Trader::new(true, 100, 80, 100);
    let mut trader2 = Trader::new(false, 100, 120, 100);
    let mut trader3 = Trader::new(true, 100, 80, 100);
    let mut trader4 = Trader::new(false, 100, 120, 100);

    trader1.adjust_aggressive(true);
    assert_eq!(trader1.threshold, 75);
    trader2.adjust_aggressive(true);
    assert_eq!(trader2.threshold, 125);
    trader3.adjust_aggressive(false);
    assert_eq!(trader3.threshold, 90);
    trader4.adjust_aggressive(false);
    assert_eq!(trader4.threshold, 110);
}

#[test]
fn test_adjust() {
    let mut trader1 = Trader::new(true, 100, 80, 100);
    let mut trader2 = Trader::new(false, 100, 120, 100);
    let mut trader3 = Trader::new(true, 100, 80, 100);
    let mut trader4 = Trader::new(false, 100, 120, 100);

    trader1.adjust(true);
    assert_eq!(trader1.threshold, 80);
    trader2.adjust(true);
    assert_eq!(trader2.threshold, 120);
    trader3.adjust(false);
    assert_eq!(trader3.threshold, 90);
    trader4.adjust(false);
    assert_eq!(trader4.threshold, 110);
}

#[test]
fn adjust_without_trade_halves_the_gap_rounding_towards_the_threshold() {
    let mut buyer = Trader::new(true, 101, 80, 1);
    buyer.adjust(false);
    assert_eq!(buyer.threshold, 90);
    let mut seller = Trader::new(false, 100, 121, 1);
    seller.adjust(false);
    assert_eq!(seller.threshold, 111);
    let mut at_value = Trader::new(true, 100, 100, 1);
    at_value.adjust(false);
    assert_eq!(at_value.threshold, 100);
}

#[test]
fn play_round_settles_and_adapts() {
    let mut traders = vec![
        Trader::new(true, 100, 80, 100),
        Trader::new(true, 110, 90, 200),
        Trader::new(true, 105, 95, 300),
        Trader::new(false, 90, 110, 400),
        Trader::new(false, 100, 115, 500),
    ];
    // Demand: 300 at 95 and 0 above; supply: 0 up to 105. The market clears
    // at 100 with no volume, so nobody trades and every threshold moves.
    let out = play_round(&mut traders, false).unwrap();
    assert_eq!(out.0, 100);
    assert_eq!(out.1, 0);
    assert_eq!(out.2, vec![0, 0, 0, 0, 0]);
    let thresholds: Vec<u64> = traders.iter().map(|t| t.threshold).collect();
    assert_eq!(thresholds, vec![90, 100, 100, 100, 108]);
}

#[test]
fn play_round_aggressive_after_trades() {
    let mut traders = vec![Trader::new(true, 120, 110, 100), Trader::new(false, 90, 100, 100)];
    // Demand 100 up to 110, supply 100 from 100: clears at 100 with 100.
    let out = play_round(&mut traders, true).unwrap();
    assert_eq!(out, (100, 100, vec![100, 100]));
    assert_eq!(traders[0].threshold, 105);
    assert_eq!(traders[1].threshold, 105);
}

#[test]
fn trader_shares_follow_the_draws() {
    let trader = Trader::new(true, 120, 105, 40);
    let draws_1: [u64; 9] = [7; 9];
    let draws_2: [u64; 9] = [11; 9];
    let (shares, _) = trader.trade_from_draws(&draws_1, &draws_2);
    for j in 0..9 {
        assert_eq!(shares[0][j].value(), 7);
        assert_eq!(shares[1][j].value(), 11);
    }
    // Bands at 95..105 carry 40, the others nothing.
    assert_eq!(shares[2][0].value(), 22);
    assert_eq!(shares[2][2].value(), 22);
    assert_eq!(shares[2][3].value(), mpc_rust::field::M - 18);
}

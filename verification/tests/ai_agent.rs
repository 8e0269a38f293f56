use mpc_rust::agent::{
    aggregate_bids, fallback_bid, json_object_span, next_proposal_step, settle_round,
    validate_bid, Bid, BidError, BuyerProfile, OrderRecord, Profile, ProposalStep, RoundResult,
    SupplierProfile, SupplyRecord,
};
use mpc_rust::scenario::build_profiles;
use mpc_rust::text::format_history;

fn sample_buyer() -> BuyerProfile {
    BuyerProfile::new(
        "在庫を切らさず、なるべく安く仕入れる".to_string(),
        800,
        120,
        600,
        2000,
        vec![
            OrderRecord { date: "2026-07-15".to_string(), order_amount: 1000 },
            OrderRecord { date: "2026-08-12".to_string(), order_amount: 800 },
        ],
        120,
        "梅雨明けで揚げ物需要が増加見込み".to_string(),
    )
}

fn sample_supplier() -> SupplierProfile {
    SupplierProfile {
        strategy: "採算ラインを守りつつ売上を伸ばす".to_string(),
        current_stock: 3000,
        supply_per_day: 400,
        safety_stock: 700,
        max_stock: 4000,
        supply_history: vec![SupplyRecord { date: "2026-07-25".to_string(), supply_amount: 1200 }],
        price_floor: 105,
        notes: "原料コストが上昇傾向".to_string(),
    }
}

#[test]
fn test_validate_bid() {
    let bid1 = Bid { threshold: 100, quantity: 200, reason: "在庫が薄いため".to_string() };
    let bid2 = Bid { threshold: 101, quantity: 200, reason: "在庫が薄いため".to_string() };
    let bid3 = Bid { threshold: 100, quantity: 3000, reason: "在庫が薄いため".to_string() };
    let bid4 = Bid { threshold: 100, quantity: 0, reason: "在庫が薄いため".to_string() };
    let buyer_profile = BuyerProfile::new(
        "在庫を切らさず、なるべく安く仕入れる".to_string(),
        800,
        120,
        600,
        2000,
        vec![
            OrderRecord { date: "2026-07-15".to_string(), order_amount: 1000 },
            OrderRecord { date: "2026-08-12".to_string(), order_amount: 800 },
        ],
        120,
        "梅雨明けで揚げ物需要が増加見込み".to_string(),
    );
    let profile = Profile::Buyer(buyer_profile);
    let result1: Result<Bid, BidError> = validate_bid(&bid1, &profile);
    let result2 = validate_bid(&bid2, &profile);
    let result3 = validate_bid(&bid3, &profile);
    let result4 = validate_bid(&bid4, &profile);
    assert!(result1.is_ok());
    assert_eq!(result2, Err(BidError::NotOnGrid(101)));
    assert_eq!(result3, Err(BidError::QuantityExceedsMax(3000, 1200)));
    assert!(result4.is_ok());
}

#[test]
fn test_aggregate_bids() {
    let bids = vec![
        (Bid { threshold: 110, quantity: 200, reason: String::new() }, true),
        (Bid { threshold: 120, quantity: 100, reason: String::new() }, true),
        (Bid { threshold: 95, quantity: 100, reason: String::new() }, true),
        (Bid { threshold: 110, quantity: 200, reason: String::new() }, false),
        (Bid { threshold: 100, quantity: 200, reason: String::new() }, false),
    ];
    let (price, volume, total_demand, total_supply) = aggregate_bids(&bids).unwrap();
    assert_eq!(price, 110);
    assert_eq!(volume, 300);
    assert_eq!(total_demand, 300);
    assert_eq!(total_supply, 400);
}

#[test]
fn test_format_history() {
    let empty = vec![];
    assert!(format_history(&empty, 0).contains("初回"));

    let results = vec![RoundResult {
        round: 0,
        price: 110,
        volume: 1800,
        allocation: vec![0, 1800, 0, 1800, 0],
        thresholds: vec![95, 110, 105, 95, 100],
    }];
    let s = format_history(&results, 2);
    assert!(s.contains("110"));
    assert!(s.contains("105"));
}

#[test]
fn format_history_exact_text() {
    let results = vec![
        RoundResult { round: 0, price: 110, volume: 1800, allocation: vec![0, 1800], thresholds: vec![95, 110] },
        RoundResult { round: 1, price: 0, volume: 0, allocation: vec![0, 0], thresholds: vec![100, 115] },
    ];
    assert_eq!(
        format_history(&results, 1),
        "1ラウンド目: 清算価格: 110円, 成立総量: 1800l, あなたの入札threshold: 110円, 約定量: 1800l\n\
         2ラウンド目: 清算価格: 0円, 成立総量: 0l, あなたの入札threshold: 115円, 約定量: 0l"
    );
    let no_rounds: Vec<RoundResult> = vec![];
    assert_eq!(format_history(&no_rounds, 3), "(まだ取引履歴はありません。今回が初回の入札です。)");
}

#[test]
fn validate_bid_policy_and_supplier_checks() {
    let buyer = Profile::Buyer(sample_buyer());
    let high = Bid { threshold: 125, quantity: 10, reason: String::new() };
    assert_eq!(validate_bid(&high, &buyer), Err(BidError::PolicyViolation));

    let supplier = Profile::Supplier(sample_supplier());
    let low = Bid { threshold: 100, quantity: 10, reason: String::new() };
    assert_eq!(validate_bid(&low, &supplier), Err(BidError::PolicyViolation));
    let too_much = Bid { threshold: 110, quantity: 2301, reason: String::new() };
    assert_eq!(validate_bid(&too_much, &supplier), Err(BidError::QuantityExceedsMax(2301, 2300)));
    let off_grid = Bid { threshold: 107, quantity: 1, reason: String::new() };
    assert_eq!(validate_bid(&off_grid, &supplier), Err(BidError::NotOnGrid(107)));
    let ok = Bid { threshold: 105, quantity: 2300, reason: "ok".to_string() };
    assert_eq!(validate_bid(&ok, &supplier), Ok(ok.clone()));
}

#[test]
fn honest_bidding_clears_at_105() {
    // Buyers bid their ceilings (115, 120, 120), suppliers their floors (100, 105).
    let bids = vec![
        (Bid { threshold: 115, quantity: 500, reason: String::new() }, true),
        (Bid { threshold: 120, quantity: 700, reason: String::new() }, true),
        (Bid { threshold: 120, quantity: 400, reason: String::new() }, true),
        (Bid { threshold: 100, quantity: 1000, reason: String::new() }, false),
        (Bid { threshold: 105, quantity: 800, reason: String::new() }, false),
    ];
    assert_eq!(aggregate_bids(&bids), Some((105, 1600, 1600, 1800)));
    let result = settle_round(4, &bids);
    assert_eq!(result.round, 4);
    assert_eq!(result.price, 105);
    assert_eq!(result.volume, 1600);
    assert_eq!(result.allocation, vec![500, 700, 400, 888, 711]);
    assert_eq!(result.thresholds, vec![115, 120, 120, 100, 105]);
}

#[test]
fn settle_round_without_clearing() {
    let bids = vec![
        (Bid { threshold: 135, quantity: 10, reason: String::new() }, true),
        (Bid { threshold: 135, quantity: 1, reason: String::new() }, false),
    ];
    let result = settle_round(0, &bids);
    assert_eq!((result.price, result.volume), (0, 0));
    assert_eq!(result.allocation, vec![0, 0]);
    assert_eq!(result.thresholds, vec![135, 135]);
}

#[test]
fn json_object_span_finds_the_outer_braces() {
    let text = "前置き {\"threshold\":100,\"quantity\":200,\"reason\":\"x\"} 後書き}";
    let (start, end) = json_object_span(text.as_bytes()).unwrap();
    assert_eq!(start, text.find('{').unwrap());
    assert_eq!(end, text.rfind('}').unwrap());
    assert_eq!(json_object_span(b"no braces"), None);
    assert_eq!(json_object_span(b"only {"), None);
    assert_eq!(json_object_span(b"}{"), Some((1, 0)));
}

#[test]
fn proposal_steps() {
    let buyer = Profile::Buyer(sample_buyer());
    let good = Bid { threshold: 110, quantity: 100, reason: "r".to_string() };
    let bad = Bid { threshold: 111, quantity: 100, reason: "r".to_string() };
    assert_eq!(next_proposal_step(&buyer, 0, 3, Some(good.clone())), ProposalStep::Accept(good.clone()));
    assert_eq!(
        next_proposal_step(&buyer, 0, 3, Some(bad.clone())),
        ProposalStep::Retry(Some(BidError::NotOnGrid(111)))
    );
    assert_eq!(next_proposal_step(&buyer, 1, 3, None), ProposalStep::Retry(None));
    assert_eq!(next_proposal_step(&buyer, 2, 3, None), ProposalStep::GiveUp(None));
    assert_eq!(fallback_bid(Some(&good)), good);
}

#[test]
fn observation_profiles() {
    let profiles = build_profiles();
    assert_eq!(profiles.len(), 5);
    match &profiles[0] {
        Profile::Buyer(b) => {
            assert_eq!(b.price_ceiling, 115);
            assert_eq!(b.max_stock - b.current_stock, 1800);
        }
        Profile::Supplier(_) => panic!("first profile must be a buyer"),
    }
    match &profiles[4] {
        Profile::Supplier(s) => {
            assert_eq!(s.price_floor, 105);
            assert_eq!(s.current_stock - s.safety_stock, 2300);
        }
        Profile::Buyer(_) => panic!("last profile must be a supplier"),
    }
}

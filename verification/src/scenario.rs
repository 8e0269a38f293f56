//! The companies of the multi-round observation: three buyers and two
//! suppliers of cooking oil.
//!
//! The buyers' ceilings (115, 120, 120) and the suppliers' floors (100, 105)
//! are set so that honest bidding clears at 105: with buyer quantities 500,
//! 700 and 400 and supplier quantities 1000 and 800, demand first falls to
//! supply at 105 (1600 against 1800). Stocks leave ample room, so the
//! quantity checks do not refuse the bids the agents make.

use vstd::prelude::*;
use crate::agent::{BuyerProfile, OrderRecord, Profile, SupplierProfile, SupplyRecord};

verus! {

/// `p` is a buyer with exactly these fields; the order history is given as
/// (date, amount) pairs.
pub open spec fn is_buyer_profile(
    p: Profile,
    strategy: Seq<char>,
    current_stock: u64,
    use_per_day: u64,
    reorder_point: u64,
    max_stock: u64,
    history: Seq<(Seq<char>, u64)>,
    price_ceiling: u64,
    notes: Seq<char>,
) -> bool {
    &&& p matches Profile::Buyer(b)
    &&& b.strategy@ == strategy
    &&& b.current_stock == current_stock
    &&& b.use_per_day == use_per_day
    &&& b.reorder_point == reorder_point
    &&& b.max_stock == max_stock
    &&& b.order_history@.map_values(|o: OrderRecord| (o.date@, o.order_amount)) == history
    &&& b.price_ceiling == price_ceiling
    &&& b.notes@ == notes
}

/// `p` is a supplier with exactly these fields; the supply history is given
/// as (date, amount) pairs.
pub open spec fn is_supplier_profile(
    p: Profile,
    strategy: Seq<char>,
    current_stock: u64,
    supply_per_day: u64,
    safety_stock: u64,
    max_stock: u64,
    history: Seq<(Seq<char>, u64)>,
    price_floor: u64,
    notes: Seq<char>,
) -> bool {
    &&& p matches Profile::Supplier(s)
    &&& s.strategy@ == strategy
    &&& s.current_stock == current_stock
    &&& s.supply_per_day == supply_per_day
    &&& s.safety_stock == safety_stock
    &&& s.max_stock == max_stock
    &&& s.supply_history@.map_values(|o: SupplyRecord| (o.date@, o.supply_amount)) == history
    &&& s.price_floor == price_floor
    &&& s.notes@ == notes
}

fn order(date: &str, amount: u64) -> (r: OrderRecord)
    ensures
        r.date@ == date@,
        r.order_amount == amount,
{
    OrderRecord { date: date.to_string(), order_amount: amount }
}

fn supply(date: &str, amount: u64) -> (r: SupplyRecord)
    ensures
        r.date@ == date@,
        r.supply_amount == amount,
{
    SupplyRecord { date: date.to_string(), supply_amount: amount }
}

/// The five companies of the observation, buyers first.
pub fn build_profiles() -> (r: Vec<Profile>)
    ensures
        r@.len() == 5,
        is_buyer_profile(
            r@[0],
            "在庫を確保しつつ仕入コストを抑える"@,
            700,
            130,
            600,
            2500,
            seq![("2026-07-15"@, 900u64), ("2026-08-12"@, 700u64)],
            115,
            "平常運転。相場を見て無理のない範囲で仕入れたい"@,
        ),
        is_buyer_profile(
            r@[1],
            "欠品を避け、安定供給を最優先する"@,
            500,
            200,
            800,
            3000,
            seq![("2026-07-20"@, 1600u64), ("2026-08-18"@, 1400u64)],
            120,
            "夏の揚げ物需要でしばらく消費増の見込み。欠品は絶対に避けたい"@,
        ),
        is_buyer_profile(
            r@[2],
            "価格と在庫水準のバランスを取る"@,
            900,
            110,
            700,
            2400,
            seq![("2026-07-18"@, 1000u64), ("2026-08-15"@, 800u64)],
            120,
            "特段の事情なし。平常運転"@,
        ),
        is_supplier_profile(
            r@[3],
            "在庫回転を保ちつつ売上を最大化する"@,
            4000,
            500,
            800,
            5000,
            seq![("2026-07-22"@, 1800u64), ("2026-08-19"@, 1600u64)],
            100,
            "在庫がやや過多。ある程度の量は動かしたい"@,
        ),
        is_supplier_profile(
            r@[4],
            "採算ラインを守りつつ売上を伸ばす"@,
            3000,
            400,
            700,
            4000,
            seq![("2026-07-25"@, 1200u64), ("2026-08-21"@, 1000u64)],
            105,
            "原料コストが上昇傾向。安売りは避けたい"@,
        ),
{
    let b1: BuyerProfile = BuyerProfile::new(
        "在庫を確保しつつ仕入コストを抑える".to_string(),
        700,
        130,
        600,
        2500,
        vec![order("2026-07-15", 900), order("2026-08-12", 700)],
        115,
        "平常運転。相場を見て無理のない範囲で仕入れたい".to_string(),
    );
    let b2: BuyerProfile = BuyerProfile::new(
        "欠品を避け、安定供給を最優先する".to_string(),
        500,
        200,
        800,
        3000,
        vec![order("2026-07-20", 1600), order("2026-08-18", 1400)],
        120,
        "夏の揚げ物需要でしばらく消費増の見込み。欠品は絶対に避けたい".to_string(),
    );
    let b3: BuyerProfile = BuyerProfile::new(
        "価格と在庫水準のバランスを取る".to_string(),
        900,
        110,
        700,
        2400,
        vec![order("2026-07-18", 1000), order("2026-08-15", 800)],
        120,
        "特段の事情なし。平常運転".to_string(),
    );
    let s1: SupplierProfile = SupplierProfile {
        strategy: "在庫回転を保ちつつ売上を最大化する".to_string(),
        current_stock: 4000,
        supply_per_day: 500,
        safety_stock: 800,
        max_stock: 5000,
        supply_history: vec![supply("2026-07-22", 1800), supply("2026-08-19", 1600)],
        price_floor: 100,
        notes: "在庫がやや過多。ある程度の量は動かしたい".to_string(),
    };
    let s2: SupplierProfile = SupplierProfile {
        strategy: "採算ラインを守りつつ売上を伸ばす".to_string(),
        current_stock: 3000,
        supply_per_day: 400,
        safety_stock: 700,
        max_stock: 4000,
        supply_history: vec![supply("2026-07-25", 1200), supply("2026-08-21", 1000)],
        price_floor: 105,
        notes: "原料コストが上昇傾向。安売りは避けたい".to_string(),
    };
    let r: Vec<Profile> = vec![
        Profile::Buyer(b1),
        Profile::Buyer(b2),
        Profile::Buyer(b3),
        Profile::Supplier(s1),
        Profile::Supplier(s2),
    ];
    proof {
        assert(r@[0]->Buyer_0.order_history@.map_values(|o: OrderRecord| (o.date@, o.order_amount))
            =~= seq![("2026-07-15"@, 900u64), ("2026-08-12"@, 700u64)]);
        assert(r@[1]->Buyer_0.order_history@.map_values(|o: OrderRecord| (o.date@, o.order_amount))
            =~= seq![("2026-07-20"@, 1600u64), ("2026-08-18"@, 1400u64)]);
        assert(r@[2]->Buyer_0.order_history@.map_values(|o: OrderRecord| (o.date@, o.order_amount))
            =~= seq![("2026-07-18"@, 1000u64), ("2026-08-15"@, 800u64)]);
        assert(r@[3]->Supplier_0.supply_history@.map_values(|o: SupplyRecord| (o.date@, o.supply_amount))
            =~= seq![("2026-07-22"@, 1800u64), ("2026-08-19"@, 1600u64)]);
        assert(r@[4]->Supplier_0.supply_history@.map_values(|o: SupplyRecord| (o.date@, o.supply_amount))
            =~= seq![("2026-07-25"@, 1200u64), ("2026-08-21"@, 1000u64)]);
    }
    r
}

} // verus!

//! The prompts that ask a language model for a bid: the company's situation
//! and policy, the price grid and the public history, in a fixed template.

use vstd::prelude::*;
use crate::auction::PRICES;
use crate::agent::{BuyerProfile, OrderRecord, Profile, SupplierProfile, SupplyRecord};
use crate::text::{
    concat, contains_text, decimal, joined, lemma_concat_labelled, lemma_joined_step, push_decimal,
};

verus! {

/// The fixed text of the buyer prompt, in order, between the inserted values
/// (strategy, price grid, current stock, use per day, reorder point, maximum
/// stock, order history, price ceiling, notes, history, price ceiling).
pub const BUYER_TEXT_0: &'static str = "\n        あなたは外食チェーンの食用油のbuyerです。\n        目的は、";
pub const BUYER_TEXT_1: &'static str = "ことです。 \n        購入する価格は";
pub const BUYER_TEXT_2: &'static str = "グリッドで決まっています。\n        それ以外の価格での購入はできません。\n        ### 会社の状況\n        現在のストック量(単位:l): ";
pub const BUYER_TEXT_3: &'static str = "\n        1日の消費量(単位:l): ";
pub const BUYER_TEXT_4: &'static str = ",\n        再発注点(単位:l):";
pub const BUYER_TEXT_5: &'static str = ",\n        最大在庫量(単位:l):";
pub const BUYER_TEXT_6: &'static str = ",\n        過去の購入履歴:";
pub const BUYER_TEXT_7: &'static str = ",\n        購入価格上限(単位:円):";
pub const BUYER_TEXT_8: &'static str = "\n        特記事項:";
pub const BUYER_TEXT_9: &'static str = "\n        ### 前ラウンドまでの公開結果\n        ";
pub const BUYER_TEXT_10: &'static str = "\n        これを踏まえて今回の入札を決めて下さい。\n        ### 出力形式\n        以下の例のようなjsonのみ。余計な文章は加えないでください。\n        {\"threshold\":100, \"quantity\":200, \"reason\":\"在庫に対して、使用量のため...\"}\n        thresholdはこの価格までなら買うという上限金額です。\n        必ず ";
pub const BUYER_TEXT_11: &'static str = " 円以下で、かつ pricesの中の数字にしてください。\n        quantityは購入する数量です。max_stock - current_stock を超えない。\n        reasonは判断した理由を50字以内で説明してください\n        ";

/// The fixed text of the supplier prompt, in order, between the inserted
/// values (strategy, price grid, current stock, supply per day, safety stock,
/// maximum stock, supply history, price floor, notes, history, price floor).
pub const SUPPLIER_TEXT_0: &'static str = "\n        あなたは外食チェーンの食用油の供給者です。\n        目的は、";
pub const SUPPLIER_TEXT_1: &'static str = "ことです。 \n        販売する価格は";
pub const SUPPLIER_TEXT_2: &'static str = "グリッドで決まっています。\n        それ以外の価格での販売はできません。\n        ### 会社の状況\n        現在のストック量(単位:l): ";
pub const SUPPLIER_TEXT_3: &'static str = "\n        1日の供給量(単位:l): ";
pub const SUPPLIER_TEXT_4: &'static str = ",\n        安全在庫(単位:l):";
pub const SUPPLIER_TEXT_5: &'static str = ",\n        最大在庫量(単位:l):";
pub const SUPPLIER_TEXT_6: &'static str = ",\n        過去の販売履歴:";
pub const SUPPLIER_TEXT_7: &'static str = ",\n        販売価格下限(単位:円):";
pub const SUPPLIER_TEXT_8: &'static str = "\n        特記事項:";
pub const SUPPLIER_TEXT_9: &'static str = "\n        ### 前ラウンドまでの公開結果\n        ";
pub const SUPPLIER_TEXT_10: &'static str = "\n        これを踏まえて今回の入札を決めて下さい\n        ### 出力形式\n        以下の例のようなjsonのみ。余計な文章は加えないでください。\n        {\"threshold\":100, \"quantity\":200, \"reason\":\"在庫に対して、使用量のため...\"}\n        thresholdは「この価格を下回っては売らない」という下限価格です。\n        必ず";
pub const SUPPLIER_TEXT_11: &'static str = " 円以上で、かつ pricesの中の数字にしてください。\n        quantityは販売する数量です。current_stock-safty_stock以下で設定してください。\n        reasonは判断した理由を50字以内で説明してください。\n        ";

pub const GRID_OPEN: &'static str = "[";
pub const GRID_SEPARATOR: &'static str = ", ";
pub const GRID_CLOSE: &'static str = "]";
pub const RECORD_SEPARATOR: &'static str = ",";
pub const RECORD_DATE_SEPARATOR: &'static str = ":";
pub const RECORD_UNIT: &'static str = "l";

/// The price grid as a list: `[95, 100, ..., 135]`.
pub open spec fn grid_text() -> Seq<char> {
    GRID_OPEN@ + joined(PRICES@.map_values(|p: u64| decimal(p as nat)), GRID_SEPARATOR@)
        + GRID_CLOSE@
}

/// One dated amount: `date:amountl`.
pub open spec fn record_text(date: Seq<char>, amount: u64) -> Seq<char> {
    date + RECORD_DATE_SEPARATOR@ + decimal(amount as nat) + RECORD_UNIT@
}

/// A buyer's order history, records separated by commas.
pub open spec fn order_history_text(records: Seq<OrderRecord>) -> Seq<char> {
    joined(
        records.map_values(|o: OrderRecord| record_text(o.date@, o.order_amount)),
        RECORD_SEPARATOR@,
    )
}

/// A supplier's supply history, records separated by commas.
pub open spec fn supply_history_text(records: Seq<SupplyRecord>) -> Seq<char> {
    joined(
        records.map_values(|o: SupplyRecord| record_text(o.date@, o.supply_amount)),
        RECORD_SEPARATOR@,
    )
}

/// The prompt for a buyer, given the history it is shown.
pub open spec fn buyer_prompt(p: BuyerProfile, history: Seq<char>) -> Seq<char> {
    BUYER_TEXT_0@ + p.strategy@ + BUYER_TEXT_1@ + grid_text() + BUYER_TEXT_2@ + decimal(
        p.current_stock as nat,
    ) + BUYER_TEXT_3@ + decimal(p.use_per_day as nat) + BUYER_TEXT_4@ + decimal(
        p.reorder_point as nat,
    ) + BUYER_TEXT_5@ + decimal(p.max_stock as nat) + BUYER_TEXT_6@ + order_history_text(
        p.order_history@,
    ) + BUYER_TEXT_7@ + decimal(p.price_ceiling as nat) + BUYER_TEXT_8@ + p.notes@ + BUYER_TEXT_9@
        + history + BUYER_TEXT_10@ + decimal(p.price_ceiling as nat) + BUYER_TEXT_11@
}

/// The prompt for a supplier, given the history it is shown.
pub open spec fn supplier_prompt(p: SupplierProfile, history: Seq<char>) -> Seq<char> {
    SUPPLIER_TEXT_0@ + p.strategy@ + SUPPLIER_TEXT_1@ + grid_text() + SUPPLIER_TEXT_2@ + decimal(
        p.current_stock as nat,
    ) + SUPPLIER_TEXT_3@ + decimal(p.supply_per_day as nat) + SUPPLIER_TEXT_4@ + decimal(
        p.safety_stock as nat,
    ) + SUPPLIER_TEXT_5@ + decimal(p.max_stock as nat) + SUPPLIER_TEXT_6@ + supply_history_text(
        p.supply_history@,
    ) + SUPPLIER_TEXT_7@ + decimal(p.price_floor as nat) + SUPPLIER_TEXT_8@ + p.notes@
        + SUPPLIER_TEXT_9@ + history + SUPPLIER_TEXT_10@ + decimal(p.price_floor as nat)
        + SUPPLIER_TEXT_11@
}

/// The prompt for a company of either kind.
pub open spec fn profile_prompt(profile: Profile, history: Seq<char>) -> Seq<char> {
    match profile {
        Profile::Buyer(b) => buyer_prompt(b, history),
        Profile::Supplier(s) => supplier_prompt(s, history),
    }
}

fn push_grid(s: &mut String)
    ensures
        final(s)@ == old(s)@ + grid_text(),
{
    let ghost items = PRICES@.map_values(|p: u64| decimal(p as nat));
    s.append(GRID_OPEN);
    let ghost start = s@;
    for i in 0..9
        invariant
            items == PRICES@.map_values(|p: u64| decimal(p as nat)),
            items.len() == 9,
            s@ == start + joined(items.take(i as int), GRID_SEPARATOR@),
    {
        let ghost before = s@;
        if i > 0 {
            s.append(GRID_SEPARATOR);
        }
        push_decimal(s, PRICES[i]);
        proof {
            lemma_joined_step(items, GRID_SEPARATOR@, i as int);
            if i == 0 {
                assert(items.take(0) =~= Seq::<Seq<char>>::empty());
                assert(s@ =~= start + items[0]);
            } else {
                assert(s@ =~= before + GRID_SEPARATOR@ + items[i as int]);
            }
        }
    }
    assert(items.take(9) =~= items);
    s.append(GRID_CLOSE);
    assert(s@ =~= old(s)@ + grid_text());
}

fn push_order_history(s: &mut String, records: &Vec<OrderRecord>)
    ensures
        final(s)@ == old(s)@ + order_history_text(records@),
{
    let ghost items = records@.map_values(
        |o: OrderRecord| record_text(o.date@, o.order_amount),
    );
    for i in 0..records.len()
        invariant
            items == records@.map_values(|o: OrderRecord| record_text(o.date@, o.order_amount)),
            s@ == old(s)@ + joined(items.take(i as int), RECORD_SEPARATOR@),
    {
        let ghost before = s@;
        if i > 0 {
            s.append(RECORD_SEPARATOR);
        }
        s.append(records[i].date.as_str());
        s.append(RECORD_DATE_SEPARATOR);
        push_decimal(s, records[i].order_amount);
        s.append(RECORD_UNIT);
        proof {
            lemma_joined_step(items, RECORD_SEPARATOR@, i as int);
            if i == 0 {
                assert(items.take(0) =~= Seq::<Seq<char>>::empty());
                assert(s@ =~= old(s)@ + items[0]);
            } else {
                assert(s@ =~= before + RECORD_SEPARATOR@ + items[i as int]);
            }
        }
    }
    assert(items.take(records@.len() as int) =~= items);
}

fn push_supply_history(s: &mut String, records: &Vec<SupplyRecord>)
    ensures
        final(s)@ == old(s)@ + supply_history_text(records@),
{
    let ghost items = records@.map_values(
        |o: SupplyRecord| record_text(o.date@, o.supply_amount),
    );
    for i in 0..records.len()
        invariant
            items == records@.map_values(|o: SupplyRecord| record_text(o.date@, o.supply_amount)),
            s@ == old(s)@ + joined(items.take(i as int), RECORD_SEPARATOR@),
    {
        let ghost before = s@;
        if i > 0 {
            s.append(RECORD_SEPARATOR);
        }
        s.append(records[i].date.as_str());
        s.append(RECORD_DATE_SEPARATOR);
        push_decimal(s, records[i].supply_amount);
        s.append(RECORD_UNIT);
        proof {
            lemma_joined_step(items, RECORD_SEPARATOR@, i as int);
            if i == 0 {
                assert(items.take(0) =~= Seq::<Seq<char>>::empty());
                assert(s@ =~= old(s)@ + items[0]);
            } else {
                assert(s@ =~= before + RECORD_SEPARATOR@ + items[i as int]);
            }
        }
    }
    assert(items.take(records@.len() as int) =~= items);
}

/// The bidding prompt for a buyer.
pub fn build_buyer_prompt(profile: &BuyerProfile, history: &str) -> (r: String)
    ensures
        r@ == buyer_prompt(*profile, history@),
{
    let mut s: String = String::new();
    s.append(BUYER_TEXT_0);
    s.append(profile.strategy.as_str());
    s.append(BUYER_TEXT_1);
    push_grid(&mut s);
    s.append(BUYER_TEXT_2);
    push_decimal(&mut s, profile.current_stock);
    s.append(BUYER_TEXT_3);
    push_decimal(&mut s, profile.use_per_day);
    s.append(BUYER_TEXT_4);
    push_decimal(&mut s, profile.reorder_point);
    s.append(BUYER_TEXT_5);
    push_decimal(&mut s, profile.max_stock);
    s.append(BUYER_TEXT_6);
    push_order_history(&mut s, &profile.order_history);
    s.append(BUYER_TEXT_7);
    push_decimal(&mut s, profile.price_ceiling);
    s.append(BUYER_TEXT_8);
    s.append(profile.notes.as_str());
    s.append(BUYER_TEXT_9);
    s.append(history);
    s.append(BUYER_TEXT_10);
    push_decimal(&mut s, profile.price_ceiling);
    s.append(BUYER_TEXT_11);
    assert(s@ =~= buyer_prompt(*profile, history@));
    s
}

/// The bidding prompt for a supplier.
pub fn build_supplier_prompt(profile: &SupplierProfile, history: &str) -> (r: String)
    ensures
        r@ == supplier_prompt(*profile, history@),
{
    let mut s: String = String::new();
    s.append(SUPPLIER_TEXT_0);
    s.append(profile.strategy.as_str());
    s.append(SUPPLIER_TEXT_1);
    push_grid(&mut s);
    s.append(SUPPLIER_TEXT_2);
    push_decimal(&mut s, profile.current_stock);
    s.append(SUPPLIER_TEXT_3);
    push_decimal(&mut s, profile.supply_per_day);
    s.append(SUPPLIER_TEXT_4);
    push_decimal(&mut s, profile.safety_stock);
    s.append(SUPPLIER_TEXT_5);
    push_decimal(&mut s, profile.max_stock);
    s.append(SUPPLIER_TEXT_6);
    push_supply_history(&mut s, &profile.supply_history);
    s.append(SUPPLIER_TEXT_7);
    push_decimal(&mut s, profile.price_floor);
    s.append(SUPPLIER_TEXT_8);
    s.append(profile.notes.as_str());
    s.append(SUPPLIER_TEXT_9);
    s.append(history);
    s.append(SUPPLIER_TEXT_10);
    push_decimal(&mut s, profile.price_floor);
    s.append(SUPPLIER_TEXT_11);
    assert(s@ =~= supplier_prompt(*profile, history@));
    s
}

/// The bidding prompt for a company of either kind.
pub fn render_prompt(profile: &Profile, history: &str) -> (r: String)
    ensures
        r@ == profile_prompt(*profile, history@),
{
    match profile {
        Profile::Buyer(b) => build_buyer_prompt(b, history),
        Profile::Supplier(s) => build_supplier_prompt(s, history),
    }
}


/// The buyer prompt as its pieces, in order.
pub open spec fn buyer_pieces(p: BuyerProfile, history: Seq<char>) -> Seq<Seq<char>> {
    seq![
        BUYER_TEXT_0@, p.strategy@, BUYER_TEXT_1@, grid_text(), BUYER_TEXT_2@,
        decimal(p.current_stock as nat), BUYER_TEXT_3@, decimal(p.use_per_day as nat),
        BUYER_TEXT_4@, decimal(p.reorder_point as nat), BUYER_TEXT_5@,
        decimal(p.max_stock as nat), BUYER_TEXT_6@, order_history_text(p.order_history@),
        BUYER_TEXT_7@, decimal(p.price_ceiling as nat), BUYER_TEXT_8@, p.notes@,
        BUYER_TEXT_9@, history, BUYER_TEXT_10@, decimal(p.price_ceiling as nat), BUYER_TEXT_11@,
    ]
}

/// The buyer prompt is the concatenation of its pieces.
#[verifier::spinoff_prover]
#[verifier::rlimit(50)]
proof fn lemma_buyer_prompt_is_its_pieces(p: BuyerProfile, history: Seq<char>)
    ensures
        buyer_prompt(p, history) == concat(buyer_pieces(p, history)),
{
    let ps = buyer_pieces(p, history);
    assert(ps.take(23) =~= ps);
    reveal_with_fuel(concat, 24);
    assert(ps.drop_last() =~= ps.take(22));
}

/// The fixed texts of the buyer prompt cut where the labels of its figures
/// begin or end.
proof fn lemma_buyer_text_cuts()
    ensures
        BUYER_TEXT_2@ == "グリッドで決まっています。\n        それ以外の価格での購入はできません。\n        ### 会社の状況\n        "@ + "現在のストック量(単位:l): "@,
        BUYER_TEXT_3@ == "\n"@ + "        1日の消費量(単位:l): "@,
        BUYER_TEXT_3@ == "\n        "@ + "1日の消費量(単位:l): "@,
        BUYER_TEXT_4@ == ","@ + "\n        再発注点(単位:l):"@,
        BUYER_TEXT_4@ == ",\n        "@ + "再発注点(単位:l):"@,
        BUYER_TEXT_5@ == ","@ + "\n        最大在庫量(単位:l):"@,
        BUYER_TEXT_5@ == ",\n        "@ + "最大在庫量(単位:l):"@,
        BUYER_TEXT_6@ == ","@ + "\n        過去の購入履歴:"@,
        BUYER_TEXT_7@ == ",\n        "@ + "購入価格上限(単位:円):"@,
        BUYER_TEXT_8@ == "\n"@ + "        特記事項:"@,
        BUYER_TEXT_10@ == "\n        これを踏まえて今回の入札を決めて下さい。\n        ### 出力形式\n        以下の例のようなjsonのみ。余計な文章は加えないでください。\n        {\"threshold\":100, \"quantity\":200, \"reason\":\"在庫に対して、使用量のため...\"}\n        thresholdはこの価格までなら買うという上限金額です。\n        "@ + "必ず "@,
        BUYER_TEXT_11@ == " 円以下"@ + "で、かつ pricesの中の数字にしてください。\n        quantityは購入する数量です。max_stock - current_stock を超えない。\n        reasonは判断した理由を50字以内で説明してください\n        "@,
{
    reveal_strlit("        1日の消費量(単位:l): ");
    reveal_strlit("        特記事項:");
    reveal_strlit(" 円以下");
    reveal_strlit(" 円以下で、かつ pricesの中の数字にしてください。\n        quantityは購入する数量です。max_stock - current_stock を超えない。\n        reasonは判断した理由を50字以内で説明してください\n        ");
    reveal_strlit(",");
    reveal_strlit(",\n        ");
    reveal_strlit(",\n        再発注点(単位:l):");
    reveal_strlit(",\n        最大在庫量(単位:l):");
    reveal_strlit(",\n        購入価格上限(単位:円):");
    reveal_strlit(",\n        過去の購入履歴:");
    reveal_strlit("1日の消費量(単位:l): ");
    reveal_strlit("\n");
    reveal_strlit("\n        ");
    reveal_strlit("\n        1日の消費量(単位:l): ");
    reveal_strlit("\n        これを踏まえて今回の入札を決めて下さい。\n        ### 出力形式\n        以下の例のようなjsonのみ。余計な文章は加えないでください。\n        {\"threshold\":100, \"quantity\":200, \"reason\":\"在庫に対して、使用量のため...\"}\n        thresholdはこの価格までなら買うという上限金額です。\n        ");
    reveal_strlit("\n        これを踏まえて今回の入札を決めて下さい。\n        ### 出力形式\n        以下の例のようなjsonのみ。余計な文章は加えないでください。\n        {\"threshold\":100, \"quantity\":200, \"reason\":\"在庫に対して、使用量のため...\"}\n        thresholdはこの価格までなら買うという上限金額です。\n        必ず ");
    reveal_strlit("\n        再発注点(単位:l):");
    reveal_strlit("\n        最大在庫量(単位:l):");
    reveal_strlit("\n        特記事項:");
    reveal_strlit("\n        過去の購入履歴:");
    reveal_strlit("で、かつ pricesの中の数字にしてください。\n        quantityは購入する数量です。max_stock - current_stock を超えない。\n        reasonは判断した理由を50字以内で説明してください\n        ");
    reveal_strlit("グリッドで決まっています。\n        それ以外の価格での購入はできません。\n        ### 会社の状況\n        ");
    reveal_strlit("グリッドで決まっています。\n        それ以外の価格での購入はできません。\n        ### 会社の状況\n        現在のストック量(単位:l): ");
    reveal_strlit("再発注点(単位:l):");
    reveal_strlit("必ず ");
    reveal_strlit("最大在庫量(単位:l):");
    reveal_strlit("現在のストック量(単位:l): ");
    reveal_strlit("購入価格上限(単位:円):");
    assert(BUYER_TEXT_2@ =~= "グリッドで決まっています。\n        それ以外の価格での購入はできません。\n        ### 会社の状況\n        "@ + "現在のストック量(単位:l): "@);
    assert(BUYER_TEXT_3@ =~= "\n"@ + "        1日の消費量(単位:l): "@);
    assert(BUYER_TEXT_3@ =~= "\n        "@ + "1日の消費量(単位:l): "@);
    assert(BUYER_TEXT_4@ =~= ","@ + "\n        再発注点(単位:l):"@);
    assert(BUYER_TEXT_4@ =~= ",\n        "@ + "再発注点(単位:l):"@);
    assert(BUYER_TEXT_5@ =~= ","@ + "\n        最大在庫量(単位:l):"@);
    assert(BUYER_TEXT_5@ =~= ",\n        "@ + "最大在庫量(単位:l):"@);
    assert(BUYER_TEXT_6@ =~= ","@ + "\n        過去の購入履歴:"@);
    assert(BUYER_TEXT_7@ =~= ",\n        "@ + "購入価格上限(単位:円):"@);
    assert(BUYER_TEXT_8@ =~= "\n"@ + "        特記事項:"@);
    assert(BUYER_TEXT_10@ =~= "\n        これを踏まえて今回の入札を決めて下さい。\n        ### 出力形式\n        以下の例のようなjsonのみ。余計な文章は加えないでください。\n        {\"threshold\":100, \"quantity\":200, \"reason\":\"在庫に対して、使用量のため...\"}\n        thresholdはこの価格までなら買うという上限金額です。\n        "@ + "必ず "@);
    assert(BUYER_TEXT_11@ =~= " 円以下"@ + "で、かつ pricesの中の数字にしてください。\n        quantityは購入する数量です。max_stock - current_stock を超えない。\n        reasonは判断した理由を50字以内で説明してください\n        "@);
}

/// In a buyer's prompt each figure of the company stands right after its
/// own label: the current stock after `現在のストック量(単位:l): `, the daily
/// use after `1日の消費量(単位:l): `, the reorder point after
/// `再発注点(単位:l):`, the maximum stock after `最大在庫量(単位:l):`, and the
/// price ceiling after `購入価格上限(単位:円):` and in the instruction
/// `必ず ... 円以下`.
pub proof fn lemma_buyer_prompt_fields(p: BuyerProfile, history: Seq<char>)
    ensures
        contains_text(
            buyer_prompt(p, history),
            "現在のストック量(単位:l): "@ + decimal(p.current_stock as nat) + "\n"@,
        ),
        contains_text(
            buyer_prompt(p, history),
            "1日の消費量(単位:l): "@ + decimal(p.use_per_day as nat) + ","@,
        ),
        contains_text(
            buyer_prompt(p, history),
            "再発注点(単位:l):"@ + decimal(p.reorder_point as nat) + ","@,
        ),
        contains_text(
            buyer_prompt(p, history),
            "最大在庫量(単位:l):"@ + decimal(p.max_stock as nat) + ","@,
        ),
        contains_text(
            buyer_prompt(p, history),
            "購入価格上限(単位:円):"@ + decimal(p.price_ceiling as nat) + "\n"@,
        ),
        contains_text(
            buyer_prompt(p, history),
            "必ず "@ + decimal(p.price_ceiling as nat) + " 円以下"@,
        ),
{
    lemma_buyer_prompt_is_its_pieces(p, history);
    lemma_buyer_text_cuts();
    let ps = buyer_pieces(p, history);
    lemma_concat_labelled(ps, 5, "グリッドで決まっています。\n        それ以外の価格での購入はできません。\n        ### 会社の状況\n        "@, "現在のストック量(単位:l): "@, "\n"@, "        1日の消費量(単位:l): "@);
    lemma_concat_labelled(ps, 7, "\n        "@, "1日の消費量(単位:l): "@, ","@, "\n        再発注点(単位:l):"@);
    lemma_concat_labelled(ps, 9, ",\n        "@, "再発注点(単位:l):"@, ","@, "\n        最大在庫量(単位:l):"@);
    lemma_concat_labelled(ps, 11, ",\n        "@, "最大在庫量(単位:l):"@, ","@, "\n        過去の購入履歴:"@);
    lemma_concat_labelled(ps, 15, ",\n        "@, "購入価格上限(単位:円):"@, "\n"@, "        特記事項:"@);
    lemma_concat_labelled(ps, 21, "\n        これを踏まえて今回の入札を決めて下さい。\n        ### 出力形式\n        以下の例のようなjsonのみ。余計な文章は加えないでください。\n        {\"threshold\":100, \"quantity\":200, \"reason\":\"在庫に対して、使用量のため...\"}\n        thresholdはこの価格までなら買うという上限金額です。\n        "@, "必ず "@, " 円以下"@, "で、かつ pricesの中の数字にしてください。\n        quantityは購入する数量です。max_stock - current_stock を超えない。\n        reasonは判断した理由を50字以内で説明してください\n        "@);
}


/// The supplier prompt as its pieces, in order.
pub open spec fn supplier_pieces(p: SupplierProfile, history: Seq<char>) -> Seq<Seq<char>> {
    seq![
        SUPPLIER_TEXT_0@, p.strategy@, SUPPLIER_TEXT_1@, grid_text(), SUPPLIER_TEXT_2@,
        decimal(p.current_stock as nat), SUPPLIER_TEXT_3@, decimal(p.supply_per_day as nat),
        SUPPLIER_TEXT_4@, decimal(p.safety_stock as nat), SUPPLIER_TEXT_5@,
        decimal(p.max_stock as nat), SUPPLIER_TEXT_6@, supply_history_text(p.supply_history@),
        SUPPLIER_TEXT_7@, decimal(p.price_floor as nat), SUPPLIER_TEXT_8@, p.notes@,
        SUPPLIER_TEXT_9@, history, SUPPLIER_TEXT_10@, decimal(p.price_floor as nat),
        SUPPLIER_TEXT_11@,
    ]
}

/// The supplier prompt is the concatenation of its pieces.
#[verifier::spinoff_prover]
#[verifier::rlimit(50)]
proof fn lemma_supplier_prompt_is_its_pieces(p: SupplierProfile, history: Seq<char>)
    ensures
        supplier_prompt(p, history) == concat(supplier_pieces(p, history)),
{
    let ps = supplier_pieces(p, history);
    assert(ps.take(23) =~= ps);
    reveal_with_fuel(concat, 24);
    assert(ps.drop_last() =~= ps.take(22));
}

/// The fixed texts of the supplier prompt cut where the labels of its figures
/// begin or end.
proof fn lemma_supplier_text_cuts()
    ensures
        SUPPLIER_TEXT_2@ == "グリッドで決まっています。\n        それ以外の価格での販売はできません。\n        ### 会社の状況\n        "@ + "現在のストック量(単位:l): "@,
        SUPPLIER_TEXT_3@ == "\n"@ + "        1日の供給量(単位:l): "@,
        SUPPLIER_TEXT_3@ == "\n        "@ + "1日の供給量(単位:l): "@,
        SUPPLIER_TEXT_4@ == ","@ + "\n        安全在庫(単位:l):"@,
        SUPPLIER_TEXT_4@ == ",\n        "@ + "安全在庫(単位:l):"@,
        SUPPLIER_TEXT_5@ == ","@ + "\n        最大在庫量(単位:l):"@,
        SUPPLIER_TEXT_5@ == ",\n        "@ + "最大在庫量(単位:l):"@,
        SUPPLIER_TEXT_6@ == ","@ + "\n        過去の販売履歴:"@,
        SUPPLIER_TEXT_7@ == ",\n        "@ + "販売価格下限(単位:円):"@,
        SUPPLIER_TEXT_8@ == "\n"@ + "        特記事項:"@,
        SUPPLIER_TEXT_10@ == "\n        これを踏まえて今回の入札を決めて下さい\n        ### 出力形式\n        以下の例のようなjsonのみ。余計な文章は加えないでください。\n        {\"threshold\":100, \"quantity\":200, \"reason\":\"在庫に対して、使用量のため...\"}\n        thresholdは「この価格を下回っては売らない」という下限価格です。\n        "@ + "必ず"@,
        SUPPLIER_TEXT_11@ == " 円以上"@ + "で、かつ pricesの中の数字にしてください。\n        quantityは販売する数量です。current_stock-safty_stock以下で設定してください。\n        reasonは判断した理由を50字以内で説明してください。\n        "@,
{
    reveal_strlit("        1日の供給量(単位:l): ");
    reveal_strlit("        特記事項:");
    reveal_strlit(" 円以上");
    reveal_strlit(" 円以上で、かつ pricesの中の数字にしてください。\n        quantityは販売する数量です。current_stock-safty_stock以下で設定してください。\n        reasonは判断した理由を50字以内で説明してください。\n        ");
    reveal_strlit(",");
    reveal_strlit(",\n        ");
    reveal_strlit(",\n        安全在庫(単位:l):");
    reveal_strlit(",\n        最大在庫量(単位:l):");
    reveal_strlit(",\n        販売価格下限(単位:円):");
    reveal_strlit(",\n        過去の販売履歴:");
    reveal_strlit("1日の供給量(単位:l): ");
    reveal_strlit("\n");
    reveal_strlit("\n        ");
    reveal_strlit("\n        1日の供給量(単位:l): ");
    reveal_strlit("\n        これを踏まえて今回の入札を決めて下さい\n        ### 出力形式\n        以下の例のようなjsonのみ。余計な文章は加えないでください。\n        {\"threshold\":100, \"quantity\":200, \"reason\":\"在庫に対して、使用量のため...\"}\n        thresholdは「この価格を下回っては売らない」という下限価格です。\n        ");
    reveal_strlit("\n        これを踏まえて今回の入札を決めて下さい\n        ### 出力形式\n        以下の例のようなjsonのみ。余計な文章は加えないでください。\n        {\"threshold\":100, \"quantity\":200, \"reason\":\"在庫に対して、使用量のため...\"}\n        thresholdは「この価格を下回っては売らない」という下限価格です。\n        必ず");
    reveal_strlit("\n        安全在庫(単位:l):");
    reveal_strlit("\n        最大在庫量(単位:l):");
    reveal_strlit("\n        特記事項:");
    reveal_strlit("\n        過去の販売履歴:");
    reveal_strlit("で、かつ pricesの中の数字にしてください。\n        quantityは販売する数量です。current_stock-safty_stock以下で設定してください。\n        reasonは判断した理由を50字以内で説明してください。\n        ");
    reveal_strlit("グリッドで決まっています。\n        それ以外の価格での販売はできません。\n        ### 会社の状況\n        ");
    reveal_strlit("グリッドで決まっています。\n        それ以外の価格での販売はできません。\n        ### 会社の状況\n        現在のストック量(単位:l): ");
    reveal_strlit("安全在庫(単位:l):");
    reveal_strlit("必ず");
    reveal_strlit("最大在庫量(単位:l):");
    reveal_strlit("現在のストック量(単位:l): ");
    reveal_strlit("販売価格下限(単位:円):");
    assert(SUPPLIER_TEXT_2@ =~= "グリッドで決まっています。\n        それ以外の価格での販売はできません。\n        ### 会社の状況\n        "@ + "現在のストック量(単位:l): "@);
    assert(SUPPLIER_TEXT_3@ =~= "\n"@ + "        1日の供給量(単位:l): "@);
    assert(SUPPLIER_TEXT_3@ =~= "\n        "@ + "1日の供給量(単位:l): "@);
    assert(SUPPLIER_TEXT_4@ =~= ","@ + "\n        安全在庫(単位:l):"@);
    assert(SUPPLIER_TEXT_4@ =~= ",\n        "@ + "安全在庫(単位:l):"@);
    assert(SUPPLIER_TEXT_5@ =~= ","@ + "\n        最大在庫量(単位:l):"@);
    assert(SUPPLIER_TEXT_5@ =~= ",\n        "@ + "最大在庫量(単位:l):"@);
    assert(SUPPLIER_TEXT_6@ =~= ","@ + "\n        過去の販売履歴:"@);
    assert(SUPPLIER_TEXT_7@ =~= ",\n        "@ + "販売価格下限(単位:円):"@);
    assert(SUPPLIER_TEXT_8@ =~= "\n"@ + "        特記事項:"@);
    assert(SUPPLIER_TEXT_10@ =~= "\n        これを踏まえて今回の入札を決めて下さい\n        ### 出力形式\n        以下の例のようなjsonのみ。余計な文章は加えないでください。\n        {\"threshold\":100, \"quantity\":200, \"reason\":\"在庫に対して、使用量のため...\"}\n        thresholdは「この価格を下回っては売らない」という下限価格です。\n        "@ + "必ず"@);
    assert(SUPPLIER_TEXT_11@ =~= " 円以上"@ + "で、かつ pricesの中の数字にしてください。\n        quantityは販売する数量です。current_stock-safty_stock以下で設定してください。\n        reasonは判断した理由を50字以内で説明してください。\n        "@);
}

/// In a supplier's prompt each figure of the company stands right after its
/// own label: the current stock after `現在のストック量(単位:l): `, the daily
/// supply after `1日の供給量(単位:l): `, the safety stock after
/// `安全在庫(単位:l):`, the maximum stock after `最大在庫量(単位:l):`, and the
/// price floor after `販売価格下限(単位:円):` and in the instruction
/// `必ず... 円以上`.
pub proof fn lemma_supplier_prompt_fields(p: SupplierProfile, history: Seq<char>)
    ensures
        contains_text(
            supplier_prompt(p, history),
            "現在のストック量(単位:l): "@ + decimal(p.current_stock as nat) + "\n"@,
        ),
        contains_text(
            supplier_prompt(p, history),
            "1日の供給量(単位:l): "@ + decimal(p.supply_per_day as nat) + ","@,
        ),
        contains_text(
            supplier_prompt(p, history),
            "安全在庫(単位:l):"@ + decimal(p.safety_stock as nat) + ","@,
        ),
        contains_text(
            supplier_prompt(p, history),
            "最大在庫量(単位:l):"@ + decimal(p.max_stock as nat) + ","@,
        ),
        contains_text(
            supplier_prompt(p, history),
            "販売価格下限(単位:円):"@ + decimal(p.price_floor as nat) + "\n"@,
        ),
        contains_text(
            supplier_prompt(p, history),
            "必ず"@ + decimal(p.price_floor as nat) + " 円以上"@,
        ),
{
    lemma_supplier_prompt_is_its_pieces(p, history);
    lemma_supplier_text_cuts();
    let ps = supplier_pieces(p, history);
    lemma_concat_labelled(ps, 5, "グリッドで決まっています。\n        それ以外の価格での販売はできません。\n        ### 会社の状況\n        "@, "現在のストック量(単位:l): "@, "\n"@, "        1日の供給量(単位:l): "@);
    lemma_concat_labelled(ps, 7, "\n        "@, "1日の供給量(単位:l): "@, ","@, "\n        安全在庫(単位:l):"@);
    lemma_concat_labelled(ps, 9, ",\n        "@, "安全在庫(単位:l):"@, ","@, "\n        最大在庫量(単位:l):"@);
    lemma_concat_labelled(ps, 11, ",\n        "@, "最大在庫量(単位:l):"@, ","@, "\n        過去の販売履歴:"@);
    lemma_concat_labelled(ps, 15, ",\n        "@, "販売価格下限(単位:円):"@, "\n"@, "        特記事項:"@);
    lemma_concat_labelled(ps, 21, "\n        これを踏まえて今回の入札を決めて下さい\n        ### 出力形式\n        以下の例のようなjsonのみ。余計な文章は加えないでください。\n        {\"threshold\":100, \"quantity\":200, \"reason\":\"在庫に対して、使用量のため...\"}\n        thresholdは「この価格を下回っては売らない」という下限価格です。\n        "@, "必ず"@, " 円以上"@, "で、かつ pricesの中の数字にしてください。\n        quantityは販売する数量です。current_stock-safty_stock以下で設定してください。\n        reasonは判断した理由を50字以内で説明してください。\n        "@);
}

} // verus!

use mpc_rust::agent::{BuyerProfile, OrderRecord, Profile, RoundResult};
use mpc_rust::prompt::{build_buyer_prompt, build_supplier_prompt, render_prompt};
use mpc_rust::agent::SupplierProfile;
use mpc_rust::provenance::{commit_profile, hex, provenance_journal, sha256};
use mpc_rust::text::format_history;

fn buyer() -> BuyerProfile {
    BuyerProfile::new(
        "在庫を確保しつつコストを抑える".to_string(),
        700,
        130,
        600,
        2500,
        vec![OrderRecord { date: "2026-07-15".to_string(), order_amount: 900 }],
        115,
        "平常運転".to_string(),
    )
}

#[test]
fn sha256_known_vectors() {
    assert_eq!(
        hex(&sha256(b"hello world")),
        "b94d27b9934d3e08a52e52d7da7dabfac484efe37a5380ee9088f7ace2efcde9"
    );
    assert_eq!(
        hex(&sha256(b"")),
        "e3b0c44298fc1c149afbf4c8996fb92427ae41e4649b934ca495991b7852b855"
    );
}

#[test]
fn hex_is_lowercase_two_digits_per_byte() {
    assert_eq!(hex(&[0x00, 0x0f, 0xa0, 0xff]), "000fa0ff");
    assert_eq!(hex(&[]), "");
}

#[test]
fn commitment_hashes_bytes_then_salt() {
    let salt = [42u8; 32];
    let bytes = b"profile bytes";
    let mut joined = bytes.to_vec();
    joined.extend_from_slice(&salt);
    assert_eq!(commit_profile(bytes, &salt), sha256(&joined));
    assert_ne!(commit_profile(bytes, &salt), commit_profile(bytes, &[0u8; 32]));
}

#[test]
fn buyer_prompt_text() {
    let p = buyer();
    let history = format_history(&[], 0);
    let prompt = build_buyer_prompt(&p, &history);
    assert!(prompt.starts_with("\n        あなたは外食チェーンの食用油のbuyerです。\n        目的は、在庫を確保しつつコストを抑えることです。 \n"));
    assert!(prompt.contains("購入する価格は[95, 100, 105, 110, 115, 120, 125, 130, 135]グリッドで決まっています。"));
    assert!(prompt.contains("現在のストック量(単位:l): 700\n"));
    assert!(prompt.contains("過去の購入履歴:2026-07-15:900l,\n"));
    assert!(prompt.contains("必ず 115 円以下で"));
    assert!(prompt.contains("{\"threshold\":100, \"quantity\":200"));
    assert!(prompt.contains("今回が初回の入札です。"));
    assert_eq!(render_prompt(&Profile::Buyer(p.clone()), &history), prompt);
}

#[test]
fn supplier_prompt_text() {
    let s = SupplierProfile {
        strategy: "売る".to_string(),
        current_stock: 10,
        supply_per_day: 2,
        safety_stock: 3,
        max_stock: 20,
        supply_history: vec![],
        price_floor: 100,
        notes: String::new(),
    };
    let prompt = build_supplier_prompt(&s, "h");
    assert!(prompt.contains("過去の販売履歴:,\n"));
    assert!(prompt.contains("必ず100 円以上で"));
    assert!(prompt.contains("公開結果\n        h\n"));
}

#[test]
fn journal_is_commitment_history_digest_prompt_hash() {
    let profile = Profile::Buyer(buyer());
    let bytes = b"canonical";
    let salt = [7u8; 32];
    let rounds = vec![RoundResult { round: 0, price: 105, volume: 10, allocation: vec![5], thresholds: vec![110] }];
    let journal = provenance_journal(bytes, &salt, &profile, &rounds, 0);
    assert_eq!(journal.len(), 96);
    assert_eq!(&journal[0..32], &commit_profile(bytes, &salt));
    let history = format_history(&rounds, 0);
    assert_eq!(&journal[32..64], &sha256(history.as_bytes()));
    let prompt = render_prompt(&profile, &history);
    assert_eq!(&journal[64..96], &sha256(prompt.as_bytes()));
}

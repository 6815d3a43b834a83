use vialytics_core::diff::BalanceSnapshot;
use vialytics_core::reconcile::{ConfirmedTransaction, TransactionMeta};
use vialytics_core::process_confirmed_transaction;

fn snap(idx: u8, mint: &str, amount: &str, decimals: u8, owner: Option<&str>) -> BalanceSnapshot {
    BalanceSnapshot {
        account_index: idx,
        mint: mint.to_string(),
        owner: owner.map(|o| o.to_string()),
        amount: amount.to_string(),
        decimals,
    }
}

#[test]
fn end_to_end_usdc_transfer() {
    let tx = ConfirmedTransaction {
        slot: 42,
        block_time: Some(1_700_000_000),
        meta: TransactionMeta::Present {
            fee: 5000,
            succeeded: true,
            raw_metadata: Some("{\"fee\":5000}".to_string()),
            pre_token_balances: Some(vec![snap(1, "USDC", "1000", 6, None)]),
            post_token_balances: Some(vec![snap(1, "USDC", "800", 6, Some("W1"))]),
        },
    };
    let sig = "S1".to_string();
    let r = process_confirmed_transaction(&sig, &tx);
    assert_eq!(r.record.signature, "S1");
    assert_eq!(r.record.slot, 42);
    assert_eq!(r.record.block_time, Some(1_700_000_000));
    assert_eq!(r.record.fee, 5000);
    assert!(r.record.status);
    assert_eq!(r.record.raw_metadata.as_deref(), Some("{\"fee\":5000}"));
    assert_eq!(r.movements.len(), 1);
    let m = &r.movements[0];
    assert_eq!(m.signature, "S1");
    assert_eq!(m.mint, "USDC");
    assert_eq!(m.amount, -200);
    assert_eq!(m.decimals, 6);
    assert_eq!(m.source.as_deref(), Some("W1"));
    assert_eq!(m.destination, None);
    assert_eq!(m.block_time, Some(1_700_000_000));
}

#[test]
fn missing_metadata_is_a_failed_observation() {
    let tx = ConfirmedTransaction { slot: 7, block_time: None, meta: TransactionMeta::Absent };
    let r = process_confirmed_transaction(&"S2".to_string(), &tx);
    assert_eq!(r.record.signature, "S2");
    assert_eq!(r.record.slot, 7);
    assert_eq!(r.record.block_time, None);
    assert_eq!(r.record.fee, 0);
    assert!(!r.record.status);
    assert_eq!(r.record.raw_metadata, None);
    assert!(r.movements.is_empty());
}

#[test]
fn one_missing_balance_list_skips_movements() {
    let tx = ConfirmedTransaction {
        slot: 9,
        block_time: None,
        meta: TransactionMeta::Present {
            fee: 10,
            succeeded: false,
            raw_metadata: None,
            pre_token_balances: None,
            post_token_balances: Some(vec![snap(0, "M", "5", 0, None)]),
        },
    };
    let r = process_confirmed_transaction(&"S3".to_string(), &tx);
    assert_eq!(r.record.fee, 10);
    assert!(!r.record.status);
    assert!(r.movements.is_empty());
}

use vialytics_core::reconcile::{Reconciliation, TokenMovement, TransactionRecord};
use vialytics_core::store::Ledger;

fn record(sig: &str, slot: u64, fee: u64) -> TransactionRecord {
    TransactionRecord {
        signature: sig.to_string(),
        slot,
        block_time: None,
        fee,
        status: true,
        raw_metadata: None,
    }
}

fn movement(sig: &str, amount: i128) -> TokenMovement {
    TokenMovement {
        signature: sig.to_string(),
        mint: "M".to_string(),
        amount,
        decimals: 0,
        source: None,
        destination: None,
        block_time: None,
    }
}

#[test]
fn second_insert_with_same_signature_is_ignored() {
    let mut ledger = Ledger::new();
    assert!(ledger.insert_transaction(record("S", 1, 100)));
    assert!(!ledger.insert_transaction(record("S", 2, 999)));
    assert_eq!(ledger.transactions().len(), 1);
    assert_eq!(ledger.transactions()[0].slot, 1);
    assert_eq!(ledger.transactions()[0].fee, 100);
    assert!(ledger.transaction_exists(&"S".to_string()));
    assert!(!ledger.transaction_exists(&"T".to_string()));
}

#[test]
fn persist_appends_movements_in_order() {
    let mut ledger = Ledger::new();
    ledger.persist(Reconciliation {
        record: record("S", 1, 5),
        movements: vec![movement("S", -3), movement("S", 4)],
    });
    assert_eq!(ledger.transactions().len(), 1);
    assert_eq!(ledger.movements().len(), 2);
    assert_eq!(ledger.movements()[0].amount, -3);
    assert_eq!(ledger.movements()[1].amount, 4);
    ledger.insert_movement(movement("S", 9));
    assert_eq!(ledger.movements().len(), 3);
}

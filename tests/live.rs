use vialytics_core::live::notification_signature;

#[test]
fn notification_without_transaction_names_nothing() {
    assert_eq!(notification_signature(None), None);
}

#[test]
fn signature_bytes_become_base58_text() {
    assert_eq!(notification_signature(Some(&vec![0x61])).as_deref(), Some("2g"));
    assert_eq!(notification_signature(Some(&vec![0, 0, 1])).as_deref(), Some("112"));
    assert_eq!(notification_signature(Some(&vec![])).as_deref(), Some(""));
    let sig = notification_signature(Some(&vec![7u8; 64])).unwrap();
    assert!(sig.len() >= 86 && sig.len() <= 88);
}

use vialytics_core::amount::{amount_of, parse_i64};
use vialytics_core::diff::{diff_balances, BalanceSnapshot};

fn snap(idx: u8, mint: &str, amount: &str, decimals: u8, owner: Option<&str>) -> BalanceSnapshot {
    BalanceSnapshot {
        account_index: idx,
        mint: mint.to_string(),
        owner: owner.map(|o| o.to_string()),
        amount: amount.to_string(),
        decimals,
    }
}

#[test]
fn decrease_yields_negative_movement() {
    let pre = vec![snap(0, "M", "100", 0, None)];
    let post = vec![snap(0, "M", "70", 0, None)];
    let changes = diff_balances(&pre, &post);
    assert_eq!(changes.len(), 1);
    assert_eq!(changes[0].mint, "M");
    assert_eq!(changes[0].amount, -30);
}

#[test]
fn new_account_is_funded_from_zero() {
    let pre: Vec<BalanceSnapshot> = vec![];
    let post = vec![snap(0, "M", "50", 0, None)];
    let changes = diff_balances(&pre, &post);
    assert_eq!(changes.len(), 1);
    assert_eq!(changes[0].mint, "M");
    assert_eq!(changes[0].amount, 50);
}

#[test]
fn identical_snapshots_yield_nothing() {
    let pre = vec![snap(0, "M", "100", 6, Some("W")), snap(1, "N", "7", 2, None)];
    let post = vec![snap(0, "M", "100", 6, Some("W")), snap(1, "N", "7", 2, None)];
    assert!(diff_balances(&pre, &post).is_empty());
}

#[test]
fn malformed_amount_counts_as_zero() {
    assert_eq!(amount_of("abc"), 0);
    let pre = vec![snap(0, "M", "abc", 0, None)];
    let post = vec![snap(0, "M", "25", 0, None)];
    let changes = diff_balances(&pre, &post);
    assert_eq!(changes.len(), 1);
    assert_eq!(changes[0].amount, 25);
    let post_bad = vec![snap(0, "M", "abc", 0, None)];
    assert!(diff_balances(&pre, &post_bad).is_empty());
}

#[test]
fn parse_follows_signed_decimal_rules() {
    assert_eq!(parse_i64("0"), Some(0));
    assert_eq!(parse_i64("+42"), Some(42));
    assert_eq!(parse_i64("-42"), Some(-42));
    assert_eq!(parse_i64("9223372036854775807"), Some(i64::MAX));
    assert_eq!(parse_i64("-9223372036854775808"), Some(i64::MIN));
    assert_eq!(parse_i64("9223372036854775808"), None);
    assert_eq!(parse_i64("18446744073709551615"), None);
    assert_eq!(parse_i64(""), None);
    assert_eq!(parse_i64("-"), None);
    assert_eq!(parse_i64("+"), None);
    assert_eq!(parse_i64(" 1"), None);
    assert_eq!(parse_i64("1a"), None);
    for s in ["0", "17", "-5", "+8", "x", "", "99999999999999999999", "-0"] {
        assert_eq!(parse_i64(s), s.parse::<i64>().ok());
    }
}

#[test]
fn first_matching_pre_snapshot_is_used() {
    let pre = vec![
        snap(1, "M", "10", 0, None),
        snap(0, "M", "40", 0, None),
        snap(0, "M", "90", 0, None),
    ];
    let post = vec![snap(0, "M", "50", 3, Some("O"))];
    let changes = diff_balances(&pre, &post);
    assert_eq!(changes.len(), 1);
    assert_eq!(changes[0].amount, 10);
    assert_eq!(changes[0].decimals, 3);
    assert_eq!(changes[0].owner.as_deref(), Some("O"));
}

#[test]
fn key_needs_both_index_and_mint() {
    let pre = vec![snap(0, "A", "100", 0, None), snap(1, "B", "100", 0, None)];
    let post = vec![snap(0, "B", "100", 0, None), snap(1, "B", "60", 0, None)];
    let changes = diff_balances(&pre, &post);
    assert_eq!(changes.len(), 2);
    assert_eq!(changes[0].mint, "B");
    assert_eq!(changes[0].amount, 100);
    assert_eq!(changes[1].amount, -40);
}

#[test]
fn extreme_amounts_do_not_overflow() {
    let pre = vec![snap(0, "M", "-9223372036854775808", 0, None)];
    let post = vec![snap(0, "M", "9223372036854775807", 0, None)];
    let changes = diff_balances(&pre, &post);
    assert_eq!(changes[0].amount, (i64::MAX as i128) - (i64::MIN as i128));
}

#[test]
fn order_of_pre_snapshots_does_not_matter() {
    let pre_a = vec![snap(0, "M", "10", 0, None), snap(1, "N", "20", 0, None)];
    let pre_b = vec![snap(1, "N", "20", 0, None), snap(0, "M", "10", 0, None)];
    let post = vec![snap(1, "N", "5", 0, None), snap(0, "M", "15", 0, None)];
    let a = diff_balances(&pre_a, &post);
    let b = diff_balances(&pre_b, &post);
    assert_eq!(a.len(), 2);
    assert_eq!(b.len(), 2);
    assert_eq!((a[0].amount, a[1].amount), (-15, 5));
    assert_eq!((b[0].amount, b[1].amount), (-15, 5));
}

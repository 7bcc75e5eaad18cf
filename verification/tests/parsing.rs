//! The integer-literal grammar and the decoding of raw rows into records.

use reconcile::parse::parse_i64;
use reconcile::records::{FromRow, Transaction, TxnSummary};

fn row(fields: &[&str]) -> Vec<String> {
    fields.iter().map(|f| f.to_string()).collect()
}

#[test]
fn parses_plain_decimals() {
    assert_eq!(parse_i64("0"), Some(0));
    assert_eq!(parse_i64("123"), Some(123));
    assert_eq!(parse_i64("007"), Some(7));
    assert_eq!(parse_i64("-500"), Some(-500));
    assert_eq!(parse_i64("+500"), Some(500));
    assert_eq!(parse_i64("-0"), Some(0));
}

#[test]
fn parses_the_i64_bounds() {
    assert_eq!(parse_i64("9223372036854775807"), Some(i64::MAX));
    assert_eq!(parse_i64("-9223372036854775808"), Some(i64::MIN));
    assert_eq!(parse_i64("9223372036854775808"), None);
    assert_eq!(parse_i64("-9223372036854775809"), None);
    assert_eq!(parse_i64("99999999999999999999999999"), None);
}

#[test]
fn rejects_non_literals() {
    assert_eq!(parse_i64(""), None);
    assert_eq!(parse_i64("-"), None);
    assert_eq!(parse_i64("+"), None);
    assert_eq!(parse_i64(" 1"), None);
    assert_eq!(parse_i64("1 "), None);
    assert_eq!(parse_i64("1.5"), None);
    assert_eq!(parse_i64("12a"), None);
    assert_eq!(parse_i64("--5"), None);
    assert_eq!(parse_i64("五"), None);
}

#[test]
fn decodes_a_ledger_row() {
    let t = Transaction::from_row(&row(&["acct", "T7", "-42", "958"])).unwrap();
    assert_eq!(t.account, "acct");
    assert_eq!(t.txn_id, "T7");
    assert_eq!(t.amount, -42);
    assert_eq!(t.balance, 958);
}

#[test]
fn ledger_row_ignores_extra_fields() {
    let t = Transaction::from_row(&row(&["a", "T1", "1", "2", "junk"])).unwrap();
    assert_eq!(t.amount, 1);
    assert_eq!(t.balance, 2);
}

#[test]
fn rejects_short_or_unparsable_ledger_rows() {
    assert!(Transaction::from_row(&row(&[])).is_none());
    assert!(Transaction::from_row(&row(&["a", "T1", "1"])).is_none());
    assert!(Transaction::from_row(&row(&["a", "T1", "x", "2"])).is_none());
    assert!(Transaction::from_row(&row(&["a", "T1", "1", ""])).is_none());
}

#[test]
fn decodes_a_summary_row() {
    let s = TxnSummary::from_row(&row(&["T1", "A", "B", "500"])).unwrap();
    assert_eq!(s.id, "T1");
    assert_eq!(s.from, "A");
    assert_eq!(s.to, "B");
    assert_eq!(s.amount, 500);
}

#[test]
fn rejects_summary_amount_whose_negation_overflows() {
    // The debit side negates the amount, and -(i64::MIN) does not fit.
    assert!(TxnSummary::from_row(&row(&["T1", "A", "B", "-9223372036854775808"])).is_none());
    let s = TxnSummary::from_row(&row(&["T1", "A", "B", "-9223372036854775807"])).unwrap();
    assert_eq!(s.amount, -9223372036854775807);
}

#[test]
fn expands_into_debit_then_credit() {
    let s = TxnSummary::from_row(&row(&["T1", "A", "B", "500"])).unwrap();
    let pair = s.partial_txns();
    assert_eq!(pair.len(), 2);
    assert_eq!(pair[0].key.account, "A");
    assert_eq!(pair[0].key.txn_id, "T1");
    assert_eq!(pair[0].partial_txn.account, "A");
    assert_eq!(pair[0].partial_txn.txn_id, "T1");
    assert_eq!(pair[0].partial_txn.amount, -500);
    assert_eq!(pair[1].key.account, "B");
    assert_eq!(pair[1].partial_txn.account, "B");
    assert_eq!(pair[1].partial_txn.amount, 500);
}

#[test]
fn negative_summary_amount_swaps_the_signs() {
    let s = TxnSummary::from_row(&row(&["T2", "A", "B", "-10"])).unwrap();
    let pair = s.partial_txns();
    assert_eq!(pair[0].partial_txn.amount, 10);
    assert_eq!(pair[1].partial_txn.amount, -10);
}

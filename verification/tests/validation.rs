//! End-to-end validation scenarios, run through both strategies.

use reconcile::errors::{LoadError, ValidationError};
use reconcile::owned;
use reconcile::streaming;

fn row(fields: &[&str]) -> Vec<String> {
    fields.iter().map(|f| f.to_string()).collect()
}

fn rows(table: &[&[&str]]) -> Vec<Vec<String>> {
    table.iter().map(|r| row(r)).collect()
}

#[test]
fn it_works() {
    assert_eq!(2 + 2, 4);
}

#[test]
fn scenario_success() {
    let summary = rows(&[&["T1", "A", "B", "500"]]);
    let ledger = rows(&[&["A", "T1", "-500", "1000"], &["B", "T1", "500", "2000"]]);
    assert!(owned::validate(&summary, &ledger).is_ok());
    assert!(streaming::validate(&summary, &ledger).is_ok());
}

#[test]
fn scenario_missing_posting() {
    let summary = rows(&[&["T1", "A", "B", "500"]]);
    let ledger = rows(&[&["A", "T1", "-500", "1000"]]);
    for r in [
        owned::validate(&summary, &ledger),
        streaming::validate(&summary, &ledger),
    ] {
        match r {
            Err(ValidationError::MissingPosting { expected }) => {
                assert_eq!(expected.account, "B");
                assert_eq!(expected.txn_id, "T1");
                assert_eq!(expected.amount, 500);
            }
            other => panic!("expected MissingPosting, got {:?}", other),
        }
    }
}

#[test]
fn scenario_amount_mismatch() {
    let summary = rows(&[&["T1", "A", "B", "500"]]);
    let ledger = rows(&[&["A", "T1", "-500", "1000"], &["B", "T1", "499", "2000"]]);
    for r in [
        owned::validate(&summary, &ledger),
        streaming::validate(&summary, &ledger),
    ] {
        match r {
            Err(ValidationError::AmountMismatch { expected, found }) => {
                assert_eq!(expected.amount, 500);
                assert_eq!(expected.account, "B");
                assert_eq!(found.amount, 499);
                assert_eq!(found.account, "B");
                assert_eq!(found.txn_id, "T1");
                assert_eq!(found.balance, 2000);
            }
            other => panic!("expected AmountMismatch, got {:?}", other),
        }
    }
}

#[test]
fn scenario_empty_summary() {
    let summary: Vec<Vec<String>> = Vec::new();
    let ledger = rows(&[&["A", "T1", "-500", "1000"], &["X", "Z9", "7", "7"]]);
    assert!(owned::validate(&summary, &ledger).is_ok());
    assert!(streaming::validate(&summary, &ledger).is_ok());
}

#[test]
fn round_trip_many() {
    let summary = rows(&[
        &["T1", "A", "B", "500"],
        &["T2", "B", "C", "125"],
        &["T3", "C", "A", "0"],
    ]);
    let ledger = rows(&[
        &["A", "T1", "-500", "500"],
        &["B", "T1", "500", "1500"],
        &["B", "T2", "-125", "1375"],
        &["C", "T2", "125", "125"],
        &["C", "T3", "0", "125"],
        &["A", "T3", "0", "500"],
    ]);
    assert!(owned::validate(&summary, &ledger).is_ok());
    assert!(streaming::validate(&summary, &ledger).is_ok());
}

#[test]
fn removing_any_ledger_row_is_detected() {
    let summary = rows(&[&["T1", "A", "B", "500"], &["T2", "B", "C", "125"]]);
    let full = rows(&[
        &["A", "T1", "-500", "500"],
        &["B", "T1", "500", "1500"],
        &["B", "T2", "-125", "1375"],
        &["C", "T2", "125", "125"],
    ]);
    let expect = [
        ("A", "T1", -500),
        ("B", "T1", 500),
        ("B", "T2", -125),
        ("C", "T2", 125),
    ];
    for j in 0..full.len() {
        let mut ledger = full.clone();
        ledger.remove(j);
        match owned::validate(&summary, &ledger) {
            Err(ValidationError::MissingPosting { expected }) => {
                assert_eq!(expected.account, expect[j].0);
                assert_eq!(expected.txn_id, expect[j].1);
                assert_eq!(expected.amount, expect[j].2);
            }
            other => panic!("row {}: expected MissingPosting, got {:?}", j, other),
        }
    }
}

#[test]
fn perturbing_any_amount_is_detected() {
    let summary = rows(&[&["T1", "A", "B", "500"]]);
    for (j, delta) in [(0usize, 1i64), (0, -7), (1, 13), (1, -1)] {
        let amounts = [-500i64, 500];
        let mut ledger = rows(&[&["A", "T1", "-500", "500"], &["B", "T1", "500", "1500"]]);
        ledger[j][2] = (amounts[j] + delta).to_string();
        match owned::validate(&summary, &ledger) {
            Err(ValidationError::AmountMismatch { expected, found }) => {
                assert_eq!(expected.amount, amounts[j]);
                assert_eq!(found.amount, amounts[j] + delta);
            }
            other => panic!(
                "row {} delta {}: expected AmountMismatch, got {:?}",
                j, delta, other
            ),
        }
    }
}

#[test]
fn ledger_order_does_not_matter() {
    let summary = rows(&[&["T1", "A", "B", "500"], &["T2", "B", "C", "125"]]);
    let ledger = rows(&[
        &["A", "T1", "-500", "500"],
        &["B", "T1", "500", "1500"],
        &["B", "T2", "-125", "1375"],
        &["C", "T2", "125", "125"],
    ]);
    let mut reversed = ledger.clone();
    reversed.reverse();
    let mut swapped = ledger.clone();
    swapped.swap(0, 2);
    swapped.swap(1, 3);
    assert!(owned::validate(&summary, &ledger).is_ok());
    assert!(owned::validate(&summary, &reversed).is_ok());
    assert!(owned::validate(&summary, &swapped).is_ok());

    let bad_summary = rows(&[&["T9", "Q", "R", "4"]]);
    for l in [&ledger, &reversed, &swapped] {
        match owned::validate(&bad_summary, l) {
            Err(ValidationError::MissingPosting { expected }) => {
                assert_eq!(expected.account, "Q");
                assert_eq!(expected.txn_id, "T9");
            }
            other => panic!("expected MissingPosting, got {:?}", other),
        }
    }
}

#[test]
fn first_failing_summary_row_wins() {
    // Both transfers are mismatched; the reported error belongs to the
    // lowest-indexed summary row.
    let summary = rows(&[&["T1", "A", "B", "500"], &["T2", "B", "C", "125"]]);
    let ledger = rows(&[
        &["A", "T1", "-499", "500"],
        &["B", "T1", "500", "1500"],
        &["B", "T2", "-125", "1375"],
        &["C", "T2", "124", "125"],
    ]);
    for r in [
        owned::validate(&summary, &ledger),
        streaming::validate(&summary, &ledger),
    ] {
        match r {
            Err(ValidationError::AmountMismatch { expected, found }) => {
                assert_eq!(expected.txn_id, "T1");
                assert_eq!(expected.amount, -500);
                assert_eq!(found.amount, -499);
            }
            other => panic!("expected AmountMismatch, got {:?}", other),
        }
    }
}

#[test]
fn debit_is_checked_before_credit() {
    // Both sides of the one transfer are wrong; the debit is reported.
    let summary = rows(&[&["T1", "A", "B", "500"]]);
    let ledger = rows(&[&["A", "T1", "-1", "500"], &["B", "T1", "1", "1500"]]);
    match streaming::validate(&summary, &ledger) {
        Err(ValidationError::AmountMismatch { expected, .. }) => {
            assert_eq!(expected.account, "A");
            assert_eq!(expected.amount, -500);
        }
        other => panic!("expected AmountMismatch, got {:?}", other),
    }
}

#[test]
fn malformed_ledger_row_aborts_run() {
    let summary = rows(&[&["T1", "A", "B", "500"]]);
    let ledger = rows(&[&["A", "T1", "-500", "1000"], &["B", "T1", "abc", "2000"]]);
    for r in [
        owned::validate(&summary, &ledger),
        streaming::validate(&summary, &ledger),
    ] {
        match r {
            Err(ValidationError::Load { err }) => {
                assert_eq!(err, LoadError::MalformedRow { row: 1 });
            }
            other => panic!("expected Load, got {:?}", other),
        }
    }
}

#[test]
fn malformed_summary_row_aborts_run() {
    let summary = rows(&[&["T1", "A", "B", "500"], &["T2", "B", "C"]]);
    let ledger = rows(&[&["A", "T1", "-500", "1000"], &["B", "T1", "500", "2000"]]);
    for r in [
        owned::validate(&summary, &ledger),
        streaming::validate(&summary, &ledger),
    ] {
        match r {
            Err(ValidationError::Load { err }) => {
                assert_eq!(err, LoadError::MalformedRow { row: 1 });
            }
            other => panic!("expected Load, got {:?}", other),
        }
    }
}

#[test]
fn ledger_load_error_precedes_summary_load_error() {
    // The index is built first, so the malformed ledger row is the one
    // reported even though the summary is malformed too.
    let summary = rows(&[&["T1", "A"]]);
    let ledger = rows(&[&["A", "T1", "oops", "1000"]]);
    for r in [
        owned::validate(&summary, &ledger),
        streaming::validate(&summary, &ledger),
    ] {
        match r {
            Err(ValidationError::Load { err }) => {
                assert_eq!(err, LoadError::MalformedRow { row: 0 });
            }
            other => panic!("expected Load, got {:?}", other),
        }
    }
}

#[test]
fn self_transfer_of_zero_reconciles() {
    let summary = rows(&[&["T1", "A", "A", "0"]]);
    let ledger = rows(&[&["A", "T1", "0", "700"]]);
    assert!(owned::validate(&summary, &ledger).is_ok());
    assert!(streaming::validate(&summary, &ledger).is_ok());
}

#[test]
fn self_transfer_of_nonzero_amount_cannot_reconcile() {
    // Debit and credit collide on the same key with opposite signs, so a
    // single ledger posting cannot satisfy both.
    let summary = rows(&[&["T1", "A", "A", "500"]]);
    let ledger = rows(&[&["A", "T1", "500", "700"]]);
    match streaming::validate(&summary, &ledger) {
        Err(ValidationError::AmountMismatch { expected, found }) => {
            assert_eq!(expected.amount, -500);
            assert_eq!(found.amount, 500);
        }
        other => panic!("expected AmountMismatch, got {:?}", other),
    }
}

#[test]
fn duplicate_ledger_keys_keep_the_last_row() {
    let summary = rows(&[&["T1", "A", "B", "500"]]);
    let ledger = rows(&[
        &["A", "T1", "-999", "0"],
        &["A", "T1", "-500", "1000"],
        &["B", "T1", "500", "2000"],
    ]);
    assert!(owned::validate(&summary, &ledger).is_ok());
    assert!(streaming::validate(&summary, &ledger).is_ok());
}

//! The ledger index and the two loaders.

use reconcile::errors::LoadError;
use reconcile::index::TxnIndex;
use reconcile::owned::{load_summary, load_transactions, validate_summary};
use reconcile::records::{FromRow, Transaction, TxnKey};

fn row(fields: &[&str]) -> Vec<String> {
    fields.iter().map(|f| f.to_string()).collect()
}

fn rows(table: &[&[&str]]) -> Vec<Vec<String>> {
    table.iter().map(|r| row(r)).collect()
}

fn key(account: &str, txn_id: &str) -> TxnKey {
    TxnKey { account: account.to_string(), txn_id: txn_id.to_string() }
}

#[test]
fn lookup_finds_the_posting_inserted_last() {
    let mut idx = TxnIndex::new();
    idx.insert(Transaction::from_row(&row(&["A", "T1", "-1", "9"])).unwrap());
    idx.insert(Transaction::from_row(&row(&["B", "T1", "5", "5"])).unwrap());
    idx.insert(Transaction::from_row(&row(&["A", "T1", "-2", "8"])).unwrap());
    let found = idx.get(&key("A", "T1")).unwrap();
    assert_eq!(found.amount, -2);
    assert_eq!(found.balance, 8);
    assert_eq!(idx.get(&key("B", "T1")).unwrap().amount, 5);
    assert!(idx.get(&key("C", "T1")).is_none());
    assert!(idx.get(&key("A", "T2")).is_none());
}

#[test]
fn empty_index_finds_nothing() {
    let idx = TxnIndex::new();
    assert!(idx.get(&key("A", "T1")).is_none());
}

#[test]
fn load_transactions_reports_the_first_bad_row() {
    let r = load_transactions(&rows(&[
        &["A", "T1", "-1", "9"],
        &["B", "T1", "x", "5"],
        &["C", "T1", "y", "5"],
    ]));
    assert_eq!(r.err().unwrap(), LoadError::MalformedRow { row: 1 });
}

#[test]
fn load_summary_expands_rows_in_order() {
    let items = load_summary(&rows(&[&["T1", "A", "B", "500"], &["T2", "C", "D", "7"]])).unwrap();
    assert_eq!(items.len(), 4);
    let got: Vec<(String, String, i64)> = items
        .iter()
        .map(|l| {
            (
                l.partial_txn.account.clone(),
                l.partial_txn.txn_id.clone(),
                l.partial_txn.amount,
            )
        })
        .collect();
    assert_eq!(
        got,
        vec![
            ("A".to_string(), "T1".to_string(), -500),
            ("B".to_string(), "T1".to_string(), 500),
            ("C".to_string(), "T2".to_string(), -7),
            ("D".to_string(), "T2".to_string(), 7),
        ]
    );
}

#[test]
fn load_summary_reports_the_first_bad_row() {
    let r = load_summary(&rows(&[&["T1", "A", "B", "500"], &["T2", "C", "D", "7.5"]]));
    assert_eq!(r.err().unwrap(), LoadError::MalformedRow { row: 1 });
}

#[test]
fn validate_summary_checks_items_in_order() {
    let idx = load_transactions(&rows(&[&["A", "T1", "-500", "500"]])).unwrap();
    let items = load_summary(&rows(&[&["T1", "A", "B", "500"]])).unwrap();
    match validate_summary(&items, &idx) {
        Err(reconcile::errors::ValidationError::MissingPosting { expected }) => {
            assert_eq!(expected.account, "B");
        }
        other => panic!("expected MissingPosting, got {:?}", other),
    }
}

#[test]
fn eq_txn_compares_account_id_and_amount_only() {
    let items = load_summary(&rows(&[&["T1", "A", "B", "500"]])).unwrap();
    let debit = &items[0].partial_txn;
    let same = Transaction::from_row(&row(&["A", "T1", "-500", "123456"])).unwrap();
    let other_account = Transaction::from_row(&row(&["Z", "T1", "-500", "0"])).unwrap();
    let other_id = Transaction::from_row(&row(&["A", "T9", "-500", "0"])).unwrap();
    let other_amount = Transaction::from_row(&row(&["A", "T1", "500", "0"])).unwrap();
    assert!(debit.eq_txn(&same));
    assert!(!debit.eq_txn(&other_account));
    assert!(!debit.eq_txn(&other_id));
    assert!(!debit.eq_txn(&other_amount));
}

#[test]
fn validate_lookup_checks_one_posting() {
    let idx = load_transactions(&rows(&[&["A", "T1", "-500", "500"]])).unwrap();
    let items = load_summary(&rows(&[&["T1", "A", "B", "500"]])).unwrap();
    assert!(reconcile::streaming::validate_lookup(&items[0], &idx).is_ok());
    match reconcile::streaming::validate_lookup(&items[1], &idx) {
        Err(reconcile::errors::ValidationError::MissingPosting { expected }) => {
            assert_eq!(expected.account, "B");
            assert_eq!(expected.amount, 500);
        }
        other => panic!("expected MissingPosting, got {:?}", other),
    }
}

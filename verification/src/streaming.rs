//! The streaming strategy: build the ledger index first, then take the
//! summary one row at a time, expanding each transfer and checking its
//! debit and credit against the index before the next row is even decoded.
//! Nothing beyond the current row is materialized, and the run's outcome is
//! exactly [`streamed_outcome`] of the two inputs.
//!
//! Once built, the index is only read; per-row work shares nothing else, so
//! rows could be checked concurrently without locks, with the lowest row
//! index breaking ties to keep the reported error deterministic.

use vstd::prelude::*;
use crate::errors::{LoadError, ValidationError, ValidationErrorView};
use crate::index::TxnIndex;
use crate::outcome::{check_one, streamed_from, streamed_outcome};
use crate::owned::load_transactions;
use crate::records::{FromRow, PartialTxn, PartialTxnLookup, Transaction, TxnSummary};

verus! {

/// Check one derived posting against the index: `Ok` when the expectation
/// is settled, `MissingPosting` when its key is absent, `AmountMismatch`
/// when the posting found under its key differs in account, transaction id
/// or amount.
pub fn validate_lookup(txn_lookup: &PartialTxnLookup, txns: &TxnIndex) -> (r: Result<
    (),
    ValidationError,
>)
    ensures
        r is Ok <==> check_one(txn_lookup@, txns@) is None,
        r matches Err(e) ==> check_one(txn_lookup@, txns@) == Some(e@),
{
    let expected = PartialTxn {
        account: txn_lookup.partial_txn.account.clone(),
        txn_id: txn_lookup.partial_txn.txn_id.clone(),
        amount: txn_lookup.partial_txn.amount,
    };
    match txns.get(&txn_lookup.key) {
        Some(txn) => {
            if !txn_lookup.partial_txn.eq_txn(txn) {
                let found = Transaction {
                    account: txn.account.clone(),
                    txn_id: txn.txn_id.clone(),
                    amount: txn.amount,
                    balance: txn.balance,
                };
                return Err(ValidationError::AmountMismatch { expected, found });
            }
        },
        None => {
            return Err(ValidationError::MissingPosting { expected });
        },
    }
    Ok(())
}

/// Validate a summary input against a ledger input, streaming the summary:
/// the run returns exactly [`streamed_outcome`] of the two inputs. A
/// malformed ledger row is reported first; after that the summary rows are
/// checked strictly in order, each row's debit before its credit, and the
/// first malformed row or failing posting ends the run.
pub fn validate(summary_rows: &Vec<Vec<String>>, txn_rows: &Vec<Vec<String>>) -> (r: Result<
    (),
    ValidationError,
>)
    ensures
        r is Ok <==> streamed_outcome(summary_rows.deep_view(), txn_rows.deep_view()) is Ok,
        r matches Err(e) ==> streamed_outcome(summary_rows.deep_view(), txn_rows.deep_view())
            == Result::<(), ValidationErrorView>::Err(e@),
{
    let ghost sdv = summary_rows.deep_view();
    let txns = match load_transactions(txn_rows) {
        Ok(t) => t,
        Err(e) => {
            return Err(ValidationError::Load { err: e });
        },
    };
    let ghost m = txns@;
    let mut i: usize = 0;
    while i < summary_rows.len()
        invariant
            i <= summary_rows@.len(),
            sdv == summary_rows.deep_view(),
            sdv.len() == summary_rows@.len(),
            txns@ == m,
            streamed_outcome(sdv, txn_rows.deep_view()) == streamed_from(sdv, m, 0),
            streamed_from(sdv, m, 0) == streamed_from(sdv, m, i as int),
        decreases summary_rows@.len() - i,
    {
        match TxnSummary::from_row(&summary_rows[i]) {
            Some(s) => {
                let ghost sv = s@;
                proof {
                    assert(summary_rows[i as int].deep_view() == sdv[i as int]);
                }
                let mut pair = s.partial_txns();
                let credit = pair.pop().unwrap();
                let debit = pair.pop().unwrap();
                if let Err(e) = validate_lookup(&debit, &txns) {
                    return Err(e);
                }
                if let Err(e) = validate_lookup(&credit, &txns) {
                    return Err(e);
                }
                proof {
                    assert(streamed_from(sdv, m, i as int) == streamed_from(sdv, m, i + 1));
                }
            },
            None => {
                proof {
                    assert(summary_rows[i as int].deep_view() == sdv[i as int]);
                }
                return Err(ValidationError::Load { err: LoadError::MalformedRow { row: i } });
            },
        }
        i = i + 1;
    }
    Ok(())
}

} // verus!

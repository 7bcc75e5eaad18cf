//! The materializing strategy: load the whole ledger into an index, expand
//! the whole summary into owned derived postings, then check every derived
//! posting in order. Each phase fails fast on its own first error, so the
//! run's outcome is exactly [`phased_outcome`] of the two inputs.

use vstd::prelude::*;
use crate::errors::{LoadError, ValidationError, ValidationErrorView};
use crate::index::TxnIndex;
use crate::outcome::{
    all_rows_ok, check_one, expand_summaries, first_bad_row, first_error, ledger_map,
    ledger_ok_fn, lemma_expand_summaries_snoc, lemma_first_bad_row_is, lemma_first_error_at,
    lemma_first_error_none, lemma_ledger_map_empty, lemma_ledger_map_snoc,
    lemma_summaries_of_rows_snoc, phased_outcome, summaries_of_rows, summary_ok_fn,
};
use crate::records::{
    ledger_row_ok, summary_row_ok, FromRow, PartialTxn, PartialTxnLookup, Transaction, TxnSummary,
};

verus! {

/// Load a whole ledger input into an index, one posting per row, a later
/// row overwriting an earlier one under the same key. The first malformed
/// row fails the load; no partial index comes back.
pub fn load_transactions(rows: &Vec<Vec<String>>) -> (r: Result<TxnIndex, LoadError>)
    ensures
        r matches Ok(idx) ==> all_rows_ok(rows.deep_view(), ledger_ok_fn()) && idx@ == ledger_map(
            rows.deep_view(),
        ),
        r matches Err(e) ==> !all_rows_ok(rows.deep_view(), ledger_ok_fn()) && e
            == (LoadError::MalformedRow {
            row: first_bad_row(rows.deep_view(), ledger_ok_fn()) as usize,
        }),
{
    let ghost dv = rows.deep_view();
    let mut idx = TxnIndex::new();
    proof {
        lemma_ledger_map_empty(dv);
    }
    let mut i: usize = 0;
    while i < rows.len()
        invariant
            i <= rows@.len(),
            dv == rows.deep_view(),
            dv.len() == rows@.len(),
            forall|j: int| 0 <= j < i ==> ledger_row_ok(#[trigger] dv[j]),
            idx@ == ledger_map(dv.take(i as int)),
        decreases rows@.len() - i,
    {
        match Transaction::from_row(&rows[i]) {
            Some(t) => {
                proof {
                    assert(rows[i as int].deep_view() == dv[i as int]);
                    lemma_ledger_map_snoc(dv, i as int);
                }
                idx.insert(t);
            },
            None => {
                proof {
                    assert(rows[i as int].deep_view() == dv[i as int]);
                    lemma_first_bad_row_is(dv, ledger_ok_fn(), i as int);
                }
                return Err(LoadError::MalformedRow { row: i });
            },
        }
        i = i + 1;
    }
    proof {
        assert(dv.take(dv.len() as int) =~= dv);
    }
    Ok(idx)
}

/// Expand a whole summary input into derived postings: for each row, in
/// order, the debit expectation and then the credit expectation. The first
/// malformed row fails the load; no partial expansion comes back.
pub fn load_summary(rows: &Vec<Vec<String>>) -> (r: Result<Vec<PartialTxnLookup>, LoadError>)
    ensures
        r matches Ok(items) ==> all_rows_ok(rows.deep_view(), summary_ok_fn())
            && items.deep_view() == expand_summaries(summaries_of_rows(rows.deep_view())),
        r matches Err(e) ==> !all_rows_ok(rows.deep_view(), summary_ok_fn()) && e
            == (LoadError::MalformedRow {
            row: first_bad_row(rows.deep_view(), summary_ok_fn()) as usize,
        }),
{
    let ghost dv = rows.deep_view();
    let mut res: Vec<PartialTxnLookup> = Vec::new();
    proof {
        assert(summaries_of_rows(dv.take(0)) =~= Seq::<crate::records::TxnSummaryView>::empty());
        assert(res.deep_view() =~= expand_summaries(summaries_of_rows(dv.take(0))));
    }
    let mut i: usize = 0;
    while i < rows.len()
        invariant
            i <= rows@.len(),
            dv == rows.deep_view(),
            dv.len() == rows@.len(),
            forall|j: int| 0 <= j < i ==> summary_row_ok(#[trigger] dv[j]),
            res.deep_view() == expand_summaries(summaries_of_rows(dv.take(i as int))),
        decreases rows@.len() - i,
    {
        match TxnSummary::from_row(&rows[i]) {
            Some(s) => {
                let ghost sv = s@;
                proof {
                    assert(rows[i as int].deep_view() == dv[i as int]);
                }
                let mut pair = s.partial_txns();
                let credit = pair.pop().unwrap();
                let debit = pair.pop().unwrap();
                let ghost before = res.deep_view();
                res.push(debit);
                res.push(credit);
                proof {
                    assert(res.deep_view() =~= before + seq![sv.debit_lookup(), sv.credit_lookup()]);
                    lemma_expand_summaries_snoc(summaries_of_rows(dv.take(i as int)), sv);
                    lemma_summaries_of_rows_snoc(dv, i as int);
                }
            },
            None => {
                proof {
                    assert(rows[i as int].deep_view() == dv[i as int]);
                    lemma_first_bad_row_is(dv, summary_ok_fn(), i as int);
                }
                return Err(LoadError::MalformedRow { row: i });
            },
        }
        i = i + 1;
    }
    proof {
        assert(dv.take(dv.len() as int) =~= dv);
    }
    Ok(res)
}

/// Check every derived posting, in order, against the finished index. The
/// result is `Ok` exactly when every expectation is settled; otherwise it
/// is the error of the lowest-indexed failing posting: `MissingPosting`
/// where its key is absent, `AmountMismatch` where the posting found under
/// its key differs in account, transaction id or amount.
pub fn validate_summary(summary_items: &Vec<PartialTxnLookup>, txns: &TxnIndex) -> (r: Result<
    (),
    ValidationError,
>)
    ensures
        r is Ok <==> first_error(summary_items.deep_view(), txns@) is None,
        r matches Err(e) ==> first_error(summary_items.deep_view(), txns@) == Some(e@),
{
    let ghost vs = summary_items.deep_view();
    let mut i: usize = 0;
    while i < summary_items.len()
        invariant
            i <= summary_items@.len(),
            vs == summary_items.deep_view(),
            vs.len() == summary_items@.len(),
            forall|j: int| 0 <= j < i ==> check_one(#[trigger] vs[j], txns@) is None,
        decreases summary_items@.len() - i,
    {
        let lookup = &summary_items[i];
        proof {
            assert(lookup.deep_view() == vs[i as int]);
        }
        match txns.get(&lookup.key) {
            Some(txn) => {
                if !lookup.partial_txn.eq_txn(txn) {
                    let expected = PartialTxn {
                        account: lookup.partial_txn.account.clone(),
                        txn_id: lookup.partial_txn.txn_id.clone(),
                        amount: lookup.partial_txn.amount,
                    };
                    let found = Transaction {
                        account: txn.account.clone(),
                        txn_id: txn.txn_id.clone(),
                        amount: txn.amount,
                        balance: txn.balance,
                    };
                    proof {
                        lemma_first_error_at(vs, txns@, i as int);
                    }
                    return Err(ValidationError::AmountMismatch { expected, found });
                }
            },
            None => {
                let expected = PartialTxn {
                    account: lookup.partial_txn.account.clone(),
                    txn_id: lookup.partial_txn.txn_id.clone(),
                    amount: lookup.partial_txn.amount,
                };
                proof {
                    lemma_first_error_at(vs, txns@, i as int);
                }
                return Err(ValidationError::MissingPosting { expected });
            },
        }
        i = i + 1;
    }
    proof {
        lemma_first_error_none(vs, txns@);
    }
    Ok(())
}

/// Validate a summary input against a ledger input, loading each of them
/// completely before any checking: the run returns exactly
/// [`phased_outcome`] of the two inputs. A malformed ledger row is reported
/// first, then a malformed summary row, then the lowest-indexed failing
/// derived posting.
pub fn validate(summary_rows: &Vec<Vec<String>>, txn_rows: &Vec<Vec<String>>) -> (r: Result<
    (),
    ValidationError,
>)
    ensures
        r is Ok <==> phased_outcome(summary_rows.deep_view(), txn_rows.deep_view()) is Ok,
        r matches Err(e) ==> phased_outcome(summary_rows.deep_view(), txn_rows.deep_view())
            == Result::<(), ValidationErrorView>::Err(e@),
{
    let txns = match load_transactions(txn_rows) {
        Ok(t) => t,
        Err(e) => {
            return Err(ValidationError::Load { err: e });
        },
    };
    let items = match load_summary(summary_rows) {
        Ok(it) => it,
        Err(e) => {
            return Err(ValidationError::Load { err: e });
        },
    };
    match validate_summary(&items, &txns) {
        Ok(()) => Ok(()),
        Err(e) => Err(e),
    }
}

} // verus!

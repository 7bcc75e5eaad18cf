//! The guarantees the reconciliation gives as a whole, proved over the same
//! spec functions the validation functions are specified with.
//!
//! The statements quantify over decoded values (transfers and postings)
//! rather than raw rows: every validation path first decodes rows into
//! these values, and the loaders' contracts pin that decoding down.

use vstd::prelude::*;
use crate::errors::ValidationErrorView;
use crate::index::{
    lemma_seq_to_map_absent, lemma_seq_to_map_contains_key, lemma_seq_to_map_found, seq_to_map,
};
use crate::outcome::{
    all_rows_ok, check_one, expand_summaries, first_error, ledger_map, ledger_ok_fn,
    ledger_txns_of_rows,
    lemma_expand_summaries_index, lemma_expand_summaries_len, lemma_first_error_at,
    lemma_first_error_none, phased_outcome, streamed_from, streamed_outcome, summaries_of_rows,
    summary_ok_fn,
};
use crate::records::{
    summary_of_row, summary_row_ok, PartialTxnLookupView, TransactionView, TxnSummaryView,
};

verus! {

/// No two derived postings look up the same key.
pub open spec fn distinct_lookup_keys(items: Seq<PartialTxnLookupView>) -> bool {
    forall|i: int, j: int|
        0 <= i < j < items.len() ==> (#[trigger] items[i].key) != (#[trigger] items[j].key)
}

/// No two ledger postings carry the same key.
pub open spec fn distinct_txn_keys(ts: Seq<TransactionView>) -> bool {
    forall|i: int, j: int|
        0 <= i < j < ts.len() ==> (#[trigger] ts[i].key()) != (#[trigger] ts[j].key())
}

/// The ledger posting that exactly settles derived posting `k` of the
/// expansion of `svs`: the debit row of transfer `k / 2` when `k` is even,
/// its credit row when `k` is odd, with `balances[k]` as its balance.
pub open spec fn synth_posting(
    svs: Seq<TxnSummaryView>,
    balances: Seq<int>,
    k: int,
) -> TransactionView {
    let i = k / 2;
    if k % 2 == 0 {
        TransactionView {
            account: svs[i].from,
            txn_id: svs[i].id,
            amount: -svs[i].amount,
            balance: balances[k],
        }
    } else {
        TransactionView {
            account: svs[i].to,
            txn_id: svs[i].id,
            amount: svs[i].amount,
            balance: balances[k],
        }
    }
}

/// A ledger freshly synthesized to match `svs`: one row per derived
/// posting, in expansion order, with arbitrary balances.
pub open spec fn synth_ledger(
    svs: Seq<TxnSummaryView>,
    balances: Seq<int>,
) -> Seq<TransactionView> {
    Seq::new(2 * svs.len(), |k: int| synth_posting(svs, balances, k))
}

/// Row `k` of the synthesized ledger carries the key of derived posting `k`
/// and settles it.
proof fn lemma_synth_settles(svs: Seq<TxnSummaryView>, balances: Seq<int>, k: int)
    requires
        0 <= k < 2 * svs.len(),
    ensures
        synth_ledger(svs, balances)[k].key() == expand_summaries(svs)[k].key,
        expand_summaries(svs)[k].partial_txn.matches_txn(synth_ledger(svs, balances)[k]),
{
    lemma_expand_summaries_len(svs);
    let i = k / 2;
    lemma_expand_summaries_index(svs, i);
    if k % 2 == 0 {
        assert(k == 2 * i);
    } else {
        assert(k == 2 * i + 1);
    }
}

/// Round trip: expanding any transfers and synthesizing the matching
/// ledger yields a validation with no error, provided no two derived
/// postings collide on a key (a collision would make the synthesized rows
/// overwrite one another in the index).
pub proof fn lemma_round_trip(svs: Seq<TxnSummaryView>, balances: Seq<int>)
    requires
        distinct_lookup_keys(expand_summaries(svs)),
    ensures
        first_error(expand_summaries(svs), seq_to_map(synth_ledger(svs, balances))) is None,
{
    let items = expand_summaries(svs);
    let ts = synth_ledger(svs, balances);
    let m = seq_to_map(ts);
    lemma_expand_summaries_len(svs);
    assert forall|k: int| 0 <= k < items.len() implies check_one(
        #[trigger] items[k],
        m,
    ) is None by {
        lemma_synth_settles(svs, balances, k);
        assert forall|l: int| k < l < ts.len() implies (#[trigger] ts[l].key()) != items[k].key by {
            lemma_synth_settles(svs, balances, l);
        }
        lemma_seq_to_map_found(ts, items[k].key, k);
    }
    lemma_first_error_none(items, m);
}

/// Missing-posting detection: take the synthesized ledger of
/// [`lemma_round_trip`] and drop any single row, and validation fails with
/// `MissingPosting` naming exactly the derived posting whose row is gone.
pub proof fn lemma_missing_posting(svs: Seq<TxnSummaryView>, balances: Seq<int>, j: int)
    requires
        distinct_lookup_keys(expand_summaries(svs)),
        0 <= j < 2 * svs.len(),
    ensures
        first_error(expand_summaries(svs), seq_to_map(synth_ledger(svs, balances).remove(j)))
            == Some(
            ValidationErrorView::MissingPosting { expected: expand_summaries(svs)[j].partial_txn },
        ),
{
    let items = expand_summaries(svs);
    let ts = synth_ledger(svs, balances);
    let ts2 = ts.remove(j);
    let m = seq_to_map(ts2);
    lemma_expand_summaries_len(svs);
    assert(forall|l: int| 0 <= l < j ==> #[trigger] ts2[l] == ts[l]);
    assert(forall|l: int| j <= l < ts2.len() ==> #[trigger] ts2[l] == ts[l + 1]);
    assert forall|k: int| 0 <= k < j implies check_one(#[trigger] items[k], m) is None by {
        lemma_synth_settles(svs, balances, k);
        assert forall|l: int| k < l < ts2.len() implies (#[trigger] ts2[l].key())
            != items[k].key by {
            if l < j {
                lemma_synth_settles(svs, balances, l);
            } else {
                lemma_synth_settles(svs, balances, l + 1);
            }
        }
        lemma_seq_to_map_found(ts2, items[k].key, k);
    }
    assert forall|l: int| 0 <= l < ts2.len() implies (#[trigger] ts2[l].key()) != items[j].key by {
        if l < j {
            lemma_synth_settles(svs, balances, l);
        } else {
            lemma_synth_settles(svs, balances, l + 1);
        }
    }
    lemma_seq_to_map_absent(ts2, items[j].key);
    lemma_first_error_at(items, m, j);
}

/// Amount-mismatch detection: take the synthesized ledger of
/// [`lemma_round_trip`] and perturb any single row's amount by any nonzero
/// delta, and validation fails with `AmountMismatch` naming the original
/// expectation and the perturbed posting found in its place.
pub proof fn lemma_amount_mismatch(svs: Seq<TxnSummaryView>, balances: Seq<int>, j: int, delta: int)
    requires
        distinct_lookup_keys(expand_summaries(svs)),
        0 <= j < 2 * svs.len(),
        delta != 0,
    ensures
        ({
            let items = expand_summaries(svs);
            let ts = synth_ledger(svs, balances);
            let found = TransactionView {
                account: ts[j].account,
                txn_id: ts[j].txn_id,
                amount: ts[j].amount + delta,
                balance: ts[j].balance,
            };
            first_error(items, seq_to_map(ts.update(j, found))) == Some(
                ValidationErrorView::AmountMismatch {
                    expected: items[j].partial_txn,
                    found: found,
                },
            )
        }),
{
    let items = expand_summaries(svs);
    let ts = synth_ledger(svs, balances);
    let found = TransactionView {
        account: ts[j].account,
        txn_id: ts[j].txn_id,
        amount: ts[j].amount + delta,
        balance: ts[j].balance,
    };
    let ts2 = ts.update(j, found);
    let m = seq_to_map(ts2);
    lemma_expand_summaries_len(svs);
    lemma_synth_settles(svs, balances, j);
    assert(found.key() == ts[j].key());
    assert forall|k: int| 0 <= k < j implies check_one(#[trigger] items[k], m) is None by {
        lemma_synth_settles(svs, balances, k);
        assert forall|l: int| k < l < ts2.len() implies (#[trigger] ts2[l].key())
            != items[k].key by {
            lemma_synth_settles(svs, balances, l);
        }
        lemma_seq_to_map_found(ts2, items[k].key, k);
    }
    assert forall|l: int| j < l < ts2.len() implies (#[trigger] ts2[l].key()) != items[j].key by {
        lemma_synth_settles(svs, balances, l);
    }
    lemma_seq_to_map_found(ts2, items[j].key, j);
    lemma_first_error_at(items, m, j);
}

/// Order independence: two ledgers holding the same postings in any order
/// induce the same index, so checking any derived postings against them
/// gives the same outcome. Without duplicate keys only: under a repeated
/// key the index keeps whichever colliding posting comes last, and that
/// depends on the order.
pub proof fn lemma_order_independence(
    items: Seq<PartialTxnLookupView>,
    l1: Seq<TransactionView>,
    l2: Seq<TransactionView>,
)
    requires
        l1.to_multiset() == l2.to_multiset(),
        distinct_txn_keys(l1),
    ensures
        seq_to_map(l1) == seq_to_map(l2),
        first_error(items, seq_to_map(l1)) == first_error(items, seq_to_map(l2)),
{
    broadcast use vstd::seq_lib::group_to_multiset_ensures;

    assert(l1.no_duplicates()) by {
        assert forall|i: int, j: int|
            0 <= i < l1.len() && 0 <= j < l1.len() && i != j implies l1[i] != l1[j] by {
            if i < j {
                assert(l1[i].key() != l1[j].key());
            } else {
                assert(l1[j].key() != l1[i].key());
            }
        }
    }
    l1.lemma_multiset_has_no_duplicates();
    l2.lemma_multiset_has_no_duplicates_conv();
    assert forall|i: int, j: int| 0 <= i < j < l2.len() implies (#[trigger] l2[i].key())
        != (#[trigger] l2[j].key()) by {
        if l2[i].key() == l2[j].key() {
            assert(l2[i] != l2[j]);
            assert(l1.contains(l2[i])) by {
                assert(l2.contains(l2[i]));
                assert(l2.to_multiset().count(l2[i]) > 0);
            }
            assert(l1.contains(l2[j])) by {
                assert(l2.contains(l2[j]));
                assert(l2.to_multiset().count(l2[j]) > 0);
            }
            let a = choose|a: int| 0 <= a < l1.len() && l1[a] == l2[i];
            let b = choose|b: int| 0 <= b < l1.len() && l1[b] == l2[j];
            if a < b {
                assert(l1[a].key() != l1[b].key());
            } else {
                assert(l1[b].key() != l1[a].key());
            }
        }
    }
    assert forall|k: (Seq<char>, Seq<char>)| #[trigger]
        seq_to_map(l1).contains_key(k) implies seq_to_map(l2).contains_key(k) && seq_to_map(l2)[k]
        == seq_to_map(l1)[k] by {
        lemma_seq_to_map_contains_key(l1, k);
        let i = choose|i: int| 0 <= i < l1.len() && l1[i].key() == k;
        assert(l2.contains(l1[i])) by {
            assert(l1.contains(l1[i]));
            assert(l1.to_multiset().count(l1[i]) > 0);
        }
        let i2 = choose|i2: int| 0 <= i2 < l2.len() && l2[i2] == l1[i];
        lemma_seq_to_map_found(l1, k, i);
        lemma_seq_to_map_found(l2, k, i2);
    }
    assert forall|k: (Seq<char>, Seq<char>)| #[trigger]
        seq_to_map(l2).contains_key(k) implies seq_to_map(l1).contains_key(k) by {
        lemma_seq_to_map_contains_key(l2, k);
        let i2 = choose|i2: int| 0 <= i2 < l2.len() && l2[i2].key() == k;
        assert(l1.contains(l2[i2])) by {
            assert(l2.contains(l2[i2]));
            assert(l2.to_multiset().count(l2[i2]) > 0);
        }
        let i = choose|i: int| 0 <= i < l1.len() && l1[i] == l2[i2];
        lemma_seq_to_map_found(l1, k, i);
    }
    assert(seq_to_map(l1) =~= seq_to_map(l2));
}

/// From summary row `k` on, streaming a well-formed summary returns
/// exactly the first error of its remaining expansion.
proof fn lemma_streamed_matches_first_error(
    s_rows: Seq<Seq<Seq<char>>>,
    m: Map<(Seq<char>, Seq<char>), TransactionView>,
    k: int,
)
    requires
        all_rows_ok(s_rows, summary_ok_fn()),
        0 <= k <= s_rows.len(),
    ensures
        streamed_from(s_rows, m, k) == (match first_error(
            expand_summaries(summaries_of_rows(s_rows).skip(k)),
            m,
        ) {
            Some(e) => Result::<(), ValidationErrorView>::Err(e),
            None => Result::<(), ValidationErrorView>::Ok(()),
        }),
    decreases s_rows.len() - k,
{
    let svs = summaries_of_rows(s_rows);
    if k == s_rows.len() {
        assert(svs.skip(k) =~= Seq::<TxnSummaryView>::empty());
        assert(expand_summaries(Seq::<TxnSummaryView>::empty())
            == Seq::<PartialTxnLookupView>::empty());
        assert(first_error(Seq::<PartialTxnLookupView>::empty(), m) is None);
    } else {
        assert((summary_ok_fn())(s_rows[k]));
        assert(summary_row_ok(s_rows[k]));
        let sv = summary_of_row(s_rows[k]);
        let rest = svs.skip(k);
        assert(rest[0] == sv);
        assert(rest.drop_first() =~= svs.skip(k + 1));
        let tail = expand_summaries(svs.skip(k + 1));
        let items = expand_summaries(rest);
        assert(items == seq![sv.debit_lookup(), sv.credit_lookup()] + tail);
        assert(items[0] == sv.debit_lookup());
        let mid = items.drop_first();
        assert(mid =~= seq![sv.credit_lookup()] + tail);
        assert(mid[0] == sv.credit_lookup());
        assert(mid.drop_first() =~= tail);
        lemma_streamed_matches_first_error(s_rows, m, k + 1);
        if check_one(sv.debit_lookup(), m) is Some {
            assert(first_error(items, m) == check_one(items[0], m));
        } else if check_one(sv.credit_lookup(), m) is Some {
            assert(first_error(items, m) == first_error(mid, m));
            assert(first_error(mid, m) == check_one(mid[0], m));
        } else {
            assert(streamed_from(s_rows, m, k) == streamed_from(s_rows, m, k + 1));
            assert(first_error(items, m) == first_error(mid, m));
            assert(first_error(mid, m) == first_error(mid.drop_first(), m));
            assert(first_error(mid.drop_first(), m) == first_error(tail, m));
        }
    }
}

/// The two strategies agree: on inputs whose summary rows are all
/// well-formed, the phased run and the streamed run return the same
/// outcome. (With a malformed summary row they can differ by design: the
/// phased run reports it before checking anything, the streamed run only
/// on reaching it.)
pub proof fn lemma_strategies_agree(s_rows: Seq<Seq<Seq<char>>>, l_rows: Seq<Seq<Seq<char>>>)
    requires
        all_rows_ok(s_rows, summary_ok_fn()),
    ensures
        phased_outcome(s_rows, l_rows) == streamed_outcome(s_rows, l_rows),
{
    if all_rows_ok(l_rows, ledger_ok_fn()) {
        lemma_streamed_matches_first_error(s_rows, ledger_map(l_rows), 0);
        assert(summaries_of_rows(s_rows).skip(0) =~= summaries_of_rows(s_rows));
    }
}

/// An empty summary validates vacuously: against any ledger whose rows are
/// well-formed, both strategies succeed, there being no expectation to
/// check.
pub proof fn lemma_empty_summary_vacuous(l_rows: Seq<Seq<Seq<char>>>)
    requires
        all_rows_ok(l_rows, ledger_ok_fn()),
    ensures
        streamed_outcome(Seq::<Seq<Seq<char>>>::empty(), l_rows) is Ok,
        phased_outcome(Seq::<Seq<Seq<char>>>::empty(), l_rows) is Ok,
{
    let none = Seq::<Seq<Seq<char>>>::empty();
    assert(summaries_of_rows(none) =~= Seq::<TxnSummaryView>::empty());
    assert(expand_summaries(Seq::<TxnSummaryView>::empty())
        == Seq::<PartialTxnLookupView>::empty());
    assert(first_error(Seq::<PartialTxnLookupView>::empty(), ledger_map(l_rows)) is None);
}

/// Order independence for whole runs: permuting the ledger rows before the
/// index is built never changes the outcome of either strategy, given
/// well-formed rows and no duplicate keys. (Under a repeated key the index
/// keeps whichever colliding posting comes last, which does depend on the
/// order.)
pub proof fn lemma_row_order_independence(
    s_rows: Seq<Seq<Seq<char>>>,
    l1_rows: Seq<Seq<Seq<char>>>,
    l2_rows: Seq<Seq<Seq<char>>>,
)
    requires
        l1_rows.to_multiset() == l2_rows.to_multiset(),
        all_rows_ok(l1_rows, ledger_ok_fn()),
        distinct_txn_keys(ledger_txns_of_rows(l1_rows)),
    ensures
        streamed_outcome(s_rows, l1_rows) == streamed_outcome(s_rows, l2_rows),
        phased_outcome(s_rows, l1_rows) == phased_outcome(s_rows, l2_rows),
{
    broadcast use vstd::seq_lib::group_to_multiset_ensures;

    let t1 = ledger_txns_of_rows(l1_rows);
    let t2 = ledger_txns_of_rows(l2_rows);
    assert(l1_rows.no_duplicates()) by {
        assert forall|i: int, j: int|
            0 <= i < l1_rows.len() && 0 <= j < l1_rows.len() && i != j implies l1_rows[i]
            != l1_rows[j] by {
            if l1_rows[i] == l1_rows[j] {
                assert(t1[i].key() == t1[j].key());
            }
        }
    }
    l1_rows.lemma_multiset_has_no_duplicates();
    l2_rows.lemma_multiset_has_no_duplicates_conv();
    assert forall|j: int| 0 <= j < l2_rows.len() implies (ledger_ok_fn())(
        #[trigger] l2_rows[j],
    ) by {
        assert(l1_rows.contains(l2_rows[j])) by {
            assert(l2_rows.contains(l2_rows[j]));
            assert(l2_rows.to_multiset().count(l2_rows[j]) > 0);
        }
        let i = choose|i: int| 0 <= i < l1_rows.len() && l1_rows[i] == l2_rows[j];
        assert((ledger_ok_fn())(l1_rows[i]));
    }
    assert(all_rows_ok(l2_rows, ledger_ok_fn()));
    assert forall|i: int, j: int| 0 <= i < j < l2_rows.len() implies (#[trigger] t2[i].key())
        != (#[trigger] t2[j].key()) by {
        if t2[i].key() == t2[j].key() {
            assert(l2_rows[i] != l2_rows[j]);
            assert(l1_rows.contains(l2_rows[i])) by {
                assert(l2_rows.contains(l2_rows[i]));
                assert(l2_rows.to_multiset().count(l2_rows[i]) > 0);
            }
            assert(l1_rows.contains(l2_rows[j])) by {
                assert(l2_rows.contains(l2_rows[j]));
                assert(l2_rows.to_multiset().count(l2_rows[j]) > 0);
            }
            let a = choose|a: int| 0 <= a < l1_rows.len() && l1_rows[a] == l2_rows[i];
            let b = choose|b: int| 0 <= b < l1_rows.len() && l1_rows[b] == l2_rows[j];
            assert(a != b);
            assert(t1[a].key() == t2[i].key());
            assert(t1[b].key() == t2[j].key());
            if a < b {
                assert(t1[a].key() != t1[b].key());
            } else {
                assert(t1[b].key() != t1[a].key());
            }
        }
    }
    assert forall|k: (Seq<char>, Seq<char>)| #[trigger]
        seq_to_map(t1).contains_key(k) implies seq_to_map(t2).contains_key(k) && seq_to_map(t2)[k]
        == seq_to_map(t1)[k] by {
        lemma_seq_to_map_contains_key(t1, k);
        let i = choose|i: int| 0 <= i < t1.len() && t1[i].key() == k;
        assert(l2_rows.contains(l1_rows[i])) by {
            assert(l1_rows.contains(l1_rows[i]));
            assert(l1_rows.to_multiset().count(l1_rows[i]) > 0);
        }
        let i2 = choose|i2: int| 0 <= i2 < l2_rows.len() && l2_rows[i2] == l1_rows[i];
        assert(t2[i2] == t1[i]);
        lemma_seq_to_map_found(t1, k, i);
        lemma_seq_to_map_found(t2, k, i2);
    }
    assert forall|k: (Seq<char>, Seq<char>)| #[trigger]
        seq_to_map(t2).contains_key(k) implies seq_to_map(t1).contains_key(k) by {
        lemma_seq_to_map_contains_key(t2, k);
        let i2 = choose|i2: int| 0 <= i2 < t2.len() && t2[i2].key() == k;
        assert(l1_rows.contains(l2_rows[i2])) by {
            assert(l2_rows.contains(l2_rows[i2]));
            assert(l2_rows.to_multiset().count(l2_rows[i2]) > 0);
        }
        let i = choose|i: int| 0 <= i < l1_rows.len() && l1_rows[i] == l2_rows[i2];
        assert(t1[i] == t2[i2]);
        lemma_seq_to_map_found(t1, k, i);
    }
    assert(seq_to_map(t1) =~= seq_to_map(t2));
    assert(ledger_map(l1_rows) == ledger_map(l2_rows));
}

/// Both expectations of one transfer are settled by the index.
pub open spec fn row_checks_out(
    s: TxnSummaryView,
    m: Map<(Seq<char>, Seq<char>), TransactionView>,
) -> bool {
    check_one(s.debit_lookup(), m) is None && check_one(s.credit_lookup(), m) is None
}

/// Fail-fast determinism: however many transfers fail, the reported error
/// belongs to the lowest-indexed summary row among them, and to its debit
/// side where both of that row's expectations fail.
pub proof fn lemma_fail_fast_lowest_row(
    svs: Seq<TxnSummaryView>,
    m: Map<(Seq<char>, Seq<char>), TransactionView>,
    r: int,
)
    requires
        0 <= r < svs.len(),
        forall|q: int| 0 <= q < r ==> row_checks_out(#[trigger] svs[q], m),
        !row_checks_out(svs[r], m),
    ensures
        first_error(expand_summaries(svs), m) == (if check_one(svs[r].debit_lookup(), m) is Some {
            check_one(svs[r].debit_lookup(), m)
        } else {
            check_one(svs[r].credit_lookup(), m)
        }),
{
    let items = expand_summaries(svs);
    lemma_expand_summaries_len(svs);
    lemma_expand_summaries_index(svs, r);
    let i: int = if check_one(svs[r].debit_lookup(), m) is Some {
        2 * r
    } else {
        2 * r + 1
    };
    assert(check_one(items[i], m) is Some);
    assert forall|j: int| 0 <= j < i implies check_one(#[trigger] items[j], m) is None by {
        let q = j / 2;
        lemma_expand_summaries_index(svs, q);
        if j % 2 == 0 {
            assert(j == 2 * q);
        } else {
            assert(j == 2 * q + 1);
        }
    }
    lemma_first_error_at(items, m, i);
}

} // verus!

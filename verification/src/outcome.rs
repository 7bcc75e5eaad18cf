//! What a validation run returns, said mathematically.
//!
//! One derived posting checks out against the index, or produces an error
//! ([`check_one`]); a run reports the error of the lowest-indexed posting
//! that fails ([`first_error`]). Two whole-run outcomes are defined over raw
//! rows: the streamed one, where each summary row is expanded and checked
//! before the next row is even decoded, and the phased one, where both
//! inputs are loaded completely before any checking starts. They agree
//! whenever every summary row is well-formed.

use vstd::prelude::*;
use crate::errors::{LoadError, ValidationErrorView};
use crate::index::seq_to_map;
use crate::records::{
    ledger_row_ok, ledger_txn_of_row, summary_of_row, summary_row_ok, PartialTxnLookupView,
    TransactionView, TxnSummaryView,
};

verus! {

/// The outcome of checking one derived posting against the index: absent
/// key, value disagreement, or nothing when the expectation is settled.
pub open spec fn check_one(
    p: PartialTxnLookupView,
    m: Map<(Seq<char>, Seq<char>), TransactionView>,
) -> Option<ValidationErrorView> {
    if !m.contains_key(p.key) {
        Some(ValidationErrorView::MissingPosting { expected: p.partial_txn })
    } else if !p.partial_txn.matches_txn(m[p.key]) {
        Some(ValidationErrorView::AmountMismatch { expected: p.partial_txn, found: m[p.key] })
    } else {
        None
    }
}

/// The error of the lowest-indexed derived posting that fails, if any.
pub open spec fn first_error(
    items: Seq<PartialTxnLookupView>,
    m: Map<(Seq<char>, Seq<char>), TransactionView>,
) -> Option<ValidationErrorView>
    decreases items.len(),
{
    if items.len() == 0 {
        None
    } else if check_one(items[0], m) is Some {
        check_one(items[0], m)
    } else {
        first_error(items.drop_first(), m)
    }
}

/// There is no first error exactly when every derived posting checks out.
pub proof fn lemma_first_error_none(
    items: Seq<PartialTxnLookupView>,
    m: Map<(Seq<char>, Seq<char>), TransactionView>,
)
    ensures
        first_error(items, m) is None <==> (forall|i: int|
            0 <= i < items.len() ==> check_one(#[trigger] items[i], m) is None),
    decreases items.len(),
{
    if items.len() > 0 {
        let rest = items.drop_first();
        lemma_first_error_none(rest, m);
        if first_error(items, m) is None {
            assert forall|i: int| 0 <= i < items.len() implies check_one(
                #[trigger] items[i],
                m,
            ) is None by {
                if i > 0 {
                    assert(rest[i - 1] == items[i]);
                }
            }
        } else {
            if check_one(items[0], m) is None {
                let i = choose|i: int|
                    0 <= i < rest.len() && !(check_one(#[trigger] rest[i], m) is None);
                assert(items[i + 1] == rest[i]);
                assert(!(check_one(items[i + 1], m) is None));
            }
        }
    }
}

/// Fail-fast determinism: when the posting at index `i` fails and every
/// posting before it checks out, the run's error is exactly that posting's.
pub proof fn lemma_first_error_at(
    items: Seq<PartialTxnLookupView>,
    m: Map<(Seq<char>, Seq<char>), TransactionView>,
    i: int,
)
    requires
        0 <= i < items.len(),
        check_one(items[i], m) is Some,
        forall|j: int| 0 <= j < i ==> check_one(#[trigger] items[j], m) is None,
    ensures
        first_error(items, m) == check_one(items[i], m),
    decreases i,
{
    if i > 0 {
        assert(forall|j: int|
            0 <= j < items.drop_first().len()
                ==> #[trigger] items.drop_first()[j] == items[j + 1]);
        lemma_first_error_at(items.drop_first(), m, i - 1);
    }
}

/// The two expectations of every transfer, in order: each transfer's debit
/// first, then its credit, transfers in their given order.
pub open spec fn expand_summaries(svs: Seq<TxnSummaryView>) -> Seq<PartialTxnLookupView>
    decreases svs.len(),
{
    if svs.len() == 0 {
        Seq::empty()
    } else {
        seq![svs[0].debit_lookup(), svs[0].credit_lookup()] + expand_summaries(svs.drop_first())
    }
}

/// Expansion yields two postings per transfer.
pub proof fn lemma_expand_summaries_len(svs: Seq<TxnSummaryView>)
    ensures
        expand_summaries(svs).len() == 2 * svs.len(),
    decreases svs.len(),
{
    if svs.len() > 0 {
        lemma_expand_summaries_len(svs.drop_first());
    }
}

/// Where each transfer's expectations stand in the expansion: the debit of
/// transfer `i` at position `2 * i`, its credit right after.
pub proof fn lemma_expand_summaries_index(svs: Seq<TxnSummaryView>, i: int)
    requires
        0 <= i < svs.len(),
    ensures
        expand_summaries(svs)[2 * i] == svs[i].debit_lookup(),
        expand_summaries(svs)[2 * i + 1] == svs[i].credit_lookup(),
    decreases i,
{
    lemma_expand_summaries_len(svs.drop_first());
    if i > 0 {
        lemma_expand_summaries_index(svs.drop_first(), i - 1);
    }
}

/// Appending a transfer appends its debit and credit to the expansion.
pub proof fn lemma_expand_summaries_snoc(svs: Seq<TxnSummaryView>, s: TxnSummaryView)
    ensures
        expand_summaries(svs.push(s)) == expand_summaries(svs) + seq![
            s.debit_lookup(),
            s.credit_lookup(),
        ],
    decreases svs.len(),
{
    if svs.len() == 0 {
        assert(svs.push(s)[0] == s);
        assert(svs.push(s).drop_first() =~= Seq::<TxnSummaryView>::empty());
        assert(expand_summaries(svs.push(s)) == seq![s.debit_lookup(), s.credit_lookup()]
            + expand_summaries(Seq::<TxnSummaryView>::empty()));
        assert(expand_summaries(svs.push(s)) =~= expand_summaries(svs) + seq![
            s.debit_lookup(),
            s.credit_lookup(),
        ]);
    } else {
        assert(svs.push(s).drop_first() =~= svs.drop_first().push(s));
        lemma_expand_summaries_snoc(svs.drop_first(), s);
        assert(expand_summaries(svs.push(s)) =~= expand_summaries(svs) + seq![
            s.debit_lookup(),
            s.credit_lookup(),
        ]);
    }
}

/// The well-formedness predicate of ledger rows, as a value, so that every
/// mention of it denotes one and the same function.
pub open spec fn ledger_ok_fn() -> spec_fn(Seq<Seq<char>>) -> bool {
    |r: Seq<Seq<char>>| ledger_row_ok(r)
}

/// The well-formedness predicate of summary rows, as a value.
pub open spec fn summary_ok_fn() -> spec_fn(Seq<Seq<char>>) -> bool {
    |r: Seq<Seq<char>>| summary_row_ok(r)
}

/// The transfers a whole summary input decodes to, row by row. Meaningful
/// when every row is well-formed.
pub open spec fn summaries_of_rows(rows: Seq<Seq<Seq<char>>>) -> Seq<TxnSummaryView> {
    rows.map_values(|r: Seq<Seq<char>>| summary_of_row(r))
}

/// Every row of an input satisfies its well-formedness predicate.
pub open spec fn all_rows_ok(
    rows: Seq<Seq<Seq<char>>>,
    ok: spec_fn(Seq<Seq<char>>) -> bool,
) -> bool {
    forall|i: int| 0 <= i < rows.len() ==> ok(#[trigger] rows[i])
}

/// The index of the first row that fails its well-formedness predicate
/// (the input's length when none does).
pub open spec fn first_bad_row(
    rows: Seq<Seq<Seq<char>>>,
    ok: spec_fn(Seq<Seq<char>>) -> bool,
) -> int
    decreases rows.len(),
{
    if rows.len() == 0 {
        0
    } else if !ok(rows[0]) {
        0
    } else {
        1 + first_bad_row(rows.drop_first(), ok)
    }
}

/// An index that is bad while all before it are good is the first bad one.
pub proof fn lemma_first_bad_row_is(
    rows: Seq<Seq<Seq<char>>>,
    ok: spec_fn(Seq<Seq<char>>) -> bool,
    i: int,
)
    requires
        0 <= i < rows.len(),
        !ok(rows[i]),
        forall|j: int| 0 <= j < i ==> ok(#[trigger] rows[j]),
    ensures
        !all_rows_ok(rows, ok),
        first_bad_row(rows, ok) == i,
    decreases i,
{
    if i > 0 {
        assert(forall|j: int|
            0 <= j < rows.drop_first().len() ==> #[trigger] rows.drop_first()[j] == rows[j + 1]);
        lemma_first_bad_row_is(rows.drop_first(), ok, i - 1);
    }
}

/// The postings a whole ledger input decodes to, row by row. Meaningful
/// when every row is well-formed.
pub open spec fn ledger_txns_of_rows(rows: Seq<Seq<Seq<char>>>) -> Seq<TransactionView> {
    rows.map_values(|r: Seq<Seq<char>>| ledger_txn_of_row(r))
}

/// The map the whole ledger induces, one posting per row, later rows
/// overwriting earlier ones under a repeated key. Meaningful when every
/// row is well-formed.
pub open spec fn ledger_map(l_rows: Seq<Seq<Seq<char>>>) -> Map<
    (Seq<char>, Seq<char>),
    TransactionView,
> {
    seq_to_map(ledger_txns_of_rows(l_rows))
}

/// Taking in one more ledger row inserts its posting into the induced map.
pub proof fn lemma_ledger_map_snoc(rows: Seq<Seq<Seq<char>>>, i: int)
    requires
        0 <= i < rows.len(),
    ensures
        ledger_map(rows.take(i + 1)) == ledger_map(rows.take(i)).insert(
            ledger_txn_of_row(rows[i]).key(),
            ledger_txn_of_row(rows[i]),
        ),
{
    let prev = ledger_txns_of_rows(rows.take(i));
    assert(ledger_txns_of_rows(rows.take(i + 1)) =~= prev.push(ledger_txn_of_row(rows[i])));
    assert(prev.push(ledger_txn_of_row(rows[i])).drop_last() =~= prev);
}

/// An empty ledger induces the empty map.
pub proof fn lemma_ledger_map_empty(rows: Seq<Seq<Seq<char>>>)
    ensures
        ledger_map(rows.take(0)) == Map::<(Seq<char>, Seq<char>), TransactionView>::empty(),
{
    assert(ledger_txns_of_rows(rows.take(0)) =~= Seq::<TransactionView>::empty());
}

/// Taking in one more summary row appends its transfer to the decoding.
pub proof fn lemma_summaries_of_rows_snoc(rows: Seq<Seq<Seq<char>>>, i: int)
    requires
        0 <= i < rows.len(),
    ensures
        summaries_of_rows(rows.take(i + 1)) == summaries_of_rows(rows.take(i)).push(
            summary_of_row(rows[i]),
        ),
{
    assert(summaries_of_rows(rows.take(i + 1)) =~= summaries_of_rows(rows.take(i)).push(
        summary_of_row(rows[i]),
    ));
}

/// The streamed outcome from summary row `k` on: decode one row, check its
/// debit and then its credit against the index, and only then move to the
/// next row; the first error ends the run.
pub open spec fn streamed_from(
    s_rows: Seq<Seq<Seq<char>>>,
    m: Map<(Seq<char>, Seq<char>), TransactionView>,
    k: int,
) -> Result<(), ValidationErrorView>
    decreases s_rows.len() - k,
{
    if k < 0 || k >= s_rows.len() {
        Result::Ok(())
    } else if !summary_row_ok(s_rows[k]) {
        Result::Err(
            ValidationErrorView::Load { err: LoadError::MalformedRow { row: k as usize } },
        )
    } else if check_one(summary_of_row(s_rows[k]).debit_lookup(), m) is Some {
        Result::Err(check_one(summary_of_row(s_rows[k]).debit_lookup(), m)->0)
    } else if check_one(summary_of_row(s_rows[k]).credit_lookup(), m) is Some {
        Result::Err(check_one(summary_of_row(s_rows[k]).credit_lookup(), m)->0)
    } else {
        streamed_from(s_rows, m, k + 1)
    }
}

/// The streamed outcome of a whole run: a malformed ledger row fails the
/// run before any summary row is looked at; otherwise the summary rows are
/// streamed against the finished index.
pub open spec fn streamed_outcome(
    s_rows: Seq<Seq<Seq<char>>>,
    l_rows: Seq<Seq<Seq<char>>>,
) -> Result<(), ValidationErrorView> {
    if !all_rows_ok(l_rows, ledger_ok_fn()) {
        Result::Err(
            ValidationErrorView::Load {
                err: LoadError::MalformedRow { row: first_bad_row(l_rows, ledger_ok_fn()) as usize },
            },
        )
    } else {
        streamed_from(s_rows, ledger_map(l_rows), 0)
    }
}

/// The phased outcome of a whole run: the ledger is loaded completely, then
/// the summary is loaded completely, and only then is any derived posting
/// checked; each phase fails fast on its own first error.
pub open spec fn phased_outcome(
    s_rows: Seq<Seq<Seq<char>>>,
    l_rows: Seq<Seq<Seq<char>>>,
) -> Result<(), ValidationErrorView> {
    if !all_rows_ok(l_rows, ledger_ok_fn()) {
        Result::Err(
            ValidationErrorView::Load {
                err: LoadError::MalformedRow { row: first_bad_row(l_rows, ledger_ok_fn()) as usize },
            },
        )
    } else if !all_rows_ok(s_rows, summary_ok_fn()) {
        Result::Err(
            ValidationErrorView::Load {
                err: LoadError::MalformedRow { row: first_bad_row(s_rows, summary_ok_fn()) as usize },
            },
        )
    } else {
        match first_error(expand_summaries(summaries_of_rows(s_rows)), ledger_map(l_rows)) {
            Some(e) => Result::Err(e),
            None => Result::Ok(()),
        }
    }
}

} // verus!

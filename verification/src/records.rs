//! The record types of a reconciliation run and the decoding of raw rows
//! into them.
//!
//! A raw row is an ordered list of string fields, as a row stream hands them
//! over. A ledger row decodes to a [`Transaction`]; a summary row decodes to
//! a [`TxnSummary`], which expands into the two postings that must exist in
//! the ledger: a debit at the source account and a credit at the
//! destination, both under the transfer's id.

use vstd::prelude::*;
use crate::parse::{int_literal_value, parse_i64, parses_to_i64};

verus! {

/// The identity key of a posting: the pair (account, transaction id).
///
/// A key built from a summary row is identical in construction to the key a
/// ledger posting is indexed under, so both sides locate the same entry.
#[derive(Debug)]
pub struct TxnKey {
    pub account: String,
    pub txn_id: String,
}

impl View for TxnKey {
    type V = (Seq<char>, Seq<char>);

    open spec fn view(&self) -> (Seq<char>, Seq<char>) {
        (self.account@, self.txn_id@)
    }
}

/// The mathematical content of a [`Transaction`].
pub ghost struct TransactionView {
    pub account: Seq<char>,
    pub txn_id: Seq<char>,
    pub amount: int,
    pub balance: int,
}

impl TransactionView {
    /// The key this posting is indexed under.
    pub open spec fn key(self) -> (Seq<char>, Seq<char>) {
        (self.account, self.txn_id)
    }
}

impl DeepView for Transaction {
    type V = TransactionView;

    open spec fn deep_view(&self) -> TransactionView {
        self.view()
    }
}

impl DeepView for PartialTxn {
    type V = PartialTxnView;

    open spec fn deep_view(&self) -> PartialTxnView {
        self.view()
    }
}

impl DeepView for PartialTxnLookup {
    type V = PartialTxnLookupView;

    open spec fn deep_view(&self) -> PartialTxnLookupView {
        self.view()
    }
}

impl DeepView for TxnSummary {
    type V = TxnSummaryView;

    open spec fn deep_view(&self) -> TxnSummaryView {
        self.view()
    }
}

/// One posting of the ledger: one account-side record of a transfer.
///
/// `amount` is signed, in minor currency units. `balance` is the running
/// balance after the posting; it is carried along but never compared.
#[derive(Debug)]
pub struct Transaction {
    pub account: String,
    pub txn_id: String,
    pub amount: i64,
    pub balance: i64,
}

impl View for Transaction {
    type V = TransactionView;

    open spec fn view(&self) -> TransactionView {
        TransactionView {
            account: self.account@,
            txn_id: self.txn_id@,
            amount: self.amount as int,
            balance: self.balance as int,
        }
    }
}

/// The mathematical content of a [`PartialTxn`].
pub ghost struct PartialTxnView {
    pub account: Seq<char>,
    pub txn_id: Seq<char>,
    pub amount: int,
}

impl PartialTxnView {
    /// The key under which this expectation looks its posting up.
    pub open spec fn key(self) -> (Seq<char>, Seq<char>) {
        (self.account, self.txn_id)
    }

    /// Exact agreement with a ledger posting: account, transaction id and
    /// amount are equal; the posting's balance is never part of it.
    pub open spec fn matches_txn(self, t: TransactionView) -> bool {
        self.account == t.account && self.txn_id == t.txn_id && self.amount == t.amount
    }
}

/// One derived posting: an expectation that a transfer places on the ledger.
#[derive(Debug)]
pub struct PartialTxn {
    pub account: String,
    pub txn_id: String,
    pub amount: i64,
}

impl View for PartialTxn {
    type V = PartialTxnView;

    open spec fn view(&self) -> PartialTxnView {
        PartialTxnView { account: self.account@, txn_id: self.txn_id@, amount: self.amount as int }
    }
}

impl PartialTxn {
    /// Whether the ledger posting `other` settles this expectation: equal
    /// account, equal transaction id, equal amount.
    pub fn eq_txn(&self, other: &Transaction) -> (r: bool)
        ensures
            r == self@.matches_txn(other@),
    {
        self.account == other.account && self.txn_id == other.txn_id && self.amount
            == other.amount
    }
}

/// The mathematical content of a [`PartialTxnLookup`].
pub ghost struct PartialTxnLookupView {
    pub key: (Seq<char>, Seq<char>),
    pub partial_txn: PartialTxnView,
}

/// A derived posting together with the key it is looked up under.
#[derive(Debug)]
pub struct PartialTxnLookup {
    pub key: TxnKey,
    pub partial_txn: PartialTxn,
}

impl View for PartialTxnLookup {
    type V = PartialTxnLookupView;

    open spec fn view(&self) -> PartialTxnLookupView {
        PartialTxnLookupView { key: self.key@, partial_txn: self.partial_txn@ }
    }
}

/// The mathematical content of a [`TxnSummary`].
pub ghost struct TxnSummaryView {
    pub id: Seq<char>,
    pub from: Seq<char>,
    pub to: Seq<char>,
    pub amount: int,
}

impl TxnSummaryView {
    /// The posting this transfer must have left at the source account:
    /// the amount leaves, so it appears negated.
    pub open spec fn debit(self) -> PartialTxnView {
        PartialTxnView { account: self.from, txn_id: self.id, amount: -self.amount }
    }

    /// The posting this transfer must have left at the destination account.
    pub open spec fn credit(self) -> PartialTxnView {
        PartialTxnView { account: self.to, txn_id: self.id, amount: self.amount }
    }

    /// The debit expectation with its lookup key.
    pub open spec fn debit_lookup(self) -> PartialTxnLookupView {
        PartialTxnLookupView { key: (self.from, self.id), partial_txn: self.debit() }
    }

    /// The credit expectation with its lookup key.
    pub open spec fn credit_lookup(self) -> PartialTxnLookupView {
        PartialTxnLookupView { key: (self.to, self.id), partial_txn: self.credit() }
    }
}

/// One logical transfer as the summary records it: `amount` moves from
/// account `from` to account `to` under transaction id `id`.
#[derive(Debug)]
pub struct TxnSummary {
    pub id: String,
    pub from: String,
    pub to: String,
    pub amount: i64,
}

impl View for TxnSummary {
    type V = TxnSummaryView;

    open spec fn view(&self) -> TxnSummaryView {
        TxnSummaryView {
            id: self.id@,
            from: self.from@,
            to: self.to@,
            amount: self.amount as int,
        }
    }
}

/// A well-formed ledger row: at least the four expected fields, with the
/// amount and balance fields decoding as `i64`. Fields past the fourth are
/// ignored.
pub open spec fn ledger_row_ok(row: Seq<Seq<char>>) -> bool {
    row.len() >= 4 && parses_to_i64(row[2]) && parses_to_i64(row[3])
}

/// The posting a well-formed ledger row decodes to.
pub open spec fn ledger_txn_of_row(row: Seq<Seq<char>>) -> TransactionView {
    TransactionView {
        account: row[0],
        txn_id: row[1],
        amount: int_literal_value(row[2]),
        balance: int_literal_value(row[3]),
    }
}

/// A well-formed summary row: at least the four expected fields, with an
/// amount that decodes as `i64` and whose negation also fits an `i64` (the
/// debit side negates it). Fields past the fourth are ignored.
pub open spec fn summary_row_ok(row: Seq<Seq<char>>) -> bool {
    row.len() >= 4 && parses_to_i64(row[3]) && int_literal_value(row[3]) != i64::MIN as int
}

/// The transfer a well-formed summary row decodes to.
pub open spec fn summary_of_row(row: Seq<Seq<char>>) -> TxnSummaryView {
    TxnSummaryView { id: row[0], from: row[1], to: row[2], amount: int_literal_value(row[3]) }
}

/// Decoding one raw row into a record, or nothing where the row is
/// malformed: a required field missing or a numeric field not parsing.
pub trait FromRow where Self: Sized {
    fn from_row(row: &Vec<String>) -> Option<Self>;
}

impl FromRow for Transaction {
    /// Decode a ledger row: account, transaction id, amount, balance.
    fn from_row(row: &Vec<String>) -> (r: Option<Transaction>)
        ensures
            r is Some <==> ledger_row_ok(row.deep_view()),
            r matches Some(t) ==> t@ == ledger_txn_of_row(row.deep_view()),
    {
        if row.len() < 4 {
            return None;
        }
        let amount = match parse_i64(row[2].as_str()) {
            Some(a) => a,
            None => {
                return None;
            },
        };
        let balance = match parse_i64(row[3].as_str()) {
            Some(b) => b,
            None => {
                return None;
            },
        };
        Some(
            Transaction {
                account: row[0].clone(),
                txn_id: row[1].clone(),
                amount: amount,
                balance: balance,
            },
        )
    }
}

impl FromRow for TxnSummary {
    /// Decode a summary row: id, source account, destination account,
    /// amount. An amount whose negation does not fit an `i64` counts as
    /// malformed, since no debit posting could be derived from it.
    fn from_row(row: &Vec<String>) -> (r: Option<TxnSummary>)
        ensures
            r is Some <==> summary_row_ok(row.deep_view()),
            r matches Some(t) ==> t@ == summary_of_row(row.deep_view()),
    {
        if row.len() < 4 {
            return None;
        }
        let amount = match parse_i64(row[3].as_str()) {
            Some(a) => a,
            None => {
                return None;
            },
        };
        if amount == i64::MIN {
            return None;
        }
        Some(
            TxnSummary {
                id: row[0].clone(),
                from: row[1].clone(),
                to: row[2].clone(),
                amount: amount,
            },
        )
    }
}

impl TxnSummary {
    /// The two expectations this transfer places on the ledger, each with
    /// its lookup key: the debit at the source account first, then the
    /// credit at the destination.
    pub fn partial_txns(&self) -> (r: Vec<PartialTxnLookup>)
        requires
            self.amount != i64::MIN,
        ensures
            r@.len() == 2,
            r@[0]@ == self@.debit_lookup(),
            r@[1]@ == self@.credit_lookup(),
    {
        let debit_amount = -self.amount;
        vec![
            PartialTxnLookup {
                key: TxnKey { account: self.from.clone(), txn_id: self.id.clone() },
                partial_txn: PartialTxn {
                    account: self.from.clone(),
                    txn_id: self.id.clone(),
                    amount: debit_amount,
                },
            },
            PartialTxnLookup {
                key: TxnKey { account: self.to.clone(), txn_id: self.id.clone() },
                partial_txn: PartialTxn {
                    account: self.to.clone(),
                    txn_id: self.id.clone(),
                    amount: self.amount,
                },
            },
        ]
    }
}

} // verus!

//! Double-entry reconciliation between a transfer summary and a ledger of
//! per-account postings.
//!
//! A summary row describes one logical transfer (id, source account,
//! destination account, amount). A ledger row describes one posting
//! (account, transaction id, signed amount, running balance). Every transfer
//! implies two postings: a debit of the amount at the source account and a
//! credit at the destination, both under the transfer's id. Validation
//! builds an index of the ledger keyed by (account, transaction id) and
//! checks that both postings derived from each summary row are present and
//! match exactly.
//!
//! Row decoding from a concrete file format and all I/O stay outside this
//! crate: callers hand in rows as ordered string fields.

pub mod errors;
pub mod index;
pub mod laws;
pub mod outcome;
pub mod owned;
pub mod parse;
pub mod records;
pub mod streaming;

//! The errors a validation run can end with.
//!
//! Loading either input fails fast on the first malformed row; validation
//! fails fast on the first derived posting that is absent from the ledger
//! index or present with different values. No error is recovered from, and
//! none is aggregated: the first one aborts the run.

use vstd::prelude::*;
use crate::records::{PartialTxn, PartialTxnView, Transaction, TransactionView};

verus! {

/// Why an input could not be loaded.
#[derive(Debug, PartialEq, Eq, Structural)]
pub enum LoadError {
    /// A row is missing a required field or a numeric field fails to parse.
    /// `row` is the zero-based index of the offending row in its input.
    MalformedRow { row: usize },
    /// The underlying row stream could not be opened or read. Produced by
    /// the caller that owns the stream, never by this crate's loaders.
    SourceUnavailable,
}

/// Why a validation run failed.
#[derive(Debug)]
pub enum ValidationError {
    /// One of the two inputs could not be loaded; the wrapped error is
    /// passed on unchanged.
    Load { err: LoadError },
    /// A derived posting has no ledger entry under its key.
    MissingPosting { expected: PartialTxn },
    /// A ledger entry exists under the derived posting's key but its
    /// account, transaction id or amount differs.
    AmountMismatch { expected: PartialTxn, found: Transaction },
}

/// The mathematical content of a `ValidationError`.
pub ghost enum ValidationErrorView {
    Load { err: LoadError },
    MissingPosting { expected: PartialTxnView },
    AmountMismatch { expected: PartialTxnView, found: TransactionView },
}

impl View for ValidationError {
    type V = ValidationErrorView;

    open spec fn view(&self) -> ValidationErrorView {
        match self {
            ValidationError::Load { err } => ValidationErrorView::Load { err: *err },
            ValidationError::MissingPosting { expected } => ValidationErrorView::MissingPosting {
                expected: expected@,
            },
            ValidationError::AmountMismatch { expected, found } => {
                ValidationErrorView::AmountMismatch { expected: expected@, found: found@ }
            },
        }
    }
}

} // verus!

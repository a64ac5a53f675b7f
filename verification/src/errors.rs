//! The ledger's error taxonomy.
use vstd::prelude::*;

verus! {

/// A system-level failure of the ledger.
#[derive(Clone, Copy, PartialEq, Eq, Structural, Debug)]
pub enum Error {
    /// Storage or connectivity failure; the operation was either fully
    /// applied or fully rolled back.
    BackendError,
    /// No ledger or backend is currently available; the currency is not
    /// usable right now, nothing is corrupted.
    NotConfigured,
}

impl Error {
    /// A short human-readable description.
    pub fn message(&self) -> (r: &'static str) {
        match *self {
            Error::BackendError => "backend error",
            Error::NotConfigured => "currency is not configured",
        }
    }
}

/// Outcome of a failed transfer.
#[derive(Clone, Copy, PartialEq, Eq, Structural, Debug)]
pub enum BalanceTransferError {
    /// The giver's funds are insufficient and no override was requested;
    /// nothing was written.
    NoBalance,
    /// Any other failure.
    Other(Error),
}

impl BalanceTransferError {
    /// A short human-readable description.
    pub fn message(&self) -> (r: &'static str) {
        match *self {
            BalanceTransferError::NoBalance => "missing balance for transfer",
            BalanceTransferError::Other(e) => e.message(),
        }
    }
}

impl From<Error> for BalanceTransferError {
    fn from(value: Error) -> (r: BalanceTransferError) {
        BalanceTransferError::Other(value)
    }
}

impl vstd::std_specs::convert::FromSpecImpl<Error> for BalanceTransferError {
    open spec fn obeys_from_spec() -> bool {
        true
    }

    open spec fn from_spec(value: Error) -> BalanceTransferError {
        BalanceTransferError::Other(value)
    }
}

} // verus!

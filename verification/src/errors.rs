use vstd::prelude::*;

verus! {

/// Why a ledger operation was refused.
#[derive(Clone, Copy, Debug, PartialEq, Eq, Structural)]
pub enum TokenError {
    AlreadyInitialized,
    InvalidAmount,
    InsufficientBalance,
    InsufficientAllowance,
    NotInitialized,
    InvalidDecimals,
    OverflowError,
    InvalidRecipient,
    InvalidMetadata,
    Unauthorized,
}

} // verus!

//! The ways a transfer or a query fails.

use vstd::prelude::*;
use crate::locked::LockedSourceError;

verus! {

/// What is wrong with a request, found before anything outside the wallet is
/// asked.
#[derive(Clone, Copy, Debug, PartialEq, Eq, Structural)]
pub enum ValidationError {
    /// Neither a raw key nor an account is given to fund the transfer.
    NoFundingSource,
    /// Both a raw key and an account are given.
    TwoFundingSources,
    /// A change address to search for is given with a raw key, which has no
    /// derived keys.
    ChangeAddressWithRawKey,
    /// The bytes given as raw key are no secret key.
    InvalidSecretKey,
    /// The locked source is not a multisig lock with a time lock.
    LockedSource(LockedSourceError),
    /// The change address is not a single-key lock.
    ChangeAddress,
    /// The destination is neither a single-key lock nor a multisig lock.
    Destination,
    /// The payment is less than the smallest capacity a cell may have.
    CapacityBelowMinimum,
    /// The payment does not cover the capacity that the attached data takes.
    CapacityCannotHoldData,
    /// No key to search with is given to a listing.
    NoSearchKey,
}

/// Which of the two fee rules a transfer breaks.
#[derive(Clone, Copy, Debug, PartialEq, Eq, Structural)]
pub enum FeeViolation {
    /// The fee itself is above the ceiling.
    Fee,
    /// The change is too small for a cell of its own, and the fee with the
    /// change folded into it is above the ceiling.
    FeeWithChange,
}

/// Which part of the key material does not fit the transfer.
#[derive(Clone, Copy, Debug, PartialEq, Eq, Structural)]
pub enum Mismatch {
    /// The locked source was made neither from the primary key nor from a
    /// derived key.
    LockedSourceNotFromKeys,
    /// The change address searched for is not among the keys of the account.
    ChangeAddressNotFound,
    /// An input has no key that signs for it.
    NoSignature,
}

/// Why a transfer or a query failed.
#[derive(Clone, Debug, PartialEq, Eq)]
pub enum TransferError {
    /// The request is malformed.
    InputValidation(ValidationError),
    /// The cells found do not cover payment and fee; holds what they cover.
    InsufficientFunds(u128),
    /// The fee is above the ceiling.
    FeeExceedsCeiling(FeeViolation),
    /// The key material does not fit the request.
    ConfigurationMismatch(Mismatch),
    /// The key store failed; holds its message.
    KeyStoreFailure(String),
    /// The node could not be reached or refused; holds its message.
    TransportFailure(String),
    /// The node reports another transaction hash than the one computed here.
    ConsistencyFailure,
    /// A sum of capacities or a count is beyond what its width holds.
    CapacityOverflow,
}

} // verus!

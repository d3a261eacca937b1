//! A transfer as it is asked for, and the checks it must pass before
//! anything outside the wallet is touched.

use vstd::prelude::*;
use crate::balance::{capacity_violation, check_capacity, TransferLimits};
use crate::derive::{AddressDerivationExpander, DERIVE_CHANGE_ADDRESS_MAX_LEN};
use crate::error::ValidationError;
use crate::hash::Hash160;
use crate::key::SecretKey;
use crate::locked::{violation, LockedSourceDescriptor};
use crate::script::LockScript;

verus! {

/// A transfer as it is asked for.
#[derive(Clone, Debug, PartialEq, Eq)]
pub struct TransferRequest {
    /// The raw key that funds the transfer, where a raw key does.
    pub raw_key: Option<SecretKey>,
    /// The key hash of the account that funds the transfer, where a managed
    /// account does.
    pub account: Option<Hash160>,
    /// A locked source to spend from beside the funding key.
    pub locked_source: Option<LockScript>,
    /// The lock that is paid.
    pub destination: LockScript,
    /// The payment.
    pub capacity: u64,
    /// The fee.
    pub fee: u64,
    /// Data attached to the payment.
    pub data: Vec<u8>,
    /// Number of receiving keys of the account to search.
    pub receiving_length: u32,
    /// The last change address of the account in use. Where one is given, the
    /// keys derived of the account fund the transfer too, and the change goes
    /// to this address.
    pub change_address: Option<LockScript>,
}

/// What is wrong with a request, if anything. Exactly one of raw key and
/// account funds a transfer, and only an account has a change address to
/// search for, which is a lock over 20 bytes of key hash. The arguments of a
/// locked source must decode. The destination must be a single-key or a
/// multisig lock. The payment must be enough for a cell that holds the data.
/// The first violation in this order is the one reported.
pub open spec fn request_violation(request: TransferRequest, limits: TransferLimits) -> Option<
    ValidationError,
> {
    if request.raw_key is None && request.account is None {
        Some(ValidationError::NoFundingSource)
    } else if request.raw_key is Some && request.account is Some {
        Some(ValidationError::TwoFundingSources)
    } else if request.raw_key is Some && request.change_address is Some {
        Some(ValidationError::ChangeAddressWithRawKey)
    } else if request.change_address is Some && request.change_address.unwrap().args@.len() != 20 {
        Some(ValidationError::ChangeAddress)
    } else if request.locked_source is Some && violation(request.locked_source.unwrap().args@)
        is Some {
        Some(ValidationError::LockedSource(violation(request.locked_source.unwrap().args@).unwrap()))
    } else if !request.destination.payable() {
        Some(ValidationError::Destination)
    } else {
        capacity_violation(request.capacity, request.data@.len(), limits)
    }
}

impl TransferRequest {
    /// The expansion of the account that the request asks for: where it names
    /// a change address, the receiving keys asked for and the change keys up
    /// to that address, searched among the first ten thousand. `None` where it
    /// names no change address, or one that is no lock over a key hash.
    pub fn expander(&self) -> (out: Option<AddressDerivationExpander>)
        ensures
            out is Some <==> self.change_address is Some
                && self.change_address.unwrap().args@.len() == 20,
            out matches Some(e) ==> {
                &&& e.wf()
                &&& e.receiving() == self.receiving_length
                &&& e.change_limit() == DERIVE_CHANGE_ADDRESS_MAX_LEN
                &&& e.anchor() matches Some(target)
                &&& target@ == self.change_address.unwrap().args@
                &&& e.keys().external@.len() == 0
                &&& e.keys().change@.len() == 0
            },
    {
        match &self.change_address {
            Some(change) => match Hash160::from_slice(change.args.as_slice()) {
                Some(target) => Some(
                    AddressDerivationExpander::anchored(
                        self.receiving_length,
                        target,
                        DERIVE_CHANGE_ADDRESS_MAX_LEN,
                    ),
                ),
                None => None,
            },
            None => None,
        }
    }

    /// Checks the request.
    pub fn validate(&self, limits: &TransferLimits) -> (out: Result<(), ValidationError>)
        ensures
            out == match request_violation(*self, *limits) {
                Some(e) => Err::<(), ValidationError>(e),
                None => Ok(()),
            },
    {
        if self.raw_key.is_none() && self.account.is_none() {
            return Err(ValidationError::NoFundingSource);
        }
        if self.raw_key.is_some() && self.account.is_some() {
            return Err(ValidationError::TwoFundingSources);
        }
        match &self.change_address {
            Some(change) => {
                if self.raw_key.is_some() {
                    return Err(ValidationError::ChangeAddressWithRawKey);
                }
                if change.args.len() != 20 {
                    return Err(ValidationError::ChangeAddress);
                }
            },
            None => {},
        }
        match &self.locked_source {
            Some(locked) => {
                match LockedSourceDescriptor::decode(locked.args.as_slice()) {
                    Ok(_) => {},
                    Err(e) => {
                        return Err(ValidationError::LockedSource(e));
                    },
                }
            },
            None => {},
        }
        if !self.destination.is_payable() {
            return Err(ValidationError::Destination);
        }
        check_capacity(self.capacity, self.data.len(), limits)
    }
}

} // verus!

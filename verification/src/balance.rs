//! Balancing a transfer: what the collected cells leave over after payment
//! and fee, whether that change gets a cell of its own, and the limits that a
//! payment and a fee must keep.

use vstd::prelude::*;
use crate::error::{FeeViolation, TransferError, ValidationError};

verus! {

/// Smallest units in one coin.
pub const ONE_CKB: u64 = 100_000_000;

/// Smallest capacity of a cell under a single-key lock.
pub const MIN_SECP_CELL_CAPACITY: u64 = 61 * ONE_CKB;

/// The limits of a transfer.
#[derive(Clone, Copy, Debug, PartialEq, Eq, Structural)]
pub struct TransferLimits {
    /// Smallest capacity that a cell, payment or change, may have.
    pub min_cell_capacity: u64,
    /// Largest fee that a transfer may pay, change folded in.
    pub fee_ceiling: u64,
    /// Capacity that each byte of attached data takes.
    pub capacity_per_byte: u64,
}

impl TransferLimits {
    /// The limits of the chain: 61 coins for a cell, one coin of fee at most,
    /// one coin for each byte of data.
    pub fn standard() -> (limits: TransferLimits)
        ensures
            limits.min_cell_capacity == MIN_SECP_CELL_CAPACITY,
            limits.fee_ceiling == ONE_CKB,
            limits.capacity_per_byte == ONE_CKB,
    {
        TransferLimits {
            min_cell_capacity: MIN_SECP_CELL_CAPACITY,
            fee_ceiling: ONE_CKB,
            capacity_per_byte: ONE_CKB,
        }
    }
}

/// What is wrong with the capacity of a payment, if anything: it must reach
/// the smallest capacity of a cell, and beyond that pay for every byte of
/// the data it carries.
pub open spec fn capacity_violation(
    capacity: u64,
    data_len: nat,
    limits: TransferLimits,
) -> Option<ValidationError> {
    if capacity < limits.min_cell_capacity {
        Some(ValidationError::CapacityBelowMinimum)
    } else if capacity < limits.min_cell_capacity + data_len * limits.capacity_per_byte {
        Some(ValidationError::CapacityCannotHoldData)
    } else {
        None
    }
}

/// Checks the capacity of a payment against the data it carries.
pub fn check_capacity(capacity: u64, data_len: usize, limits: &TransferLimits) -> (out: Result<
    (),
    ValidationError,
>)
    ensures
        out == match capacity_violation(capacity, data_len as nat, *limits) {
            Some(e) => Err::<(), ValidationError>(e),
            None => Ok(()),
        },
{
    if capacity < limits.min_cell_capacity {
        return Err(ValidationError::CapacityBelowMinimum);
    }
    assert(data_len as nat * limits.capacity_per_byte as nat <= 0xffff_ffff_ffff_ffff
        * 0xffff_ffff_ffff_ffff) by (nonlinear_arith)
        requires
            data_len <= 0xffff_ffff_ffff_ffff,
            limits.capacity_per_byte <= 0xffff_ffff_ffff_ffff,
    ;
    let needed: u128 = limits.min_cell_capacity as u128 + data_len as u128
        * limits.capacity_per_byte as u128;
    if (capacity as u128) < needed {
        return Err(ValidationError::CapacityCannotHoldData);
    }
    Ok(())
}

/// How a transfer comes out even.
#[derive(Clone, Copy, Debug, PartialEq, Eq, Structural)]
pub struct Balance {
    /// What the collected cells hold beyond payment and fee.
    pub rest: u64,
    /// Capacity of the change cell, where the rest is enough for one. Where
    /// it is not, the rest goes to the fee.
    pub change: Option<u64>,
}

impl Balance {
    /// What the transfer pays in fee with the rest folded in.
    pub open spec fn fee_paid(self, fee: u64) -> nat {
        match self.change {
            Some(_) => fee as nat,
            None => (fee + self.rest) as nat,
        }
    }
}

/// How a transfer comes out, as a function of what was collected. The cells
/// must cover payment and fee. The fee must not be above the ceiling. What is
/// left over becomes the change cell when it reaches the smallest capacity of
/// a cell; when it does not, it goes to the fee, and fee and rest together
/// must not be above the ceiling.
pub open spec fn balance_of(available: nat, payment: u64, fee: u64, limits: TransferLimits) -> Result<
    Balance,
    TransferError,
> {
    if available < payment + fee {
        Err(TransferError::InsufficientFunds(available as u128))
    } else if fee > limits.fee_ceiling {
        Err(TransferError::FeeExceedsCeiling(FeeViolation::Fee))
    } else {
        let rest = available - payment - fee;
        if rest < limits.min_cell_capacity {
            if fee + rest > limits.fee_ceiling {
                Err(TransferError::FeeExceedsCeiling(FeeViolation::FeeWithChange))
            } else {
                Ok(Balance { rest: rest as u64, change: None })
            }
        } else if rest > u64::MAX {
            Err(TransferError::CapacityOverflow)
        } else {
            Ok(Balance { rest: rest as u64, change: Some(rest as u64) })
        }
    }
}

/// Balances a transfer over cells that hold `available` in all.
pub fn balance(available: u128, payment: u64, fee: u64, limits: &TransferLimits) -> (out: Result<
    Balance,
    TransferError,
>)
    ensures
        out == balance_of(available as nat, payment, fee, *limits),
{
    let target: u128 = payment as u128 + fee as u128;
    if available < target {
        return Err(TransferError::InsufficientFunds(available));
    }
    if fee > limits.fee_ceiling {
        return Err(TransferError::FeeExceedsCeiling(FeeViolation::Fee));
    }
    let rest: u128 = available - target;
    if rest < limits.min_cell_capacity as u128 {
        if fee as u128 + rest > limits.fee_ceiling as u128 {
            Err(TransferError::FeeExceedsCeiling(FeeViolation::FeeWithChange))
        } else {
            Ok(Balance { rest: rest as u64, change: None })
        }
    } else if rest > u64::MAX as u128 {
        Err(TransferError::CapacityOverflow)
    } else {
        Ok(Balance { rest: rest as u64, change: Some(rest as u64) })
    }
}

/// A balanced transfer adds up: what was collected is the payment, the
/// change cell if there is one, and the fee paid; the fee paid is no more
/// than the ceiling; and a change cell is never smaller than a cell may be.
pub proof fn lemma_balance_adds_up(available: nat, payment: u64, fee: u64, limits: TransferLimits)
    requires
        balance_of(available, payment, fee, limits) is Ok,
    ensures
        ({
            let b = balance_of(available, payment, fee, limits).unwrap();
            &&& available == payment + b.fee_paid(fee) + match b.change {
                Some(c) => c as nat,
                None => 0,
            }
            &&& b.fee_paid(fee) <= limits.fee_ceiling
            &&& b.change matches Some(c) ==> c >= limits.min_cell_capacity
        }),
{
}

} // verus!

//! Funding selection and transaction assembly for a cell-based wallet.
//!
//! The wallet pays from unspent cells. Given a payment and the keys that fund
//! it, the library finds the cells to spend, balances the transaction and
//! decides which key signs for which input. Its functions are verified
//! against their contracts; the three calls into the libraries of the chain,
//! for the hash of a script, of a key and of a multisig descriptor, are
//! trusted and say so.
//!
//! * [`cell`], [`hash`], [`script`], [`key`], [`multisig`]: the values the
//!   wallet works with.
//! * [`stream`]: the scan of live cells under a policy; [`index`]: the cells
//!   in the order of their blocks.
//! * [`funding`], [`aggregate`], [`window`], [`ranking`]: the four policies,
//!   for a transfer, a balance, a page of a listing and the richest locks.
//! * [`derive`], [`since`], [`locked`], [`signer`]: derived keys, time locks,
//!   locked sources and the choice of the signing key.
//! * [`request`], [`identity`], [`balance`], [`pending`], [`transfer`]: a
//!   transfer from request to report, stage by stage.
//! * [`wallet`]: the three operations of the wallet over an index.

pub mod aggregate;
pub mod balance;
pub mod cell;
pub mod derive;
pub mod error;
pub mod funding;
pub mod hash;
pub mod identity;
pub mod index;
pub mod key;
pub mod locked;
pub mod multisig;
pub mod pending;
pub mod ranking;
pub mod request;
pub mod script;
pub mod signer;
pub mod since;
pub mod stream;
pub mod transfer;
pub mod wallet;
pub mod window;

//! Pooled-staking accounting engine: account-state codec, derived-authority
//! checks, exchange-rate arithmetic, and the reconciliation state machine
//! that keeps a list of per-validator stake records consistent with the
//! pool's aggregate balance.
//!
//! The host runtime (accounts, cross-program calls, token transfers) is out
//! of scope: handlers here are pure decision functions over plain values.
//! The thin shell that reads accounts, calls these functions and performs
//! the returned actions lives outside the verified library.

pub mod addr;
pub mod authority;
pub mod codec;
pub mod error;
pub mod instruction;
pub mod processor;
pub mod state;
pub mod token;

pub use addr::Address;

use vstd::prelude::*;

verus! {

/// Version written into a freshly initialized pool record; 0 is the
/// permanent "not yet created" sentinel.
pub const PROGRAM_VERSION: u8 = 1;

} // verus!

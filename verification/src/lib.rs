//! A validator-attested price oracle: registered validators submit price
//! observations per symbol, one live observation per validator per symbol,
//! and queries answer with the floor arithmetic mean of all live
//! observations.
//!
//! The oracle's state is an explicit [`state::OracleStore`] handed into each
//! operation; the host that persists it, dispatches messages, and reports
//! the active validator set stays outside and passes plain values in. The
//! bech32 address codec is called through trusted wrappers in [`addr`].

pub mod addr;
pub mod contract;
pub mod laws;
pub mod model;
pub mod msg;
pub mod state;

use vstd::prelude::*;

verus! {

/// The ways a mutating oracle operation can fail.
#[derive(Clone, Copy, Debug, PartialEq, Eq, Structural)]
pub enum ContractError {
    /// The caller's account address could not be decoded, or could not be
    /// re-encoded under the validator-operator prefix.
    InvalidAddressEncoding,
    /// The caller's derived operator address is not in the active validator set.
    NotAnActiveValidator,
    /// Registration was attempted without supplying a submission key.
    MissingSubmissionKey,
    /// A submission key did not resolve to any registered validator.
    Unauthorized,
}

} // verus!

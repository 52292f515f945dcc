//! Typed errors returned by the validator lifecycle engine.

use vstd::prelude::*;

verus! {

/// An error raised by the validator state machine or the stake ledger.
///
/// Every failure is returned to the immediate caller; nothing in this
/// library panics on an input it accepts.
#[derive(Clone, Copy, Debug, PartialEq, Eq, Structural)]
pub enum StakeError {
    /// The identity key or consensus key is not found in the current roster
    /// or ledger.
    UnknownValidator,
    /// The (state, event) pair is absent from the transition table.
    IllegalTransition,
    /// More than one roster entry shares a consensus signing key; surfaced
    /// rather than silently resolved.
    AmbiguousConsensusKey,
    /// The stake ledger could not apply the block's staged transitions; the
    /// whole staged set is discarded.
    CommitFailure,
}

/// An error raised when assembling the chain-wide application parameters
/// from their wire form, naming the first component found missing.
#[derive(Clone, Copy, Debug, PartialEq, Eq, Structural)]
pub enum ParameterError {
    MissingChainParams,
    MissingStakeParams,
    MissingIbcParams,
    MissingGovernanceParams,
    MissingDaoParams,
    MissingFeeParams,
}

/// An error raised when decoding a validator state from its
/// (name, optional epoch) encoding.
#[derive(Clone, Copy, Debug, PartialEq, Eq, Structural)]
pub enum StateEncodingError {
    /// The string is not the name of any validator state.
    UnrecognizedName,
    /// An unbonding epoch was supplied together with a state other than
    /// `Unbonding`.
    EpochNotPermitted,
    /// No unbonding epoch was supplied together with the `Unbonding` state.
    EpochMissing,
}

} // verus!

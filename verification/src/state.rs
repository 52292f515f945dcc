//! Validator states, state names, lifecycle events, and the lossless
//! (name, optional epoch) encoding of a state.

use vstd::prelude::*;

use crate::errors::StateEncodingError;

verus! {

/// The state of a validator in the validator state machine.
#[derive(Clone, Copy, Debug, PartialEq, Eq, Structural)]
pub enum ValidatorState {
    /// Registered but not part of the active consensus set; may still hold
    /// bonded stake.
    Inactive,
    /// An active part of the signing and voting consensus set.
    Active,
    /// Removed from the consensus set; bonded stake is released only once
    /// the chain reaches `unbonding_epoch`.
    Unbonding { unbonding_epoch: u64 },
    /// Irrevocably penalized; all remaining bonded stake is released
    /// immediately, bypassing the normal unbonding delay.
    Slashed,
}

/// The name of a validator state, without the extra information such as the
/// `unbonding_epoch`.
#[derive(Clone, Copy, Debug, PartialEq, Eq, Structural)]
pub enum ValidatorStateName {
    /// The state name for [`ValidatorState::Inactive`].
    Inactive,
    /// The state name for [`ValidatorState::Active`].
    Active,
    /// The state name for [`ValidatorState::Unbonding`].
    Unbonding,
    /// The state name for [`ValidatorState::Slashed`].
    Slashed,
}

/// An event triggering a validator state transition. Events are stateless
/// triggers; a target epoch, where one is needed, is computed by the state
/// machine, never carried by the event.
#[derive(Clone, Copy, Debug, PartialEq, Eq, Structural)]
pub enum ValidatorStateEvent {
    SlashValidator,
    UnbondValidator,
    ActivateValidator,
    DeactivateValidator,
}

/// The name of a state, stripped of any payload.
pub open spec fn state_name(s: ValidatorState) -> ValidatorStateName {
    match s {
        ValidatorState::Inactive => ValidatorStateName::Inactive,
        ValidatorState::Active => ValidatorStateName::Active,
        ValidatorState::Unbonding { .. } => ValidatorStateName::Unbonding,
        ValidatorState::Slashed => ValidatorStateName::Slashed,
    }
}

/// The (name, optional epoch) encoding of a state: the epoch is present if
/// and only if the state is `Unbonding`.
pub open spec fn state_to_parts(s: ValidatorState) -> (ValidatorStateName, Option<u64>) {
    match s {
        ValidatorState::Inactive => (ValidatorStateName::Inactive, None),
        ValidatorState::Active => (ValidatorStateName::Active, None),
        ValidatorState::Unbonding { unbonding_epoch } => (
            ValidatorStateName::Unbonding,
            Some(unbonding_epoch),
        ),
        ValidatorState::Slashed => (ValidatorStateName::Slashed, None),
    }
}

/// Decoding of a (name, optional epoch) pair back into a state, rejecting
/// any pairing that breaks the encoding invariant.
pub open spec fn state_from_parts(parts: (ValidatorStateName, Option<u64>)) -> Result<
    ValidatorState,
    StateEncodingError,
> {
    match parts {
        (ValidatorStateName::Inactive, None) => Ok(ValidatorState::Inactive),
        (ValidatorStateName::Active, None) => Ok(ValidatorState::Active),
        (ValidatorStateName::Unbonding, Some(unbonding_epoch)) => Ok(
            ValidatorState::Unbonding { unbonding_epoch },
        ),
        (ValidatorStateName::Slashed, None) => Ok(ValidatorState::Slashed),
        (_, Some(_)) => Err(StateEncodingError::EpochNotPermitted),
        (ValidatorStateName::Unbonding, None) => Err(StateEncodingError::EpochMissing),
    }
}

/// The stable string form of a state name.
pub open spec fn name_text(n: ValidatorStateName) -> Seq<char> {
    match n {
        ValidatorStateName::Inactive => "INACTIVE"@,
        ValidatorStateName::Active => "ACTIVE"@,
        ValidatorStateName::Unbonding => "UNBONDING"@,
        ValidatorStateName::Slashed => "SLASHED"@,
    }
}

/// Decoding of a string into a state name.
pub open spec fn name_of_text(t: Seq<char>) -> Result<ValidatorStateName, StateEncodingError> {
    if t == "INACTIVE"@ {
        Ok(ValidatorStateName::Inactive)
    } else if t == "ACTIVE"@ {
        Ok(ValidatorStateName::Active)
    } else if t == "UNBONDING"@ {
        Ok(ValidatorStateName::Unbonding)
    } else if t == "SLASHED"@ {
        Ok(ValidatorStateName::Slashed)
    } else {
        Err(StateEncodingError::UnrecognizedName)
    }
}

impl ValidatorState {
    /// Returns the name of the validator state.
    pub fn name(&self) -> (r: ValidatorStateName)
        ensures
            r == state_name(*self),
    {
        match self {
            ValidatorState::Inactive => ValidatorStateName::Inactive,
            ValidatorState::Active => ValidatorStateName::Active,
            ValidatorState::Unbonding { .. } => ValidatorStateName::Unbonding,
            ValidatorState::Slashed => ValidatorStateName::Slashed,
        }
    }

    /// Encodes the state as a (name, optional epoch) pair; the epoch is
    /// present exactly when the state is `Unbonding`.
    pub fn to_parts(&self) -> (r: (ValidatorStateName, Option<u64>))
        ensures
            r == state_to_parts(*self),
    {
        match self {
            ValidatorState::Inactive => (ValidatorStateName::Inactive, None),
            ValidatorState::Active => (ValidatorStateName::Active, None),
            ValidatorState::Unbonding { unbonding_epoch } => (
                ValidatorStateName::Unbonding,
                Some(*unbonding_epoch),
            ),
            ValidatorState::Slashed => (ValidatorStateName::Slashed, None),
        }
    }

    /// Decodes a (name, optional epoch) pair, rejecting an epoch paired
    /// with a non-unbonding name and a missing epoch on the unbonding name.
    pub fn try_from_parts(parts: (ValidatorStateName, Option<u64>)) -> (r: Result<
        ValidatorState,
        StateEncodingError,
    >)
        ensures
            r == state_from_parts(parts),
            r is Ok <==> (parts.0 is Unbonding <==> parts.1 is Some),
    {
        match parts {
            (ValidatorStateName::Inactive, None) => Ok(ValidatorState::Inactive),
            (ValidatorStateName::Active, None) => Ok(ValidatorState::Active),
            (ValidatorStateName::Unbonding, Some(unbonding_epoch)) => Ok(
                ValidatorState::Unbonding { unbonding_epoch },
            ),
            (ValidatorStateName::Slashed, None) => Ok(ValidatorState::Slashed),
            (_, Some(_)) => Err(StateEncodingError::EpochNotPermitted),
            (ValidatorStateName::Unbonding, None) => Err(StateEncodingError::EpochMissing),
        }
    }
}

impl ValidatorStateName {
    /// Returns the stable string representation of the state name; it is
    /// the inverse of [`ValidatorStateName::from_str`].
    pub fn to_str(&self) -> (r: &'static str)
        ensures
            r@ == name_text(*self),
    {
        match self {
            ValidatorStateName::Inactive => "INACTIVE",
            ValidatorStateName::Active => "ACTIVE",
            ValidatorStateName::Unbonding => "UNBONDING",
            ValidatorStateName::Slashed => "SLASHED",
        }
    }

    /// Parses the stable string representation of a state name.
    pub fn from_str(s: &str) -> (r: Result<ValidatorStateName, StateEncodingError>)
        ensures
            r == name_of_text(s@),
    {
        let t = s.to_owned();
        if t == "INACTIVE".to_owned() {
            Ok(ValidatorStateName::Inactive)
        } else if t == "ACTIVE".to_owned() {
            Ok(ValidatorStateName::Active)
        } else if t == "UNBONDING".to_owned() {
            Ok(ValidatorStateName::Unbonding)
        } else if t == "SLASHED".to_owned() {
            Ok(ValidatorStateName::Slashed)
        } else {
            Err(StateEncodingError::UnrecognizedName)
        }
    }
}

} // verus!

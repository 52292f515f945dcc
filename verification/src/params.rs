//! Read-only configuration: the staking parameters the engine itself
//! consumes, and the flat chain-wide parameter record that is carried to
//! and from its wire form with every component required to be present.

use vstd::prelude::*;

use crate::errors::ParameterError;

verus! {

/// The staking parameters the engine reads: the unbonding delay, in epochs,
/// applied when a validator leaves the consensus set, and the bound on the
/// size of the consensus set.
#[derive(Clone, Copy, Debug, PartialEq, Eq, Structural)]
pub struct StakeParameters {
    /// Number of epochs between leaving the consensus set and the bonded
    /// stake becoming withdrawable.
    pub unbonding_delay: u64,
    /// Maximum number of validators in the consensus set.
    pub active_validator_limit: u64,
}

/// Chain-level parameters: the chain's identifier and the length of an
/// epoch in blocks.
#[derive(Clone, Debug, PartialEq, Eq)]
pub struct ChainParameters {
    pub chain_id: String,
    pub epoch_duration: u64,
}

/// Parameters governing spending from the community treasury.
#[derive(Clone, Copy, Debug, PartialEq, Eq, Structural)]
pub struct DaoParameters {
    pub dao_spend_proposals_enabled: bool,
}

/// Parameters of the transaction-fee market; the fee schedule itself
/// currently carries no tunables.
#[derive(Clone, Copy, Debug, PartialEq, Eq, Structural)]
pub struct FeeParameters {}

/// Parameters governing on-chain governance proposals.
#[derive(Clone, Copy, Debug, PartialEq, Eq, Structural)]
pub struct GovernanceParameters {
    pub proposal_voting_blocks: u64,
    pub proposal_deposit_amount: u64,
}

/// Parameters switching inter-chain transfers on and off.
#[derive(Clone, Copy, Debug, PartialEq, Eq, Structural)]
pub struct IBCParameters {
    pub ibc_enabled: bool,
    pub inbound_ics20_transfers_enabled: bool,
    pub outbound_ics20_transfers_enabled: bool,
}

/// The flat record of every chain-wide configuration component.
#[derive(Clone, Debug, PartialEq, Eq)]
pub struct AppParameters {
    pub stake_params: StakeParameters,
    pub ibc_params: IBCParameters,
    pub governance_params: GovernanceParameters,
    pub chain_params: ChainParameters,
    pub dao_params: DaoParameters,
    pub fee_params: FeeParameters,
}

/// The wire form of [`AppParameters`]: every component is optional there,
/// and assembling the record checks each one is present.
#[derive(Clone, Debug, PartialEq, Eq)]
pub struct RawAppParameters {
    pub chain_params: Option<ChainParameters>,
    pub stake_params: Option<StakeParameters>,
    pub ibc_params: Option<IBCParameters>,
    pub governance_params: Option<GovernanceParameters>,
    pub dao_params: Option<DaoParameters>,
    pub fee_params: Option<FeeParameters>,
}

impl AppParameters {
    /// Assembles the parameter record from its wire form, succeeding
    /// exactly when every component is present and naming the first
    /// missing component otherwise.
    pub fn try_from_raw(raw: RawAppParameters) -> (r: Result<AppParameters, ParameterError>)
        ensures
            r is Ok <==> {
                &&& raw.chain_params is Some
                &&& raw.stake_params is Some
                &&& raw.ibc_params is Some
                &&& raw.governance_params is Some
                &&& raw.dao_params is Some
                &&& raw.fee_params is Some
            },
            r matches Ok(p) ==> {
                &&& Some(p.chain_params) == raw.chain_params
                &&& Some(p.stake_params) == raw.stake_params
                &&& Some(p.ibc_params) == raw.ibc_params
                &&& Some(p.governance_params) == raw.governance_params
                &&& Some(p.dao_params) == raw.dao_params
                &&& Some(p.fee_params) == raw.fee_params
            },
            raw.chain_params is None ==> r == Err::<AppParameters, ParameterError>(
                ParameterError::MissingChainParams,
            ),
            raw.chain_params is Some && raw.stake_params is None ==> r == Err::<
                AppParameters,
                ParameterError,
            >(ParameterError::MissingStakeParams),
            raw.chain_params is Some && raw.stake_params is Some && raw.ibc_params is None ==> r
                == Err::<AppParameters, ParameterError>(ParameterError::MissingIbcParams),
            raw.chain_params is Some && raw.stake_params is Some && raw.ibc_params is Some
                && raw.governance_params is None ==> r == Err::<AppParameters, ParameterError>(
                ParameterError::MissingGovernanceParams,
            ),
            raw.chain_params is Some && raw.stake_params is Some && raw.ibc_params is Some
                && raw.governance_params is Some && raw.dao_params is None ==> r == Err::<
                AppParameters,
                ParameterError,
            >(ParameterError::MissingDaoParams),
            raw.chain_params is Some && raw.stake_params is Some && raw.ibc_params is Some
                && raw.governance_params is Some && raw.dao_params is Some && raw.fee_params
                is None ==> r == Err::<AppParameters, ParameterError>(
                ParameterError::MissingFeeParams,
            ),
    {
        let chain_params = match raw.chain_params {
            Some(p) => p,
            None => {
                return Err(ParameterError::MissingChainParams);
            },
        };
        let stake_params = match raw.stake_params {
            Some(p) => p,
            None => {
                return Err(ParameterError::MissingStakeParams);
            },
        };
        let ibc_params = match raw.ibc_params {
            Some(p) => p,
            None => {
                return Err(ParameterError::MissingIbcParams);
            },
        };
        let governance_params = match raw.governance_params {
            Some(p) => p,
            None => {
                return Err(ParameterError::MissingGovernanceParams);
            },
        };
        let dao_params = match raw.dao_params {
            Some(p) => p,
            None => {
                return Err(ParameterError::MissingDaoParams);
            },
        };
        let fee_params = match raw.fee_params {
            Some(p) => p,
            None => {
                return Err(ParameterError::MissingFeeParams);
            },
        };
        Ok(
            AppParameters {
                stake_params,
                ibc_params,
                governance_params,
                chain_params,
                dao_params,
                fee_params,
            },
        )
    }

    /// Carries the parameter record back to its wire form, every component
    /// present.
    pub fn to_raw(self) -> (r: RawAppParameters)
        ensures
            r.chain_params == Some(self.chain_params),
            r.stake_params == Some(self.stake_params),
            r.ibc_params == Some(self.ibc_params),
            r.governance_params == Some(self.governance_params),
            r.dao_params == Some(self.dao_params),
            r.fee_params == Some(self.fee_params),
    {
        RawAppParameters {
            chain_params: Some(self.chain_params),
            dao_params: Some(self.dao_params),
            governance_params: Some(self.governance_params),
            ibc_params: Some(self.ibc_params),
            stake_params: Some(self.stake_params),
            fee_params: Some(self.fee_params),
        }
    }
}

} // verus!

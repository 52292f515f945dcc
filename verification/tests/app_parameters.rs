use stake::errors::ParameterError;
use stake::params::{
    AppParameters, ChainParameters, DaoParameters, FeeParameters, GovernanceParameters,
    IBCParameters, RawAppParameters, StakeParameters,
};

fn sample() -> AppParameters {
    AppParameters {
        stake_params: StakeParameters { unbonding_delay: 5, active_validator_limit: 80 },
        ibc_params: IBCParameters {
            ibc_enabled: true,
            inbound_ics20_transfers_enabled: true,
            outbound_ics20_transfers_enabled: false,
        },
        governance_params: GovernanceParameters {
            proposal_voting_blocks: 17280,
            proposal_deposit_amount: 10_000_000,
        },
        chain_params: ChainParameters { chain_id: String::from("stake-test-1"), epoch_duration: 719 },
        dao_params: DaoParameters { dao_spend_proposals_enabled: true },
        fee_params: FeeParameters {},
    }
}

#[test]
fn app_parameters_round_trip() {
    let params = sample();
    let raw = params.clone().to_raw();
    assert_eq!(AppParameters::try_from_raw(raw), Ok(params));
}

#[test]
fn app_parameters_missing_components_are_named() {
    let raw = sample().to_raw();

    let mut r = raw.clone();
    r.chain_params = None;
    assert_eq!(AppParameters::try_from_raw(r), Err(ParameterError::MissingChainParams));

    let mut r = raw.clone();
    r.stake_params = None;
    assert_eq!(AppParameters::try_from_raw(r), Err(ParameterError::MissingStakeParams));

    let mut r = raw.clone();
    r.ibc_params = None;
    assert_eq!(AppParameters::try_from_raw(r), Err(ParameterError::MissingIbcParams));

    let mut r = raw.clone();
    r.governance_params = None;
    assert_eq!(
        AppParameters::try_from_raw(r),
        Err(ParameterError::MissingGovernanceParams)
    );

    let mut r = raw.clone();
    r.dao_params = None;
    assert_eq!(AppParameters::try_from_raw(r), Err(ParameterError::MissingDaoParams));

    let mut r = raw.clone();
    r.fee_params = None;
    assert_eq!(AppParameters::try_from_raw(r), Err(ParameterError::MissingFeeParams));

    // the first missing component wins
    let mut r = raw.clone();
    r.chain_params = None;
    r.fee_params = None;
    assert_eq!(AppParameters::try_from_raw(r), Err(ParameterError::MissingChainParams));
}

#[test]
fn empty_wire_record_is_rejected() {
    let raw = RawAppParameters {
        chain_params: None,
        stake_params: None,
        ibc_params: None,
        governance_params: None,
        dao_params: None,
        fee_params: None,
    };
    assert_eq!(AppParameters::try_from_raw(raw), Err(ParameterError::MissingChainParams));
}

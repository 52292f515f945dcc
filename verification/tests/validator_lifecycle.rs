use stake::errors::{StakeError, StateEncodingError};
use stake::keys::{ConsensusKey, IdentityKey, Validator, ValidatorInfo};
use stake::ledger::StakeLedger;
use stake::machine::{next_state, ValidatorStateMachine};
use stake::params::StakeParameters;
use stake::state::{ValidatorState, ValidatorStateEvent, ValidatorStateName};

fn validator(id: u64, key_bytes: Vec<u8>, power: u64) -> ValidatorInfo {
    ValidatorInfo {
        validator: Validator {
            identity_key: IdentityKey(id),
            consensus_key: ConsensusKey(key_bytes),
            voting_power: power,
        },
    }
}

fn params(unbonding_delay: u64, active_validator_limit: u64) -> StakeParameters {
    StakeParameters { unbonding_delay, active_validator_limit }
}

#[test]
fn state_encoding_round_trips() {
    let states = vec![
        ValidatorState::Inactive,
        ValidatorState::Active,
        ValidatorState::Unbonding { unbonding_epoch: 42 },
        ValidatorState::Slashed,
    ];
    for s in states {
        let parts = s.to_parts();
        assert_eq!(ValidatorState::try_from_parts(parts), Ok(s));
    }
    assert_eq!(
        ValidatorState::Unbonding { unbonding_epoch: 7 }.to_parts(),
        (ValidatorStateName::Unbonding, Some(7))
    );
    assert_eq!(ValidatorState::Slashed.to_parts(), (ValidatorStateName::Slashed, None));
}

#[test]
fn state_encoding_rejects_mismatched_pairs() {
    assert_eq!(
        ValidatorState::try_from_parts((ValidatorStateName::Slashed, Some(3))),
        Err(StateEncodingError::EpochNotPermitted)
    );
    assert_eq!(
        ValidatorState::try_from_parts((ValidatorStateName::Inactive, Some(0))),
        Err(StateEncodingError::EpochNotPermitted)
    );
    assert_eq!(
        ValidatorState::try_from_parts((ValidatorStateName::Active, Some(9))),
        Err(StateEncodingError::EpochNotPermitted)
    );
    assert_eq!(
        ValidatorState::try_from_parts((ValidatorStateName::Unbonding, None)),
        Err(StateEncodingError::EpochMissing)
    );
}

#[test]
fn state_names_round_trip() {
    let names = vec![
        ValidatorStateName::Inactive,
        ValidatorStateName::Active,
        ValidatorStateName::Unbonding,
        ValidatorStateName::Slashed,
    ];
    for n in names {
        assert_eq!(ValidatorStateName::from_str(n.to_str()), Ok(n));
    }
    assert_eq!(ValidatorStateName::Inactive.to_str(), "INACTIVE");
    assert_eq!(ValidatorStateName::Active.to_str(), "ACTIVE");
    assert_eq!(ValidatorStateName::Unbonding.to_str(), "UNBONDING");
    assert_eq!(ValidatorStateName::Slashed.to_str(), "SLASHED");
    assert_eq!(
        ValidatorStateName::from_str("unbonding"),
        Err(StateEncodingError::UnrecognizedName)
    );
    assert_eq!(ValidatorStateName::from_str(""), Err(StateEncodingError::UnrecognizedName));
}

#[test]
fn state_name_strips_payload() {
    assert_eq!(
        ValidatorState::Unbonding { unbonding_epoch: 5 }.name(),
        ValidatorStateName::Unbonding
    );
    assert_eq!(ValidatorState::Inactive.name(), ValidatorStateName::Inactive);
    assert_eq!(ValidatorState::Active.name(), ValidatorStateName::Active);
    assert_eq!(ValidatorState::Slashed.name(), ValidatorStateName::Slashed);
}

#[test]
fn transition_table_is_exact() {
    let epoch = 10;
    let delay = 5;
    let states = vec![
        ValidatorState::Inactive,
        ValidatorState::Active,
        ValidatorState::Unbonding { unbonding_epoch: 20 },
        ValidatorState::Slashed,
    ];
    let events = vec![
        ValidatorStateEvent::SlashValidator,
        ValidatorStateEvent::UnbondValidator,
        ValidatorStateEvent::ActivateValidator,
        ValidatorStateEvent::DeactivateValidator,
    ];
    for s in &states {
        for e in &events {
            let next = next_state(*s, *e, epoch, delay);
            let expected = match (s, e) {
                (ValidatorState::Inactive, ValidatorStateEvent::ActivateValidator) => {
                    Some(ValidatorState::Active)
                }
                (ValidatorState::Active, ValidatorStateEvent::DeactivateValidator) => {
                    Some(ValidatorState::Unbonding { unbonding_epoch: 15 })
                }
                (ValidatorState::Active, ValidatorStateEvent::SlashValidator) => {
                    Some(ValidatorState::Slashed)
                }
                (ValidatorState::Unbonding { .. }, ValidatorStateEvent::SlashValidator) => {
                    Some(ValidatorState::Slashed)
                }
                (ValidatorState::Inactive, ValidatorStateEvent::SlashValidator) => {
                    Some(ValidatorState::Slashed)
                }
                _ => None,
            };
            assert_eq!(next, expected);
        }
    }
}

#[test]
fn register_starts_inactive_and_refuses_duplicates() {
    let mut ledger = StakeLedger::new();
    assert!(ledger.register(validator(3, vec![3], 50)));
    assert!(ledger.register(validator(1, vec![1], 100)));
    assert!(!ledger.register(validator(3, vec![9], 70)));
    assert_eq!(ledger.validator_count(), 2);
    assert_eq!(ledger.load_validator_state(&IdentityKey(1)), Some(ValidatorState::Inactive));
    assert_eq!(ledger.load_validator_state(&IdentityKey(3)), Some(ValidatorState::Inactive));
    assert_eq!(ledger.load_validator_state(&IdentityKey(2)), None);
    assert_eq!(ledger.bonded_amount_of(&IdentityKey(1)), Some(100));
    let info = ledger.load_validator_info(&IdentityKey(3)).unwrap();
    assert_eq!(info.validator.consensus_key, ConsensusKey(vec![3]));
}

#[test]
fn transition_unknown_validator_fails() {
    let ledger = StakeLedger::new();
    let mut machine = ValidatorStateMachine::new(Vec::new(), 0, params(5, 10));
    let r = machine.transition(&ledger, &IdentityKey(7), ValidatorStateEvent::ActivateValidator);
    assert_eq!(r, Err(StakeError::UnknownValidator));
    assert_eq!(machine.get_state(&IdentityKey(7)), None);
}

#[test]
fn transition_stages_and_overlays() {
    let mut ledger = StakeLedger::new();
    ledger.register(validator(1, vec![1], 100));
    let mut machine = ValidatorStateMachine::new(Vec::new(), 10, params(5, 10));
    // ledger says Inactive, so activation is legal
    let r = machine.transition(&ledger, &IdentityKey(1), ValidatorStateEvent::ActivateValidator);
    assert_eq!(r, Ok(ValidatorState::Active));
    assert_eq!(machine.get_state(&IdentityKey(1)), Some(ValidatorState::Active));
    // the staged Active state overrides the committed Inactive one
    let r = machine.transition(&ledger, &IdentityKey(1), ValidatorStateEvent::DeactivateValidator);
    assert_eq!(r, Ok(ValidatorState::Unbonding { unbonding_epoch: 15 }));
    assert_eq!(
        machine.get_state(&IdentityKey(1)),
        Some(ValidatorState::Unbonding { unbonding_epoch: 15 })
    );
}

#[test]
fn illegal_transitions_are_rejected() {
    let mut ledger = StakeLedger::new();
    ledger.register(validator(1, vec![1], 100));
    let mut machine = ValidatorStateMachine::new(Vec::new(), 0, params(5, 10));
    assert_eq!(
        machine.transition(&ledger, &IdentityKey(1), ValidatorStateEvent::DeactivateValidator),
        Err(StakeError::IllegalTransition)
    );
    assert_eq!(
        machine.transition(&ledger, &IdentityKey(1), ValidatorStateEvent::UnbondValidator),
        Err(StakeError::IllegalTransition)
    );
    assert_eq!(machine.get_state(&IdentityKey(1)), None);
}

#[test]
fn transition_validator_resolves_consensus_key() {
    let mut ledger = StakeLedger::new();
    ledger.register(validator(1, vec![0xAA], 100));
    ledger.register(validator(2, vec![0xBB], 50));
    let roster = vec![validator(1, vec![0xAA], 100), validator(2, vec![0xBB], 50)];
    let mut machine = ValidatorStateMachine::new(roster, 0, params(5, 10));
    let r = machine.transition_validator(
        &ledger,
        &ConsensusKey(vec![0xAA]),
        ValidatorStateEvent::ActivateValidator,
    );
    assert_eq!(r, Ok(ValidatorState::Active));
    assert_eq!(machine.get_state(&IdentityKey(1)), Some(ValidatorState::Active));
    assert_eq!(machine.get_state(&IdentityKey(2)), None);
}

#[test]
fn transition_validator_unknown_key_fails() {
    let ledger = StakeLedger::new();
    let roster = vec![validator(1, vec![0xAA], 100)];
    let mut machine = ValidatorStateMachine::new(roster, 0, params(5, 10));
    let r = machine.transition_validator(
        &ledger,
        &ConsensusKey(vec![0xCC]),
        ValidatorStateEvent::ActivateValidator,
    );
    assert_eq!(r, Err(StakeError::UnknownValidator));
}

#[test]
fn transition_validator_ambiguous_key_fails() {
    let mut ledger = StakeLedger::new();
    ledger.register(validator(1, vec![0xAA], 100));
    ledger.register(validator(2, vec![0xAA], 50));
    let roster = vec![validator(1, vec![0xAA], 100), validator(2, vec![0xAA], 50)];
    let mut machine = ValidatorStateMachine::new(roster, 0, params(5, 10));
    let r = machine.transition_validator(
        &ledger,
        &ConsensusKey(vec![0xAA]),
        ValidatorStateEvent::ActivateValidator,
    );
    assert_eq!(r, Err(StakeError::AmbiguousConsensusKey));
    assert_eq!(machine.get_state(&IdentityKey(1)), None);
    assert_eq!(machine.get_state(&IdentityKey(2)), None);
}

#[test]
fn commit_applies_staged_transitions() {
    let mut ledger = StakeLedger::new();
    ledger.register(validator(1, vec![1], 100));
    let mut machine = ValidatorStateMachine::new(Vec::new(), 0, params(5, 10));
    machine
        .transition(&ledger, &IdentityKey(1), ValidatorStateEvent::ActivateValidator)
        .unwrap();
    assert_eq!(machine.commit_block(&mut ledger), Ok(()));
    assert_eq!(ledger.load_validator_state(&IdentityKey(1)), Some(ValidatorState::Active));
    assert_eq!(ledger.bonded_amount_of(&IdentityKey(1)), Some(100));
}

#[test]
fn commit_of_unknown_identity_fails_atomically() {
    let mut ledger = StakeLedger::new();
    ledger.register(validator(1, vec![1], 100));
    let staged = vec![
        (IdentityKey(1), ValidatorState::Active),
        (IdentityKey(9), ValidatorState::Slashed),
    ];
    assert_eq!(ledger.commit_block(&staged), Err(StakeError::CommitFailure));
    // nothing was applied
    assert_eq!(ledger.load_validator_state(&IdentityKey(1)), Some(ValidatorState::Inactive));
}

#[test]
fn slashing_is_immediate_and_idempotent() {
    let mut ledger = StakeLedger::new();
    ledger.register(validator(1, vec![1], 100));
    let mut machine = ValidatorStateMachine::new(Vec::new(), 0, params(5, 10));
    assert_eq!(
        machine.slash_validator(&ledger, &IdentityKey(1)),
        Ok(ValidatorState::Slashed)
    );
    // slashing again is a no-op, not an error
    assert_eq!(
        machine.slash_validator(&ledger, &IdentityKey(1)),
        Ok(ValidatorState::Slashed)
    );
    // and an unknown identity is an error
    assert_eq!(
        machine.slash_validator(&ledger, &IdentityKey(2)),
        Err(StakeError::UnknownValidator)
    );
}

#[test]
fn slashed_is_terminal_for_every_event() {
    let mut ledger = StakeLedger::new();
    ledger.register(validator(1, vec![1], 100));
    let mut machine = ValidatorStateMachine::new(Vec::new(), 0, params(5, 10));
    machine.slash_validator(&ledger, &IdentityKey(1)).unwrap();
    machine.commit_block(&mut ledger).unwrap();
    assert_eq!(ledger.load_validator_state(&IdentityKey(1)), Some(ValidatorState::Slashed));
    // all remaining bonded stake was released immediately
    assert_eq!(ledger.bonded_amount_of(&IdentityKey(1)), Some(0));
    let mut machine = ValidatorStateMachine::new(Vec::new(), 1, params(5, 10));
    for event in [
        ValidatorStateEvent::SlashValidator,
        ValidatorStateEvent::UnbondValidator,
        ValidatorStateEvent::ActivateValidator,
        ValidatorStateEvent::DeactivateValidator,
    ] {
        assert_eq!(
            machine.transition(&ledger, &IdentityKey(1), event),
            Err(StakeError::IllegalTransition)
        );
    }
    assert_eq!(ledger.load_validator_state(&IdentityKey(1)), Some(ValidatorState::Slashed));
}

#[test]
fn slashing_short_circuits_unbonding() {
    // validator W is Unbonding{20}; evidence arrives at epoch 12
    let mut ledger = StakeLedger::new();
    ledger.register(validator(1, vec![1], 100));
    let mut machine = ValidatorStateMachine::new(Vec::new(), 15, params(5, 10));
    machine
        .transition(&ledger, &IdentityKey(1), ValidatorStateEvent::ActivateValidator)
        .unwrap();
    let r = machine.transition(&ledger, &IdentityKey(1), ValidatorStateEvent::DeactivateValidator);
    assert_eq!(r, Ok(ValidatorState::Unbonding { unbonding_epoch: 20 }));
    machine.commit_block(&mut ledger).unwrap();
    assert_eq!(
        ledger.load_validator_state(&IdentityKey(1)),
        Some(ValidatorState::Unbonding { unbonding_epoch: 20 })
    );
    let mut machine = ValidatorStateMachine::new(Vec::new(), 12, params(5, 10));
    assert_eq!(
        machine.slash_validator(&ledger, &IdentityKey(1)),
        Ok(ValidatorState::Slashed)
    );
    machine.commit_block(&mut ledger).unwrap();
    assert_eq!(ledger.load_validator_state(&IdentityKey(1)), Some(ValidatorState::Slashed));
    assert_eq!(ledger.bonded_amount_of(&IdentityKey(1)), Some(0));
}

#[test]
fn unbonding_completes_only_when_epoch_reached() {
    // validator V: Inactive -> Active -> Unbonding{15} at epoch 10, delay 5
    let mut ledger = StakeLedger::new();
    ledger.register(validator(1, vec![1], 100));
    let mut machine = ValidatorStateMachine::new(Vec::new(), 9, params(5, 10));
    assert_eq!(
        machine.transition(&ledger, &IdentityKey(1), ValidatorStateEvent::ActivateValidator),
        Ok(ValidatorState::Active)
    );
    machine.commit_block(&mut ledger).unwrap();
    let mut machine = ValidatorStateMachine::new(Vec::new(), 10, params(5, 10));
    assert_eq!(
        machine.transition(&ledger, &IdentityKey(1), ValidatorStateEvent::DeactivateValidator),
        Ok(ValidatorState::Unbonding { unbonding_epoch: 15 })
    );
    machine.commit_block(&mut ledger).unwrap();
    // at epoch 14 the scan leaves it untouched
    let mut machine = ValidatorStateMachine::new(Vec::new(), 14, params(5, 10));
    machine.unbonding_scan(&ledger);
    assert_eq!(machine.get_state(&IdentityKey(1)), None);
    machine.commit_block(&mut ledger).unwrap();
    assert_eq!(
        ledger.load_validator_state(&IdentityKey(1)),
        Some(ValidatorState::Unbonding { unbonding_epoch: 15 })
    );
    // at epoch 15 the scan moves it to Inactive and releases the stake
    let mut machine = ValidatorStateMachine::new(Vec::new(), 15, params(5, 10));
    machine.unbonding_scan(&ledger);
    assert_eq!(machine.get_state(&IdentityKey(1)), Some(ValidatorState::Inactive));
    machine.commit_block(&mut ledger).unwrap();
    assert_eq!(ledger.load_validator_state(&IdentityKey(1)), Some(ValidatorState::Inactive));
    assert_eq!(ledger.bonded_amount_of(&IdentityKey(1)), Some(0));
}

#[test]
fn selector_promotes_top_validators_with_identity_tie_break() {
    // bound 2, three inactive validators with stakes A:100, B:80, C:80;
    // B wins the tie over C by lower identity key
    let mut ledger = StakeLedger::new();
    ledger.register(validator(1, vec![1], 100)); // A
    ledger.register(validator(2, vec![2], 80)); // B
    ledger.register(validator(3, vec![3], 80)); // C
    let mut machine = ValidatorStateMachine::new(Vec::new(), 0, params(5, 2));
    machine.select_consensus_set(&ledger);
    assert_eq!(machine.get_state(&IdentityKey(1)), Some(ValidatorState::Active));
    assert_eq!(machine.get_state(&IdentityKey(2)), Some(ValidatorState::Active));
    assert_eq!(machine.get_state(&IdentityKey(3)), None);
    machine.commit_block(&mut ledger).unwrap();
    assert_eq!(ledger.load_validator_state(&IdentityKey(1)), Some(ValidatorState::Active));
    assert_eq!(ledger.load_validator_state(&IdentityKey(2)), Some(ValidatorState::Active));
    assert_eq!(ledger.load_validator_state(&IdentityKey(3)), Some(ValidatorState::Inactive));
}

#[test]
fn selector_demotes_active_validators_outside_bound() {
    let mut ledger = StakeLedger::new();
    ledger.register(validator(1, vec![1], 10));
    ledger.register(validator(2, vec![2], 90));
    // make the weaker validator Active first
    let mut machine = ValidatorStateMachine::new(Vec::new(), 3, params(4, 1));
    machine
        .transition(&ledger, &IdentityKey(1), ValidatorStateEvent::ActivateValidator)
        .unwrap();
    machine.commit_block(&mut ledger).unwrap();
    // with bound 1, the stronger inactive validator displaces it
    let mut machine = ValidatorStateMachine::new(Vec::new(), 3, params(4, 1));
    machine.select_consensus_set(&ledger);
    assert_eq!(
        machine.get_state(&IdentityKey(1)),
        Some(ValidatorState::Unbonding { unbonding_epoch: 7 })
    );
    assert_eq!(machine.get_state(&IdentityKey(2)), Some(ValidatorState::Active));
}

#[test]
fn selector_is_idempotent_on_correct_buckets() {
    let mut ledger = StakeLedger::new();
    ledger.register(validator(1, vec![1], 100));
    let mut machine = ValidatorStateMachine::new(Vec::new(), 0, params(5, 1));
    machine
        .transition(&ledger, &IdentityKey(1), ValidatorStateEvent::ActivateValidator)
        .unwrap();
    machine.commit_block(&mut ledger).unwrap();
    let mut machine = ValidatorStateMachine::new(Vec::new(), 1, params(5, 1));
    machine.select_consensus_set(&ledger);
    // already Active and inside the bound: untouched
    assert_eq!(machine.get_state(&IdentityKey(1)), None);
}

#[test]
fn selection_is_deterministic_across_runs() {
    let mut ledger = StakeLedger::new();
    ledger.register(validator(1, vec![1], 5));
    ledger.register(validator(2, vec![2], 80));
    ledger.register(validator(3, vec![3], 80));
    ledger.register(validator(4, vec![4], 100));
    let mut first = ValidatorStateMachine::new(Vec::new(), 6, params(3, 2));
    let mut second = ValidatorStateMachine::new(Vec::new(), 6, params(3, 2));
    first.select_consensus_set(&ledger);
    second.select_consensus_set(&ledger);
    for id in 1..=4 {
        assert_eq!(first.get_state(&IdentityKey(id)), second.get_state(&IdentityKey(id)));
    }
}

#[test]
fn epoch_end_runs_scan_then_selection() {
    let mut ledger = StakeLedger::new();
    ledger.register(validator(1, vec![1], 100));
    ledger.register(validator(2, vec![2], 60));
    // validator 1 finishes unbonding at epoch 8; validator 2 is inactive
    let mut machine = ValidatorStateMachine::new(Vec::new(), 4, params(4, 1));
    machine
        .transition(&ledger, &IdentityKey(1), ValidatorStateEvent::ActivateValidator)
        .unwrap();
    machine.commit_block(&mut ledger).unwrap();
    let mut machine = ValidatorStateMachine::new(Vec::new(), 4, params(4, 1));
    machine
        .transition(&ledger, &IdentityKey(1), ValidatorStateEvent::DeactivateValidator)
        .unwrap();
    machine.commit_block(&mut ledger).unwrap();
    // at epoch 8 the scan returns validator 1 to Inactive, and the
    // selection then picks it (bonded 100 > 60) for the single slot
    let mut machine = ValidatorStateMachine::new(Vec::new(), 8, params(4, 1));
    machine.on_epoch_end(&ledger);
    assert_eq!(machine.get_state(&IdentityKey(1)), Some(ValidatorState::Active));
    assert_eq!(machine.get_state(&IdentityKey(2)), None);
}

#[test]
fn get_state_absent_means_unchanged_from_ledger() {
    let machine = ValidatorStateMachine::new(Vec::new(), 0, params(5, 10));
    assert_eq!(machine.get_state(&IdentityKey(1)), None);
}

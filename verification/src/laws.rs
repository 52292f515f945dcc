//! The engine's global guarantees, stated and proved once, over the same
//! spec functions its public contracts use.

use vstd::prelude::*;

use crate::errors::StakeError;
use crate::errors::StateEncodingError;
use crate::keys::IdentityKey;
use crate::ledger::entry_key;
use crate::ledger::lemma_find_entry_some;
use crate::ledger::LedgerEntry;
use crate::ledger::StakeLedger;
use crate::machine::transition_spec;
use crate::machine::ValidatorStateMachine;
use crate::state::name_of_text;
use crate::state::name_text;
use crate::state::state_from_parts;
use crate::state::state_to_parts;
use crate::state::ValidatorState;
use crate::state::ValidatorStateEvent;
use crate::state::ValidatorStateName;

verus! {

/// A state's (name, optional epoch) encoding decodes back to the same
/// state: the encoding is lossless, and it carries an epoch exactly for
/// `Unbonding`.
pub proof fn lemma_state_encoding_round_trip(s: ValidatorState)
    ensures
        state_from_parts(state_to_parts(s)) == Ok::<ValidatorState, StateEncodingError>(s),
        state_to_parts(s).1 is Some <==> s is Unbonding,
{
}

/// Decoding accepts a (name, optional epoch) pair exactly when the epoch
/// is paired with the `Unbonding` name, and rejects every mismatched pair.
pub proof fn lemma_state_encoding_rejects_mismatch(parts: (ValidatorStateName, Option<u64>))
    ensures
        state_from_parts(parts) is Ok <==> (parts.0 is Unbonding <==> parts.1 is Some),
        state_from_parts(parts) matches Ok(s) ==> state_to_parts(s) == parts,
{
}

/// The stable string form of a state name parses back to the same name.
pub proof fn lemma_name_text_round_trip(n: ValidatorStateName)
    ensures
        name_of_text(name_text(n)) == Ok::<ValidatorStateName, StateEncodingError>(n),
{
    reveal_strlit("INACTIVE");
    reveal_strlit("ACTIVE");
    reveal_strlit("UNBONDING");
    reveal_strlit("SLASHED");
    assert("INACTIVE"@.len() == 8);
    assert("ACTIVE"@.len() == 6);
    assert("UNBONDING"@.len() == 9);
    assert("SLASHED"@.len() == 7);
}

/// The transition table is legal exactly for the five enumerated
/// (state, event) pairs; every other pair is rejected.
pub proof fn lemma_transition_table(
    current: ValidatorState,
    event: ValidatorStateEvent,
    current_epoch: u64,
    unbonding_delay: u64,
)
    ensures
        transition_spec(current, event, current_epoch, unbonding_delay) is Some <==> {
            ||| (current is Inactive && event is ActivateValidator)
            ||| (current is Active && event is DeactivateValidator)
            ||| (current is Active && event is SlashValidator)
            ||| (current is Unbonding && event is SlashValidator)
            ||| (current is Inactive && event is SlashValidator)
        },
{
}

/// `Slashed` is terminal: no event whatsoever transitions a slashed
/// validator to any state.
pub proof fn lemma_slashed_terminal(
    event: ValidatorStateEvent,
    current_epoch: u64,
    unbonding_delay: u64,
)
    ensures
        transition_spec(ValidatorState::Slashed, event, current_epoch, unbonding_delay) is None,
{
}

/// Once a validator's effective state is `Slashed`, every submitted event
/// is rejected and the block's working set is left exactly as it was: the
/// state can never change again through the state machine.
pub proof fn lemma_slashed_unchanged(
    pre: ValidatorStateMachine,
    post: ValidatorStateMachine,
    ledger: StakeLedger,
    k: IdentityKey,
    event: ValidatorStateEvent,
    r: Result<ValidatorState, StakeError>,
)
    requires
        pre.effective_state(ledger, k) == Some(ValidatorState::Slashed),
        ValidatorStateMachine::transition_post(pre, post, ledger, k, event, r),
    ensures
        r == Err::<ValidatorState, StakeError>(StakeError::IllegalTransition),
        forall|k2: IdentityKey| post.staged_lookup(k2) == pre.staged_lookup(k2),
{
    lemma_slashed_terminal(event, pre.epoch(), pre.parameters().unbonding_delay);
}

/// The epoch scan promotes a validator out of `Unbonding` only when the
/// chain has reached its recorded unbonding epoch, never earlier: an
/// unbonding validator whose epoch lies in the future is left untouched.
pub proof fn lemma_scan_promotes_only_due(
    m: ValidatorStateMachine,
    ledger: StakeLedger,
    k: IdentityKey,
)
    ensures
        m.scan_promotes(ledger, k) ==> (m.effective_state(ledger, k) matches Some(
            ValidatorState::Unbonding { unbonding_epoch },
        ) && m.epoch() >= unbonding_epoch),
        (m.effective_state(ledger, k) matches Some(ValidatorState::Unbonding { unbonding_epoch })
            && m.epoch() < unbonding_epoch) ==> m.scan_staged(ledger, k) == m.staged_lookup(k),
{
}

/// An outranking count depends only on the staged states, never on the
/// machine value carrying them.
proof fn lemma_count_outranking_congruence(
    m1: ValidatorStateMachine,
    m2: ValidatorStateMachine,
    ledger: StakeLedger,
    s: Seq<LedgerEntry>,
    e: LedgerEntry,
)
    requires
        forall|k: IdentityKey| m1.staged_lookup(k) == m2.staged_lookup(k),
    ensures
        m1.count_outranking(ledger, s, e) == m2.count_outranking(ledger, s, e),
    decreases s.len(),
{
    if s.len() > 0 {
        assert(m1.effective_state(ledger, entry_key(s[0])) == m2.effective_state(
            ledger,
            entry_key(s[0]),
        ));
        lemma_count_outranking_congruence(m1, m2, ledger, s.drop_first(), e);
    }
}

/// The epoch-boundary hooks are deterministic: two machines over the same
/// ledger, with pointwise identical staged states, the same epoch and the
/// same parameters, stage identical results for every identity — including
/// the tie-break by identity key. Together with the hooks' own contracts,
/// which pin their staged output to these spec functions, two independent
/// runs on identical inputs produce identical assignments.
pub proof fn lemma_selection_deterministic(
    m1: ValidatorStateMachine,
    m2: ValidatorStateMachine,
    ledger: StakeLedger,
    k: IdentityKey,
)
    requires
        forall|k2: IdentityKey| m1.staged_lookup(k2) == m2.staged_lookup(k2),
        m1.epoch() == m2.epoch(),
        m1.parameters() == m2.parameters(),
    ensures
        m1.scan_staged(ledger, k) == m2.scan_staged(ledger, k),
        m1.selection_staged(ledger, k) == m2.selection_staged(ledger, k),
{
    assert(m1.effective_state(ledger, k) == m2.effective_state(ledger, k));
    match ledger.entry_of(k) {
        Some(e) => {
            lemma_find_entry_some(ledger.entries(), k);
            lemma_count_outranking_congruence(m1, m2, ledger, ledger.entries(), e);
        },
        None => {},
    }
}

} // verus!

//! The validator state machine: the block-scoped working set in which all
//! lifecycle transitions are computed.
//!
//! The machine holds the block's staged state changes (an overlay over the
//! committed ledger), the roster of validators known during the block, and
//! the block's epoch and staking parameters. Events are applied through
//! [`ValidatorStateMachine::transition`]; the epoch-boundary hooks — the
//! unbonding scan and the consensus-set selector — stage their changes the
//! same way. Nothing durable happens until the whole staged set is flushed
//! by [`ValidatorStateMachine::commit_block`].

use vstd::prelude::*;

use crate::errors::StakeError;
use crate::keys::ConsensusKey;
use crate::keys::IdentityKey;
use crate::keys::ValidatorInfo;
use crate::ledger::commit_post;
use crate::ledger::distinct_staged_keys;
use crate::ledger::entry_key;
use crate::ledger::find_entry;
use crate::ledger::find_staged;
use crate::ledger::lemma_find_entry_hit;
use crate::ledger::lemma_find_entry_some;
use crate::ledger::lemma_find_staged_hit;
use crate::ledger::lemma_find_staged_none;
use crate::ledger::lemma_find_staged_push;
use crate::ledger::lemma_find_staged_some;
use crate::ledger::staged_lookup_vec;
use crate::ledger::LedgerEntry;
use crate::ledger::StakeLedger;
use crate::params::StakeParameters;
use crate::state::ValidatorState;
use crate::state::ValidatorStateEvent;

verus! {

/// The transition table: for a current state and an incoming event, the
/// next state, or `None` where the pair is illegal.
///
/// `Slashed` is reachable from every non-terminal state, because evidence
/// of misbehavior can arrive regardless of the bonding phase, and slashing
/// short-circuits an in-progress unbonding countdown. `Slashed` itself is
/// terminal. Leaving the consensus set starts an unbonding period ending at
/// `current_epoch + unbonding_delay`; its completion is driven by the epoch
/// scan, not by an event.
pub open spec fn transition_spec(
    current: ValidatorState,
    event: ValidatorStateEvent,
    current_epoch: u64,
    unbonding_delay: u64,
) -> Option<ValidatorState> {
    match (current, event) {
        (ValidatorState::Inactive, ValidatorStateEvent::ActivateValidator) => Some(
            ValidatorState::Active,
        ),
        (ValidatorState::Active, ValidatorStateEvent::DeactivateValidator) => Some(
            ValidatorState::Unbonding {
                unbonding_epoch: (current_epoch + unbonding_delay) as u64,
            },
        ),
        (ValidatorState::Active, ValidatorStateEvent::SlashValidator) => Some(
            ValidatorState::Slashed,
        ),
        (ValidatorState::Unbonding { .. }, ValidatorStateEvent::SlashValidator) => Some(
            ValidatorState::Slashed,
        ),
        (ValidatorState::Inactive, ValidatorStateEvent::SlashValidator) => Some(
            ValidatorState::Slashed,
        ),
        _ => None,
    }
}

/// The pure transition function. Returns the next state for a legal
/// (state, event) pair and `None` for every other pair.
pub fn next_state(
    current: ValidatorState,
    event: ValidatorStateEvent,
    current_epoch: u64,
    unbonding_delay: u64,
) -> (r: Option<ValidatorState>)
    requires
        current_epoch + unbonding_delay <= u64::MAX,
    ensures
        r == transition_spec(current, event, current_epoch, unbonding_delay),
{
    match (current, event) {
        (ValidatorState::Inactive, ValidatorStateEvent::ActivateValidator) => Some(
            ValidatorState::Active,
        ),
        (ValidatorState::Active, ValidatorStateEvent::DeactivateValidator) => Some(
            ValidatorState::Unbonding { unbonding_epoch: current_epoch + unbonding_delay },
        ),
        (ValidatorState::Active, ValidatorStateEvent::SlashValidator) => Some(
            ValidatorState::Slashed,
        ),
        (ValidatorState::Unbonding { .. }, ValidatorStateEvent::SlashValidator) => Some(
            ValidatorState::Slashed,
        ),
        (ValidatorState::Inactive, ValidatorStateEvent::SlashValidator) => Some(
            ValidatorState::Slashed,
        ),
        _ => None,
    }
}

/// Two machine values that belong to the same block: same roster, same
/// epoch, same parameters.
pub open spec fn same_block(pre: ValidatorStateMachine, post: ValidatorStateMachine) -> bool {
    &&& post.roster() == pre.roster()
    &&& post.epoch() == pre.epoch()
    &&& post.parameters() == pre.parameters()
}

/// A validator outranks another in the consensus-set selection order when
/// it has more bonded stake, ties broken by lower identity key; this is a
/// strict total order over distinct registered validators, so the selection
/// is canonical across replicas.
pub open spec fn outranks(a: LedgerEntry, b: LedgerEntry) -> bool {
    ||| a.bonded_amount > b.bonded_amount
    ||| (a.bonded_amount == b.bonded_amount && entry_key(a).0 < entry_key(b).0)
}

/// Records pending state changes to validators for the block currently
/// being executed, together with the roster of validators that exist during
/// the lifespan of the block and the block's read-only configuration.
#[derive(Clone, Debug)]
pub struct ValidatorStateMachine {
    /// Staged state changes, not yet persisted.
    validator_state_changes: Vec<(IdentityKey, ValidatorState)>,
    /// Validators that exist during the lifespan of the block.
    block_validators: Vec<ValidatorInfo>,
    /// The epoch of the block being executed.
    current_epoch: u64,
    /// Read-only staking configuration for this block.
    params: StakeParameters,
}

impl ValidatorStateMachine {
    /// The staged transitions, in staging order.
    pub closed spec fn staged_seq(self) -> Seq<(IdentityKey, ValidatorState)> {
        self.validator_state_changes@
    }

    /// The staged state for an identity key, if a transition has been
    /// staged in this block.
    pub open spec fn staged_lookup(self, k: IdentityKey) -> Option<ValidatorState> {
        find_staged(self.staged_seq(), k)
    }

    /// The block's validator roster.
    pub closed spec fn roster(self) -> Seq<ValidatorInfo> {
        self.block_validators@
    }

    /// The epoch of the block being executed.
    pub closed spec fn epoch(self) -> u64 {
        self.current_epoch
    }

    /// The block's staking parameters.
    pub closed spec fn parameters(self) -> StakeParameters {
        self.params
    }

    /// Well-formedness: no identity is staged twice, and the unbonding
    /// target epoch cannot overflow.
    pub open spec fn wf(self) -> bool {
        &&& distinct_staged_keys(self.staged_seq())
        &&& self.epoch() + self.parameters().unbonding_delay <= u64::MAX
    }

    /// The state a validator has at this point of the block: the staged
    /// state if one is staged, otherwise the last committed state; `None`
    /// for a validator the ledger does not know.
    pub open spec fn effective_state(self, ledger: StakeLedger, k: IdentityKey) -> Option<
        ValidatorState,
    > {
        match ledger.state_of(k) {
            Some(committed) => match self.staged_lookup(k) {
                Some(pending) => Some(pending),
                None => Some(committed),
            },
            None => None,
        }
    }

    /// What `transition` promises: on success the returned state follows
    /// the transition table applied to the effective state and is staged
    /// for the identity, and nothing else changes; on failure nothing
    /// changes and the error tells exactly why.
    pub open spec fn transition_post(
        pre: ValidatorStateMachine,
        post: ValidatorStateMachine,
        ledger: StakeLedger,
        k: IdentityKey,
        event: ValidatorStateEvent,
        r: Result<ValidatorState, StakeError>,
    ) -> bool {
        let eff = pre.effective_state(ledger, k);
        let table = transition_spec(
            eff.unwrap(),
            event,
            pre.epoch(),
            pre.parameters().unbonding_delay,
        );
        &&& same_block(pre, post)
        &&& (r is Ok <==> (eff is Some && table is Some))
        &&& match r {
            Ok(next) => {
                &&& table == Some(next)
                &&& forall|k2: IdentityKey|
                    post.staged_lookup(k2) == (if k2 == k {
                        Some(next)
                    } else {
                        pre.staged_lookup(k2)
                    })
            },
            Err(e) => {
                &&& forall|k2: IdentityKey| post.staged_lookup(k2) == pre.staged_lookup(k2)
                &&& (e == StakeError::UnknownValidator <==> eff is None)
                &&& (e == StakeError::IllegalTransition <==> (eff is Some && table is None))
            },
        }
    }

    /// A fresh working set for one block.
    pub fn new(
        block_validators: Vec<ValidatorInfo>,
        current_epoch: u64,
        params: StakeParameters,
    ) -> (r: ValidatorStateMachine)
        requires
            current_epoch + params.unbonding_delay <= u64::MAX,
        ensures
            r.wf(),
            r.roster() == block_validators@,
            r.epoch() == current_epoch,
            r.parameters() == params,
            forall|k: IdentityKey| r.staged_lookup(k) is None,
    {
        let r = ValidatorStateMachine {
            validator_state_changes: Vec::new(),
            block_validators,
            current_epoch,
            params,
        };
        proof {
            assert forall|k: IdentityKey| r.staged_lookup(k) is None by {
                lemma_find_staged_none(r.staged_seq(), k);
            }
        }
        r
    }

    /// Returns the pending state staged for this identity in the current
    /// block, if any; absence means "unchanged from the ledger", and the
    /// caller falls back to the ledger's last committed state.
    pub fn get_state(&self, identity_key: &IdentityKey) -> (r: Option<ValidatorState>)
        ensures
            r == self.staged_lookup(*identity_key),
    {
        staged_lookup_vec(&self.validator_state_changes, identity_key)
    }

    /// Position of the already-staged change for an identity key, if any.
    fn find_change_index(&self, key: &IdentityKey) -> (r: Option<usize>)
        ensures
            match r {
                Some(i) => {
                    &&& i < self.staged_seq().len()
                    &&& self.staged_seq()[i as int].0 == *key
                    &&& forall|j: int|
                        0 <= j < i ==> (#[trigger] self.staged_seq()[j]).0 != *key
                },
                None => forall|j: int|
                    0 <= j < self.staged_seq().len() ==> (#[trigger] self.staged_seq()[j]).0
                        != *key,
            },
    {
        let n = self.validator_state_changes.len();
        let mut i: usize = 0;
        while i < n
            invariant
                n == self.validator_state_changes@.len(),
                0 <= i <= n,
                forall|j: int| 0 <= j < i ==> (#[trigger] self.validator_state_changes@[j]).0 != *key,
            decreases n - i,
        {
            if self.validator_state_changes[i].0 == *key {
                return Some(i);
            }
            i += 1;
        }
        None
    }

    /// Stages (or restages) a state for an identity key.
    fn stage_change(&mut self, key: IdentityKey, st: ValidatorState)
        requires
            old(self).wf(),
        ensures
            final(self).wf(),
            same_block(*old(self), *final(self)),
            forall|k2: IdentityKey|
                final(self).staged_lookup(k2) == (if k2 == key {
                    Some(st)
                } else {
                    old(self).staged_lookup(k2)
                }),
    {
        let ghost pre = self.validator_state_changes@;
        match self.find_change_index(&key) {
            Some(i) => {
                self.validator_state_changes[i].1 = st;
                proof {
                    let s = self.validator_state_changes@;
                    assert(s.len() == pre.len());
                    assert(s[i as int].0 == key && s[i as int].1 == st);
                    assert(forall|m: int| 0 <= m < s.len() && m != i ==> s[m] == pre[m]);
                    assert(forall|m: int| 0 <= m < s.len() ==> (#[trigger] s[m]).0 == pre[m].0);
                    assert forall|a: int, b: int|
                        0 <= a < b < s.len() implies (#[trigger] s[a]).0 != (#[trigger] s[b]).0 by {
                        assert(pre[a].0 != pre[b].0);
                    }
                    assert forall|k2: IdentityKey|
                        self.staged_lookup(k2) == (if k2 == key {
                            Some(st)
                        } else {
                            find_staged(pre, k2)
                        }) by {
                        if k2 == key {
                            lemma_find_staged_hit(s, k2, i as int);
                        } else {
                            match find_staged(pre, k2) {
                                Some(v) => {
                                    lemma_find_staged_some(pre, k2);
                                    let j = choose|j: int|
                                        0 <= j < pre.len() && (#[trigger] pre[j]).0 == k2
                                            && find_staged(pre, k2) == Some(pre[j].1);
                                    assert forall|m: int| 0 <= m < j implies (#[trigger] s[m]).0
                                        != k2 by {
                                        assert(pre[m].0 != pre[j].0);
                                    }
                                    assert(s[j] == pre[j]);
                                    lemma_find_staged_hit(s, k2, j);
                                },
                                None => {
                                    assert forall|m: int|
                                        0 <= m < s.len() implies (#[trigger] s[m]).0 != k2 by {
                                        if s[m].0 == k2 {
                                            assert(pre[m].0 == k2);
                                            assert forall|q: int|
                                                0 <= q < m implies (#[trigger] pre[q]).0 != k2 by {
                                                if pre[q].0 == k2 {
                                                    assert(pre[q].0 != pre[m].0);
                                                }
                                            }
                                            lemma_find_staged_hit(pre, k2, m);
                                        }
                                    }
                                    lemma_find_staged_none(s, k2);
                                },
                            }
                        }
                    }
                }
            },
            None => {
                self.validator_state_changes.push((key, st));
                proof {
                    let s = self.validator_state_changes@;
                    assert(s == pre.push((key, st)));
                    assert forall|k2: IdentityKey|
                        self.staged_lookup(k2) == (if k2 == key {
                            Some(st)
                        } else {
                            find_staged(pre, k2)
                        }) by {
                        lemma_find_staged_push(pre, (key, st), k2);
                        if k2 == key {
                            lemma_find_staged_none(pre, k2);
                        }
                    }
                    assert forall|a: int, b: int|
                        0 <= a < b < s.len() implies (#[trigger] s[a]).0 != (#[trigger] s[b]).0 by {
                        if b < pre.len() {
                            assert(pre[a].0 != pre[b].0);
                        } else {
                            assert(s[a] == pre[a]);
                        }
                    }
                }
            },
        }
    }

    /// Applies a batch of distinct-keyed staged decisions.
    fn apply_decisions(&mut self, decisions: &Vec<(IdentityKey, ValidatorState)>)
        requires
            old(self).wf(),
            distinct_staged_keys(decisions@),
        ensures
            final(self).wf(),
            same_block(*old(self), *final(self)),
            forall|k: IdentityKey|
                final(self).staged_lookup(k) == (match find_staged(decisions@, k) {
                    Some(s) => Some(s),
                    None => old(self).staged_lookup(k),
                }),
    {
        let n = decisions.len();
        let mut j: usize = 0;
        while j < n
            invariant
                self.wf(),
                distinct_staged_keys(decisions@),
                n == decisions@.len(),
                0 <= j <= n,
                same_block(*old(self), *self),
                forall|k: IdentityKey|
                    self.staged_lookup(k) == (match find_staged(
                        decisions@.subrange(0, j as int),
                        k,
                    ) {
                        Some(s) => Some(s),
                        None => old(self).staged_lookup(k),
                    }),
            decreases n - j,
        {
            let key = decisions[j].0;
            let st = decisions[j].1;
            let ghost mid = *self;
            self.stage_change(key, st);
            proof {
                let prefix = decisions@.subrange(0, j as int);
                assert(decisions@.subrange(0, j as int + 1) =~= prefix.push(decisions@[j as int]));
                assert forall|k: IdentityKey|
                    self.staged_lookup(k) == (match find_staged(
                        decisions@.subrange(0, j as int + 1),
                        k,
                    ) {
                        Some(s) => Some(s),
                        None => old(self).staged_lookup(k),
                    }) by {
                    lemma_find_staged_push(prefix, decisions@[j as int], k);
                    if k == key {
                        assert forall|m: int| 0 <= m < prefix.len() implies (#[trigger] prefix[m]).0
                            != k by {
                            assert(decisions@[m].0 != decisions@[j as int].0);
                        }
                        lemma_find_staged_none(prefix, k);
                    }
                }
            }
            j += 1;
        }
        proof {
            assert(decisions@.subrange(0, n as int) =~= decisions@);
        }
    }

    /// Looks up the current state (ledger-committed, overridden by any
    /// already-staged pending state within the same block), applies the
    /// transition table, stages the result in the working set, and returns
    /// it. Fails with `IllegalTransition` if the (state, event) pair is not
    /// in the table, and with `UnknownValidator` if the identity is not
    /// registered.
    pub fn transition(
        &mut self,
        ledger: &StakeLedger,
        identity_key: &IdentityKey,
        event: ValidatorStateEvent,
    ) -> (r: Result<ValidatorState, StakeError>)
        requires
            old(self).wf(),
            ledger.wf(),
        ensures
            final(self).wf(),
            Self::transition_post(*old(self), *final(self), *ledger, *identity_key, event, r),
    {
        let committed = match ledger.load_validator_state(identity_key) {
            Some(c) => c,
            None => {
                return Err(StakeError::UnknownValidator);
            },
        };
        let current = match self.get_state(identity_key) {
            Some(pending) => pending,
            None => committed,
        };
        match next_state(current, event, self.current_epoch, self.params.unbonding_delay) {
            Some(next) => {
                self.stage_change(*identity_key, next);
                Ok(next)
            },
            None => Err(StakeError::IllegalTransition),
        }
    }

    /// Number of roster entries whose consensus key carries these bytes.
    pub open spec fn matching_key_count(roster: Seq<ValidatorInfo>, ck: Seq<u8>) -> nat
        decreases roster.len(),
    {
        if roster.len() == 0 {
            0
        } else {
            (if roster[0].validator.consensus_key@ == ck {
                1nat
            } else {
                0nat
            }) + Self::matching_key_count(roster.drop_first(), ck)
        }
    }

    /// First roster entry whose consensus key carries these bytes.
    pub open spec fn first_matching(roster: Seq<ValidatorInfo>, ck: Seq<u8>) -> Option<
        ValidatorInfo,
    >
        decreases roster.len(),
    {
        if roster.len() == 0 {
            None
        } else if roster[0].validator.consensus_key@ == ck {
            Some(roster[0])
        } else {
            Self::first_matching(roster.drop_first(), ck)
        }
    }

    /// Resolves a consensus signing key to its identity key via the block's
    /// validator roster — requiring exactly one match — then delegates to
    /// [`ValidatorStateMachine::transition`]. An absent key fails with
    /// `UnknownValidator`; a key shared by several roster entries fails
    /// with `AmbiguousConsensusKey` rather than being silently resolved.
    pub fn transition_validator(
        &mut self,
        ledger: &StakeLedger,
        ck: &ConsensusKey,
        event: ValidatorStateEvent,
    ) -> (r: Result<ValidatorState, StakeError>)
        requires
            old(self).wf(),
            ledger.wf(),
        ensures
            final(self).wf(),
            same_block(*old(self), *final(self)),
            Self::matching_key_count(old(self).roster(), ck@) == 0 ==> r == Err::<
                ValidatorState,
                StakeError,
            >(StakeError::UnknownValidator) && (forall|k2: IdentityKey|
                final(self).staged_lookup(k2) == old(self).staged_lookup(k2)),
            Self::matching_key_count(old(self).roster(), ck@) >= 2 ==> r == Err::<
                ValidatorState,
                StakeError,
            >(StakeError::AmbiguousConsensusKey) && (forall|k2: IdentityKey|
                final(self).staged_lookup(k2) == old(self).staged_lookup(k2)),
            Self::matching_key_count(old(self).roster(), ck@) == 1 ==> Self::transition_post(
                *old(self),
                *final(self),
                *ledger,
                Self::first_matching(old(self).roster(), ck@).unwrap().validator.identity_key,
                event,
                r,
            ),
    {
        let n = self.block_validators.len();
        let mut count: usize = 0;
        let mut first: usize = 0;
        let mut i: usize = 0;
        while i < n
            invariant
                n == self.block_validators@.len(),
                0 <= i <= n,
                count <= i,
                count as nat == Self::matching_key_count(
                    self.block_validators@.subrange(0, i as int),
                    ck@,
                ),
                count == 0 ==> Self::first_matching(
                    self.block_validators@.subrange(0, i as int),
                    ck@,
                ) is None,
                count > 0 ==> first < i && Self::first_matching(
                    self.block_validators@.subrange(0, i as int),
                    ck@,
                ) == Some(self.block_validators@[first as int]),
            decreases n - i,
        {
            proof {
                assert(self.block_validators@.subrange(0, i as int + 1)
                    =~= self.block_validators@.subrange(0, i as int).push(
                    self.block_validators@[i as int],
                ));
                lemma_matching_push(
                    self.block_validators@.subrange(0, i as int),
                    self.block_validators@[i as int],
                    ck@,
                );
            }
            if self.block_validators[i].validator.consensus_key.matches(ck) {
                if count == 0 {
                    first = i;
                }
                count += 1;
            }
            i += 1;
        }
        proof {
            assert(self.block_validators@.subrange(0, n as int) =~= self.block_validators@);
        }
        if count == 0 {
            return Err(StakeError::UnknownValidator);
        }
        if count >= 2 {
            return Err(StakeError::AmbiguousConsensusKey);
        }
        let id = self.block_validators[first].validator.identity_key;
        self.transition(ledger, &id, event)
    }

    /// Given verified misbehavior evidence against this identity, issues a
    /// `SlashValidator` event. Slashing an already-`Slashed` validator is a
    /// no-op, not an error, so the penalty is applied at most once; for
    /// every other known state the validator is immediately `Slashed`.
    pub fn slash_validator(&mut self, ledger: &StakeLedger, identity_key: &IdentityKey) -> (r:
        Result<ValidatorState, StakeError>)
        requires
            old(self).wf(),
            ledger.wf(),
        ensures
            final(self).wf(),
            same_block(*old(self), *final(self)),
            r is Ok <==> old(self).effective_state(*ledger, *identity_key) is Some,
            match r {
                Ok(s) => {
                    &&& s == ValidatorState::Slashed
                    &&& if old(self).effective_state(*ledger, *identity_key) == Some(
                        ValidatorState::Slashed,
                    ) {
                        forall|k2: IdentityKey|
                            final(self).staged_lookup(k2) == old(self).staged_lookup(k2)
                    } else {
                        forall|k2: IdentityKey|
                            final(self).staged_lookup(k2) == (if k2 == *identity_key {
                                Some(ValidatorState::Slashed)
                            } else {
                                old(self).staged_lookup(k2)
                            })
                    }
                },
                Err(e) => {
                    &&& e == StakeError::UnknownValidator
                    &&& forall|k2: IdentityKey|
                        final(self).staged_lookup(k2) == old(self).staged_lookup(k2)
                },
            },
    {
        let committed = match ledger.load_validator_state(identity_key) {
            Some(c) => c,
            None => {
                return Err(StakeError::UnknownValidator);
            },
        };
        let current = match self.get_state(identity_key) {
            Some(pending) => pending,
            None => committed,
        };
        if matches!(current, ValidatorState::Slashed) {
            return Ok(ValidatorState::Slashed);
        }
        self.transition(ledger, identity_key, ValidatorStateEvent::SlashValidator)
    }

    /// Whether the epoch scan promotes this validator: its effective state
    /// is `Unbonding` and the chain has reached its unbonding epoch.
    pub open spec fn scan_promotes(self, ledger: StakeLedger, k: IdentityKey) -> bool {
        match self.effective_state(ledger, k) {
            Some(ValidatorState::Unbonding { unbonding_epoch }) => self.epoch() >= unbonding_epoch,
            _ => false,
        }
    }

    /// The staged state for an identity after the unbonding scan.
    pub open spec fn scan_staged(self, ledger: StakeLedger, k: IdentityKey) -> Option<
        ValidatorState,
    > {
        if self.scan_promotes(ledger, k) {
            Some(ValidatorState::Inactive)
        } else {
            self.staged_lookup(k)
        }
    }

    /// The effective state of the validator holding position `i` of the
    /// ledger's canonical order.
    fn effective_of_entry(&self, ledger: &StakeLedger, i: usize) -> (r: ValidatorState)
        requires
            self.wf(),
            ledger.wf(),
            i < ledger.entries().len(),
        ensures
            Some(r) == self.effective_state(*ledger, entry_key(ledger.entries()[i as int])),
    {
        let e = ledger.entry_at(i);
        let key = e.info.validator.identity_key;
        proof {
            assert forall|j: int| 0 <= j < i implies entry_key(#[trigger] ledger.entries()[j])
                != key by {
                assert(entry_key(ledger.entries()[j]).0 < entry_key(
                    ledger.entries()[i as int],
                ).0);
            }
            lemma_find_entry_hit(ledger.entries(), key, i as int);
        }
        match self.get_state(&key) {
            Some(pending) => pending,
            None => e.state,
        }
    }

    /// Computes the unbonding-scan decisions, one per due validator, in
    /// increasing identity-key order.
    fn scan_decisions(&self, ledger: &StakeLedger) -> (decisions: Vec<(
        IdentityKey,
        ValidatorState,
    )>)
        requires
            self.wf(),
            ledger.wf(),
        ensures
            distinct_staged_keys(decisions@),
            forall|k: IdentityKey|
                find_staged(decisions@, k) == (if self.scan_promotes(*ledger, k) {
                    Some(ValidatorState::Inactive)
                } else {
                    None::<ValidatorState>
                }),
    {
        let n = ledger.validator_count();
        let mut decisions: Vec<(IdentityKey, ValidatorState)> = Vec::new();
        let mut i: usize = 0;
        while i < n
            invariant
                self.wf(),
                ledger.wf(),
                n == ledger.entries().len(),
                0 <= i <= n,
                forall|a: int, b: int|
                    0 <= a < b < decisions@.len() ==> (#[trigger] decisions@[a]).0.0 < (
                    #[trigger] decisions@[b]).0.0,
                forall|a: int|
                    0 <= a < decisions@.len() ==> (#[trigger] decisions@[a]).1
                        == ValidatorState::Inactive && self.scan_promotes(
                        *ledger,
                        decisions@[a].0,
                    ) && (exists|j: int|
                        0 <= j < i && entry_key(#[trigger] ledger.entries()[j])
                            == decisions@[a].0),
                forall|j: int|
                    0 <= j < i && self.scan_promotes(
                        *ledger,
                        entry_key(#[trigger] ledger.entries()[j]),
                    ) ==> (exists|a: int|
                        0 <= a < decisions@.len() && (#[trigger] decisions@[a]).0 == entry_key(
                            ledger.entries()[j],
                        )),
            decreases n - i,
        {
            let current = self.effective_of_entry(ledger, i);
            let e = ledger.entry_at(i);
            let key = e.info.validator.identity_key;
            let ghost pre_dec = decisions@;
            let mut promoted = false;
            match current {
                ValidatorState::Unbonding { unbonding_epoch } => {
                    if self.current_epoch >= unbonding_epoch {
                        decisions.push((key, ValidatorState::Inactive));
                        promoted = true;
                    }
                },
                _ => {},
            }
            proof {
                assert(self.scan_promotes(*ledger, key) == promoted);
                if promoted {
                    assert(decisions@ == pre_dec.push((key, ValidatorState::Inactive)));
                    assert forall|a: int, b: int|
                        0 <= a < b < decisions@.len() implies (#[trigger] decisions@[a]).0.0 < (
                    #[trigger] decisions@[b]).0.0 by {
                        if b < pre_dec.len() {
                            assert(pre_dec[a].0.0 < pre_dec[b].0.0);
                        } else {
                            let j = choose|j: int|
                                0 <= j < i && entry_key(#[trigger] ledger.entries()[j])
                                    == pre_dec[a].0;
                            assert(entry_key(ledger.entries()[j]).0 < entry_key(
                                ledger.entries()[i as int],
                            ).0);
                        }
                    }
                }
                assert forall|j: int|
                    0 <= j < i + 1 && self.scan_promotes(
                        *ledger,
                        entry_key(#[trigger] ledger.entries()[j]),
                    ) implies (exists|a: int|
                    0 <= a < decisions@.len() && (#[trigger] decisions@[a]).0 == entry_key(
                        ledger.entries()[j],
                    )) by {
                    if j == i {
                        assert(decisions@[pre_dec.len() as int].0 == key);
                    } else {
                        let a = choose|a: int|
                            0 <= a < pre_dec.len() && (#[trigger] pre_dec[a]).0 == entry_key(
                                ledger.entries()[j],
                            );
                        assert(decisions@[a].0 == entry_key(ledger.entries()[j]));
                    }
                }
            }
            i += 1;
        }
        proof {
            assert forall|k: IdentityKey|
                find_staged(decisions@, k) == (if self.scan_promotes(*ledger, k) {
                    Some(ValidatorState::Inactive)
                } else {
                    None::<ValidatorState>
                }) by {
                if self.scan_promotes(*ledger, k) {
                    lemma_find_entry_some(ledger.entries(), k);
                    let a = choose|a: int|
                        0 <= a < decisions@.len() && (#[trigger] decisions@[a]).0 == k;
                    assert forall|m: int| 0 <= m < a implies (#[trigger] decisions@[m]).0 != k by {
                        assert(decisions@[m].0.0 < decisions@[a].0.0);
                    }
                    lemma_find_staged_hit(decisions@, k, a);
                } else {
                    if find_staged(decisions@, k) is Some {
                        lemma_find_staged_some(decisions@, k);
                        assert(false);
                    }
                }
            }
        }
        decisions
    }

    /// At an epoch boundary, scans all validators; each whose effective
    /// state is `Unbonding` with its recorded unbonding epoch reached or
    /// passed is staged `Inactive`, and the corresponding bonded stake is
    /// released at commit. Validators whose unbonding epoch lies in the
    /// future are left untouched. The scan follows the ledger's canonical
    /// identity-key order, so independent replicas stage identical results.
    pub fn unbonding_scan(&mut self, ledger: &StakeLedger)
        requires
            old(self).wf(),
            ledger.wf(),
        ensures
            final(self).wf(),
            same_block(*old(self), *final(self)),
            forall|k: IdentityKey|
                final(self).staged_lookup(k) == old(self).scan_staged(*ledger, k),
    {
        let decisions = self.scan_decisions(ledger);
        self.apply_decisions(&decisions);
    }

    /// Whether this ledger record competes for a consensus-set slot: its
    /// effective state is `Inactive` or `Active`.
    pub open spec fn eligible(self, ledger: StakeLedger, e: LedgerEntry) -> bool {
        match self.effective_state(ledger, entry_key(e)) {
            Some(ValidatorState::Inactive) => true,
            Some(ValidatorState::Active) => true,
            _ => false,
        }
    }

    /// Number of entries of `s` that are eligible, distinct from `e`, and
    /// outrank `e`.
    pub open spec fn count_outranking(
        self,
        ledger: StakeLedger,
        s: Seq<LedgerEntry>,
        e: LedgerEntry,
    ) -> nat
        decreases s.len(),
    {
        if s.len() == 0 {
            0
        } else {
            (if self.eligible(ledger, s[0]) && entry_key(s[0]) != entry_key(e) && outranks(
                s[0],
                e,
            ) {
                1nat
            } else {
                0nat
            }) + self.count_outranking(ledger, s.drop_first(), e)
        }
    }

    /// A record's position in the selection order: how many eligible
    /// validators outrank it.
    pub open spec fn rank(self, ledger: StakeLedger, e: LedgerEntry) -> nat {
        self.count_outranking(ledger, ledger.entries(), e)
    }

    /// What the selector stages for one ledger record: an eligible
    /// validator within the consensus-set bound is staged `Active` if it is
    /// not already; an eligible validator outside the bound that is
    /// currently `Active` is deactivated into `Unbonding`; everything else
    /// — including validators already in the right bucket — is untouched.
    pub open spec fn selection_decision(self, ledger: StakeLedger, e: LedgerEntry) -> Option<
        ValidatorState,
    > {
        if self.eligible(ledger, e) {
            if self.rank(ledger, e) < self.parameters().active_validator_limit
                && self.effective_state(ledger, entry_key(e)) == Some(ValidatorState::Inactive) {
                Some(ValidatorState::Active)
            } else if self.rank(ledger, e) >= self.parameters().active_validator_limit
                && self.effective_state(ledger, entry_key(e)) == Some(ValidatorState::Active) {
                Some(
                    ValidatorState::Unbonding {
                        unbonding_epoch: (self.epoch() + self.parameters().unbonding_delay) as u64,
                    },
                )
            } else {
                None
            }
        } else {
            None
        }
    }

    /// The selector's decision for an identity key, if it is registered.
    pub open spec fn selection_decision_for(self, ledger: StakeLedger, k: IdentityKey) -> Option<
        ValidatorState,
    > {
        match ledger.entry_of(k) {
            Some(e) => self.selection_decision(ledger, e),
            None => None,
        }
    }

    /// The staged state for an identity after the consensus-set selection.
    pub open spec fn selection_staged(self, ledger: StakeLedger, k: IdentityKey) -> Option<
        ValidatorState,
    > {
        match self.selection_decision_for(ledger, k) {
            Some(s) => Some(s),
            None => self.staged_lookup(k),
        }
    }

    /// Counts the eligible validators that outrank the record at position
    /// `i` of the ledger's canonical order.
    fn count_outranking_exec(&self, ledger: &StakeLedger, i: usize) -> (cnt: usize)
        requires
            self.wf(),
            ledger.wf(),
            i < ledger.entries().len(),
        ensures
            cnt as nat == self.rank(*ledger, ledger.entries()[i as int]),
    {
        let e_key = ledger.entry_at(i).info.validator.identity_key;
        let e_bonded = ledger.entry_at(i).bonded_amount;
        let n = ledger.validator_count();
        let mut cnt: usize = 0;
        let mut j: usize = 0;
        while j < n
            invariant
                self.wf(),
                ledger.wf(),
                n == ledger.entries().len(),
                i < n,
                e_key == entry_key(ledger.entries()[i as int]),
                e_bonded == ledger.entries()[i as int].bonded_amount,
                0 <= j <= n,
                cnt <= j,
                cnt as nat == self.count_outranking(
                    *ledger,
                    ledger.entries().subrange(0, j as int),
                    ledger.entries()[i as int],
                ),
            decreases n - j,
        {
            let other_eff = self.effective_of_entry(ledger, j);
            let other = ledger.entry_at(j);
            let other_key = other.info.validator.identity_key;
            let other_bonded = other.bonded_amount;
            let other_eligible = matches!(
                other_eff,
                ValidatorState::Inactive | ValidatorState::Active
            );
            let contributes = other_eligible && other_key.0 != e_key.0 && (other_bonded > e_bonded
                || (other_bonded == e_bonded && other_key.0 < e_key.0));
            if contributes {
                cnt += 1;
            }
            proof {
                assert(ledger.entries().subrange(0, j as int + 1) =~= ledger.entries().subrange(
                    0,
                    j as int,
                ).push(ledger.entries()[j as int]));
                lemma_count_outranking_push(
                    *self,
                    *ledger,
                    ledger.entries().subrange(0, j as int),
                    ledger.entries()[j as int],
                    ledger.entries()[i as int],
                );
            }
            j += 1;
        }
        proof {
            assert(ledger.entries().subrange(0, n as int) =~= ledger.entries());
        }
        cnt
    }

    /// Computes the consensus-set selection decisions, in increasing
    /// identity-key order.
    fn selection_decisions(&self, ledger: &StakeLedger) -> (decisions: Vec<(
        IdentityKey,
        ValidatorState,
    )>)
        requires
            self.wf(),
            ledger.wf(),
        ensures
            distinct_staged_keys(decisions@),
            forall|k: IdentityKey|
                find_staged(decisions@, k) == self.selection_decision_for(*ledger, k),
    {
        let n = ledger.validator_count();
        let limit = self.params.active_validator_limit;
        let mut decisions: Vec<(IdentityKey, ValidatorState)> = Vec::new();
        let mut i: usize = 0;
        while i < n
            invariant
                self.wf(),
                ledger.wf(),
                limit == self.parameters().active_validator_limit,
                n == ledger.entries().len(),
                0 <= i <= n,
                forall|a: int, b: int|
                    0 <= a < b < decisions@.len() ==> (#[trigger] decisions@[a]).0.0 < (
                    #[trigger] decisions@[b]).0.0,
                forall|a: int|
                    0 <= a < decisions@.len() ==> (exists|j: int|
                        0 <= j < i && entry_key(#[trigger] ledger.entries()[j]) == (
                        #[trigger] decisions@[a]).0 && self.selection_decision(
                            *ledger,
                            ledger.entries()[j],
                        ) == Some(decisions@[a].1)),
                forall|j: int|
                    0 <= j < i && (#[trigger] self.selection_decision(
                        *ledger,
                        ledger.entries()[j],
                    )) is Some ==> (exists|a: int|
                        0 <= a < decisions@.len() && (#[trigger] decisions@[a]).0 == entry_key(
                            ledger.entries()[j],
                        )),
            decreases n - i,
        {
            let current = self.effective_of_entry(ledger, i);
            let key = ledger.entry_at(i).info.validator.identity_key;
            let ghost pre_dec = decisions@;
            let is_inactive = matches!(current, ValidatorState::Inactive);
            let is_active = matches!(current, ValidatorState::Active);
            if is_inactive || is_active {
                let cnt = self.count_outranking_exec(ledger, i);
                if is_inactive && (cnt as u64) < limit {
                    decisions.push((key, ValidatorState::Active));
                } else if is_active && (cnt as u64) >= limit {
                    decisions.push(
                        (
                            key,
                            ValidatorState::Unbonding {
                                unbonding_epoch: self.current_epoch + self.params.unbonding_delay,
                            },
                        ),
                    );
                }
            }
            proof {
                if decisions@.len() > pre_dec.len() {
                    assert(self.selection_decision(*ledger, ledger.entries()[i as int]) == Some(
                        decisions@[pre_dec.len() as int].1,
                    ));
                    assert forall|a: int, b: int|
                        0 <= a < b < decisions@.len() implies (#[trigger] decisions@[a]).0.0 < (
                    #[trigger] decisions@[b]).0.0 by {
                        if b < pre_dec.len() {
                            assert(pre_dec[a].0.0 < pre_dec[b].0.0);
                        } else {
                            let j = choose|j: int|
                                0 <= j < i && entry_key(#[trigger] ledger.entries()[j]) == (
                                pre_dec[a]).0 && self.selection_decision(
                                    *ledger,
                                    ledger.entries()[j],
                                ) == Some(pre_dec[a].1);
                            assert(entry_key(ledger.entries()[j]).0 < entry_key(
                                ledger.entries()[i as int],
                            ).0);
                        }
                    }
                } else {
                    assert(self.selection_decision(*ledger, ledger.entries()[i as int]) is None);
                }
                assert forall|j: int|
                    0 <= j < i + 1 && (#[trigger] self.selection_decision(
                        *ledger,
                        ledger.entries()[j],
                    )) is Some implies (exists|a: int|
                    0 <= a < decisions@.len() && (#[trigger] decisions@[a]).0 == entry_key(
                        ledger.entries()[j],
                    )) by {
                    if j == i {
                        assert(decisions@[pre_dec.len() as int].0 == key);
                    } else {
                        let a = choose|a: int|
                            0 <= a < pre_dec.len() && (#[trigger] pre_dec[a]).0 == entry_key(
                                ledger.entries()[j],
                            );
                        assert(decisions@[a].0 == entry_key(ledger.entries()[j]));
                    }
                }
            }
            i += 1;
        }
        proof {
            assert forall|k: IdentityKey|
                find_staged(decisions@, k) == self.selection_decision_for(*ledger, k) by {
                match find_staged(decisions@, k) {
                    Some(v) => {
                        lemma_find_staged_some(decisions@, k);
                        let a = choose|a: int|
                            0 <= a < decisions@.len() && (#[trigger] decisions@[a]).0 == k
                                && find_staged(decisions@, k) == Some(decisions@[a].1);
                        let j = choose|j: int|
                            0 <= j < ledger.entries().len() && entry_key(
                                #[trigger] ledger.entries()[j],
                            ) == decisions@[a].0 && self.selection_decision(
                                *ledger,
                                ledger.entries()[j],
                            ) == Some(decisions@[a].1);
                        assert forall|m: int| 0 <= m < j implies entry_key(
                            #[trigger] ledger.entries()[m],
                        ) != k by {
                            assert(entry_key(ledger.entries()[m]).0 < entry_key(
                                ledger.entries()[j],
                            ).0);
                        }
                        lemma_find_entry_hit(ledger.entries(), k, j);
                    },
                    None => {
                        if self.selection_decision_for(*ledger, k) is Some {
                            lemma_find_entry_some(ledger.entries(), k);
                            let j = choose|j: int|
                                0 <= j < ledger.entries().len() && entry_key(
                                    #[trigger] ledger.entries()[j],
                                ) == k && find_entry(ledger.entries(), k) == Some(
                                    ledger.entries()[j],
                                );
                            let a = choose|a: int|
                                0 <= a < decisions@.len() && (#[trigger] decisions@[a]).0
                                    == entry_key(ledger.entries()[j]);
                            assert forall|m: int| 0 <= m < a implies (#[trigger] decisions@[m]).0
                                != k by {
                                assert(decisions@[m].0.0 < decisions@[a].0.0);
                            }
                            lemma_find_staged_hit(decisions@, k, a);
                            assert(false);
                        }
                    },
                }
            }
        }
        decisions
    }

    /// At an epoch boundary, ranks the eligible validators — by bonded
    /// stake descending, ties broken by identity key ascending — and
    /// reconciles the `Inactive`/`Active` boundary against the configured
    /// consensus-set size bound. The order is canonical, so independent
    /// replicas stage identical assignments.
    pub fn select_consensus_set(&mut self, ledger: &StakeLedger)
        requires
            old(self).wf(),
            ledger.wf(),
        ensures
            final(self).wf(),
            same_block(*old(self), *final(self)),
            forall|k: IdentityKey|
                final(self).staged_lookup(k) == old(self).selection_staged(*ledger, k),
    {
        let decisions = self.selection_decisions(ledger);
        self.apply_decisions(&decisions);
    }

    /// The epoch-boundary hook, invoked exactly once per epoch by the
    /// surrounding block-execution pipeline: first the unbonding scan, then
    /// the consensus-set selection over the resulting working set.
    pub fn on_epoch_end(&mut self, ledger: &StakeLedger)
        requires
            old(self).wf(),
            ledger.wf(),
        ensures
            final(self).wf(),
            same_block(*old(self), *final(self)),
            exists|mid: ValidatorStateMachine|
                {
                    &&& #[trigger] mid.wf()
                    &&& same_block(*old(self), mid)
                    &&& (forall|k: IdentityKey|
                        mid.staged_lookup(k) == old(self).scan_staged(*ledger, k))
                    &&& (forall|k: IdentityKey|
                        final(self).staged_lookup(k) == mid.selection_staged(*ledger, k))
                },
    {
        self.unbonding_scan(ledger);
        let ghost mid = *self;
        self.select_consensus_set(ledger);
        proof {
            assert(mid.wf());
        }
    }

    /// Flushes every staged transition to the ledger atomically and
    /// discards the working set. All-or-nothing for the block: on failure
    /// the ledger is untouched and the staged set is dropped.
    pub fn commit_block(self, ledger: &mut StakeLedger) -> (r: Result<(), StakeError>)
        requires
            self.wf(),
            old(ledger).wf(),
        ensures
            final(ledger).wf(),
            r is Ok <==> (forall|k: IdentityKey|
                (#[trigger] self.staged_lookup(k)) is Some ==> old(ledger).is_registered(k)),
            match r {
                Ok(u) => commit_post(*old(ledger), *final(ledger), self.staged_seq()),
                Err(e) => {
                    &&& e == StakeError::CommitFailure
                    &&& final(ledger).entries() == old(ledger).entries()
                },
            },
    {
        let staged = self.validator_state_changes;
        let r = ledger.commit_block(&staged);
        proof {
            if forall|j: int|
                0 <= j < staged@.len() ==> old(ledger).is_registered((#[trigger] staged@[j]).0) {
                assert forall|k: IdentityKey|
                    (#[trigger] self.staged_lookup(k)) is Some implies old(
                    ledger,
                ).is_registered(k) by {
                    lemma_find_staged_some(staged@, k);
                }
            } else {
                let j = choose|j: int|
                    0 <= j < staged@.len() && !old(ledger).is_registered((#[trigger] staged@[j]).0);
                assert forall|m: int| 0 <= m < j implies (#[trigger] staged@[m]).0
                    != staged@[j].0 by {}
                lemma_find_staged_hit(staged@, staged@[j].0, j);
                assert(self.staged_lookup(staged@[j].0) is Some);
            }
        }
        r
    }
}

/// How one more ledger entry at the end extends an outranking count.
proof fn lemma_count_outranking_push(
    m: ValidatorStateMachine,
    ledger: StakeLedger,
    s: Seq<LedgerEntry>,
    x: LedgerEntry,
    e: LedgerEntry,
)
    ensures
        m.count_outranking(ledger, s.push(x), e) == m.count_outranking(ledger, s, e) + (
        if m.eligible(ledger, x) && entry_key(x) != entry_key(e) && outranks(x, e) {
            1nat
        } else {
            0nat
        }),
    decreases s.len(),
{
    if s.len() == 0 {
        assert(s.push(x).drop_first() =~= s);
    } else {
        assert(s.push(x)[0] == s[0]);
        assert(s.push(x).drop_first() =~= s.drop_first().push(x));
        lemma_count_outranking_push(m, ledger, s.drop_first(), x, e);
    }
}

/// How one more roster entry extends the consensus-key match count and the
/// first match.
proof fn lemma_matching_push(s: Seq<ValidatorInfo>, x: ValidatorInfo, ck: Seq<u8>)
    ensures
        ValidatorStateMachine::matching_key_count(s.push(x), ck)
            == ValidatorStateMachine::matching_key_count(s, ck) + (
        if x.validator.consensus_key@ == ck {
            1nat
        } else {
            0nat
        }),
        ValidatorStateMachine::first_matching(s.push(x), ck)
            == (match ValidatorStateMachine::first_matching(s, ck) {
            Some(v) => Some(v),
            None => if x.validator.consensus_key@ == ck {
                Some(x)
            } else {
                None
            },
        }),
    decreases s.len(),
{
    if s.len() == 0 {
        assert(s.push(x).drop_first() =~= s);
    } else {
        assert(s.push(x)[0] == s[0]);
        assert(s.push(x).drop_first() =~= s.drop_first().push(x));
        lemma_matching_push(s.drop_first(), x, ck);
    }
}

} // verus!

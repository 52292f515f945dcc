//! The stake ledger: the durable, block-committed record of each
//! validator's identity, current state and bonded stake.
//!
//! The ledger is a pure data store. It is mutated only through
//! [`StakeLedger::register`] and the atomic [`StakeLedger::commit_block`],
//! which flushes a block's staged transitions all at once; transitions
//! themselves are computed by the validator state machine.
//!
//! Records are kept in strictly increasing order of identity key, so that
//! every scan over the ledger follows the same canonical total order on
//! every replica.

use vstd::prelude::*;

use crate::errors::StakeError;
use crate::keys::IdentityKey;
use crate::keys::ValidatorInfo;
use crate::state::ValidatorState;

verus! {

/// One durable record: a validator's descriptive info, its last committed
/// state, and the stake currently bonded to it.
#[derive(Clone, Debug, PartialEq, Eq)]
pub struct LedgerEntry {
    pub info: ValidatorInfo,
    pub state: ValidatorState,
    pub bonded_amount: u64,
}

/// The identity key a ledger entry is filed under.
pub open spec fn entry_key(e: LedgerEntry) -> IdentityKey {
    e.info.validator.identity_key
}

/// First entry with the given identity key, scanning left to right.
pub open spec fn find_entry(s: Seq<LedgerEntry>, k: IdentityKey) -> Option<LedgerEntry>
    decreases s.len(),
{
    if s.len() == 0 {
        None
    } else if entry_key(s[0]) == k {
        Some(s[0])
    } else {
        find_entry(s.drop_first(), k)
    }
}

/// Entries stand in strictly increasing identity-key order; this also means
/// no key appears twice.
pub open spec fn sorted_by_identity(s: Seq<LedgerEntry>) -> bool {
    forall|i: int, j: int| 0 <= i < j < s.len() ==> entry_key(s[i]).0 < entry_key(s[j]).0
}

pub proof fn lemma_find_entry_none(s: Seq<LedgerEntry>, k: IdentityKey)
    requires
        forall|i: int| 0 <= i < s.len() ==> entry_key(s[i]) != k,
    ensures
        find_entry(s, k) is None,
    decreases s.len(),
{
    if s.len() > 0 {
        assert(forall|i: int| 0 <= i < s.drop_first().len() ==> s.drop_first()[i] == s[i + 1]);
        lemma_find_entry_none(s.drop_first(), k);
    }
}

pub proof fn lemma_find_entry_hit(s: Seq<LedgerEntry>, k: IdentityKey, i: int)
    requires
        0 <= i < s.len(),
        entry_key(s[i]) == k,
        forall|j: int| 0 <= j < i ==> entry_key(s[j]) != k,
    ensures
        find_entry(s, k) == Some(s[i]),
    decreases s.len(),
{
    if i > 0 {
        assert(forall|j: int| 0 <= j < s.drop_first().len() ==> s.drop_first()[j] == s[j + 1]);
        lemma_find_entry_hit(s.drop_first(), k, i - 1);
    }
}

pub proof fn lemma_find_entry_some(s: Seq<LedgerEntry>, k: IdentityKey)
    requires
        find_entry(s, k) is Some,
    ensures
        exists|i: int|
            0 <= i < s.len() && entry_key(#[trigger] s[i]) == k && find_entry(s, k) == Some(s[i]),
    decreases s.len(),
{
    if s.len() > 0 && entry_key(s[0]) != k {
        lemma_find_entry_some(s.drop_first(), k);
        let i = choose|i: int|
            0 <= i < s.drop_first().len() && entry_key(#[trigger] s.drop_first()[i]) == k
                && find_entry(s.drop_first(), k) == Some(s.drop_first()[i]);
        assert(s[i + 1] == s.drop_first()[i]);
    }
}

/// First staged state for the given identity key in a sequence of staged
/// (identity, state) transitions, scanning left to right.
pub open spec fn find_staged(
    s: Seq<(IdentityKey, ValidatorState)>,
    k: IdentityKey,
) -> Option<ValidatorState>
    decreases s.len(),
{
    if s.len() == 0 {
        None
    } else if s[0].0 == k {
        Some(s[0].1)
    } else {
        find_staged(s.drop_first(), k)
    }
}

/// No identity key appears twice among the staged transitions.
pub open spec fn distinct_staged_keys(s: Seq<(IdentityKey, ValidatorState)>) -> bool {
    forall|i: int, j: int| 0 <= i < j < s.len() ==> (#[trigger] s[i]).0 != (#[trigger] s[j]).0
}

pub proof fn lemma_find_staged_none(s: Seq<(IdentityKey, ValidatorState)>, k: IdentityKey)
    requires
        forall|i: int| 0 <= i < s.len() ==> (#[trigger] s[i]).0 != k,
    ensures
        find_staged(s, k) is None,
    decreases s.len(),
{
    if s.len() > 0 {
        assert(forall|i: int| 0 <= i < s.drop_first().len() ==> s.drop_first()[i] == s[i + 1]);
        lemma_find_staged_none(s.drop_first(), k);
    }
}

pub proof fn lemma_find_staged_hit(s: Seq<(IdentityKey, ValidatorState)>, k: IdentityKey, i: int)
    requires
        0 <= i < s.len(),
        s[i].0 == k,
        forall|j: int| 0 <= j < i ==> (#[trigger] s[j]).0 != k,
    ensures
        find_staged(s, k) == Some(s[i].1),
    decreases s.len(),
{
    if i > 0 {
        assert(forall|j: int| 0 <= j < s.drop_first().len() ==> s.drop_first()[j] == s[j + 1]);
        lemma_find_staged_hit(s.drop_first(), k, i - 1);
    }
}

pub proof fn lemma_find_staged_some(s: Seq<(IdentityKey, ValidatorState)>, k: IdentityKey)
    requires
        find_staged(s, k) is Some,
    ensures
        exists|i: int|
            0 <= i < s.len() && (#[trigger] s[i]).0 == k && find_staged(s, k) == Some(s[i].1),
    decreases s.len(),
{
    if s.len() > 0 && s[0].0 != k {
        lemma_find_staged_some(s.drop_first(), k);
        let i = choose|i: int|
            0 <= i < s.drop_first().len() && (#[trigger] s.drop_first()[i]).0 == k && find_staged(
                s.drop_first(),
                k,
            ) == Some(s.drop_first()[i].1);
        assert(s[i + 1] == s.drop_first()[i]);
    }
}

/// How one more staged pair at the end changes a left-to-right lookup.
pub proof fn lemma_find_staged_push(
    s: Seq<(IdentityKey, ValidatorState)>,
    x: (IdentityKey, ValidatorState),
    k: IdentityKey,
)
    ensures
        find_staged(s.push(x), k) == (match find_staged(s, k) {
            Some(v) => Some(v),
            None => if x.0 == k {
                Some(x.1)
            } else {
                None
            },
        }),
    decreases s.len(),
{
    if s.len() == 0 {
        assert(s.push(x).drop_first() =~= s);
    } else {
        assert(s.push(x)[0] == s[0]);
        assert(s.push(x).drop_first() =~= s.drop_first().push(x));
        lemma_find_staged_push(s.drop_first(), x, k);
    }
}

/// Looks up the staged state for an identity key in a vector of staged
/// transitions.
pub(crate) fn staged_lookup_vec(
    staged: &Vec<(IdentityKey, ValidatorState)>,
    k: &IdentityKey,
) -> (r: Option<ValidatorState>)
    ensures
        r == find_staged(staged@, *k),
{
    let n = staged.len();
    let mut i: usize = 0;
    while i < n
        invariant
            n == staged@.len(),
            0 <= i <= n,
            forall|j: int| 0 <= j < i ==> (#[trigger] staged@[j]).0 != *k,
        decreases n - i,
    {
        if staged[i].0 == *k {
            proof {
                lemma_find_staged_hit(staged@, *k, i as int);
            }
            return Some(staged[i].1);
        }
        i += 1;
    }
    proof {
        lemma_find_staged_none(staged@, *k);
    }
    None
}

/// Whether committing `new_state` over `old_state` releases the remaining
/// bonded stake: slashing releases it immediately, and the completion of an
/// unbonding period releases it back to the delegators.
pub open spec fn releases_stake(old_state: ValidatorState, new_state: ValidatorState) -> bool {
    ||| new_state is Slashed
    ||| (old_state is Unbonding && new_state is Inactive)
}

/// One ledger entry after a block's staged transitions are applied to it.
pub open spec fn apply_staged_entry(
    e: LedgerEntry,
    staged: Seq<(IdentityKey, ValidatorState)>,
) -> LedgerEntry {
    match find_staged(staged, entry_key(e)) {
        Some(s) => LedgerEntry {
            info: e.info,
            state: s,
            bonded_amount: if releases_stake(e.state, s) {
                0
            } else {
                e.bonded_amount
            },
        },
        None => e,
    }
}

/// What a successful block commit does: every record is rewritten by
/// [`apply_staged_entry`], and no record is created, dropped or reordered.
pub open spec fn commit_post(
    pre: StakeLedger,
    post: StakeLedger,
    staged: Seq<(IdentityKey, ValidatorState)>,
) -> bool {
    &&& post.entries().len() == pre.entries().len()
    &&& forall|i: int|
        0 <= i < pre.entries().len() ==> post.entries()[i] == apply_staged_entry(
            #[trigger] pre.entries()[i],
            staged,
        )
}

/// The durable stake ledger.
#[derive(Clone, Debug)]
pub struct StakeLedger {
    records: Vec<LedgerEntry>,
}

impl StakeLedger {
    /// The committed records, in increasing identity-key order.
    pub closed spec fn entries(self) -> Seq<LedgerEntry> {
        self.records@
    }

    /// Well-formedness: the records stand in strictly increasing
    /// identity-key order.
    pub open spec fn wf(self) -> bool {
        sorted_by_identity(self.entries())
    }

    /// The record filed under an identity key, if any.
    pub open spec fn entry_of(self, k: IdentityKey) -> Option<LedgerEntry> {
        find_entry(self.entries(), k)
    }

    /// The last committed state of a validator; absence means "not yet
    /// registered".
    pub open spec fn state_of(self, k: IdentityKey) -> Option<ValidatorState> {
        match self.entry_of(k) {
            Some(e) => Some(e.state),
            None => None,
        }
    }

    /// The descriptive record of a validator, if registered.
    pub open spec fn info_of(self, k: IdentityKey) -> Option<ValidatorInfo> {
        match self.entry_of(k) {
            Some(e) => Some(e.info),
            None => None,
        }
    }

    /// The stake currently bonded to a validator, if registered.
    pub open spec fn bonded_of(self, k: IdentityKey) -> Option<u64> {
        match self.entry_of(k) {
            Some(e) => Some(e.bonded_amount),
            None => None,
        }
    }

    /// Whether a validator has ever been registered.
    pub open spec fn is_registered(self, k: IdentityKey) -> bool {
        self.entry_of(k) is Some
    }

    /// An empty ledger.
    pub fn new() -> (r: StakeLedger)
        ensures
            r.wf(),
            r.entries().len() == 0,
            forall|k: IdentityKey| !r.is_registered(k),
    {
        let r = StakeLedger { records: Vec::new() };
        proof {
            assert forall|k: IdentityKey| !r.is_registered(k) by {
                lemma_find_entry_none(r.records@, k);
            }
        }
        r
    }

    /// Index of the record filed under the given identity key.
    fn find_index(&self, k: &IdentityKey) -> (r: Option<usize>)
        ensures
            match r {
                Some(i) => i < self.entries().len() && entry_key(self.entries()[i as int]) == *k
                    && self.entry_of(*k) == Some(self.entries()[i as int]),
                None => self.entry_of(*k) is None,
            },
    {
        let n = self.records.len();
        let mut i: usize = 0;
        while i < n
            invariant
                n == self.records@.len(),
                0 <= i <= n,
                forall|j: int| 0 <= j < i ==> entry_key(#[trigger] self.records@[j]) != *k,
            decreases n - i,
        {
            if self.records[i].info.validator.identity_key == *k {
                proof {
                    lemma_find_entry_hit(self.records@, *k, i as int);
                }
                return Some(i);
            }
            i += 1;
        }
        proof {
            lemma_find_entry_none(self.records@, *k);
        }
        None
    }

    /// Number of registered validators.
    pub fn validator_count(&self) -> (n: usize)
        ensures
            n == self.entries().len(),
    {
        self.records.len()
    }

    /// The record at a position of the canonical identity-key order.
    pub fn entry_at(&self, i: usize) -> (e: &LedgerEntry)
        requires
            i < self.entries().len(),
        ensures
            *e == self.entries()[i as int],
    {
        &self.records[i]
    }

    /// The last committed state of a validator; `None` means "not yet
    /// registered".
    pub fn load_validator_state(&self, identity_key: &IdentityKey) -> (r: Option<ValidatorState>)
        ensures
            r == self.state_of(*identity_key),
    {
        match self.find_index(identity_key) {
            Some(i) => Some(self.records[i].state),
            None => None,
        }
    }

    /// The descriptive record of a validator, if registered.
    pub fn load_validator_info(&self, identity_key: &IdentityKey) -> (r: Option<&ValidatorInfo>)
        ensures
            match r {
                Some(info) => self.info_of(*identity_key) == Some(*info),
                None => self.info_of(*identity_key) is None,
            },
    {
        match self.find_index(identity_key) {
            Some(i) => Some(&self.records[i].info),
            None => None,
        }
    }

    /// The stake currently bonded to a validator, if registered.
    pub fn bonded_amount_of(&self, identity_key: &IdentityKey) -> (r: Option<u64>)
        ensures
            r == self.bonded_of(*identity_key),
    {
        match self.find_index(identity_key) {
            Some(i) => Some(self.records[i].bonded_amount),
            None => None,
        }
    }

    /// Registers a validator. A new record starts in `Inactive` with its
    /// declared voting power bonded; a second registration under the same
    /// identity key is refused and changes nothing.
    pub fn register(&mut self, info: ValidatorInfo) -> (r: bool)
        requires
            old(self).wf(),
        ensures
            final(self).wf(),
            r == !old(self).is_registered(info.validator.identity_key),
            !r ==> final(self).entries() == old(self).entries(),
            r ==> final(self).entries().len() == old(self).entries().len() + 1,
            r ==> final(self).entry_of(info.validator.identity_key) == Some(
                LedgerEntry {
                    info: info,
                    state: ValidatorState::Inactive,
                    bonded_amount: info.validator.voting_power,
                },
            ),
            forall|k: IdentityKey|
                k != info.validator.identity_key ==> final(self).entry_of(k) == old(
                    self,
                ).entry_of(k),
    {
        let key = info.validator.identity_key;
        let n = self.records.len();
        let mut i: usize = 0;
        while i < n && self.records[i].info.validator.identity_key.0 < key.0
            invariant
                n == self.records@.len(),
                0 <= i <= n,
                forall|j: int| 0 <= j < i ==> entry_key(#[trigger] self.records@[j]).0 < key.0,
            decreases n - i,
        {
            i += 1;
        }
        if i < n && self.records[i].info.validator.identity_key.0 == key.0 {
            proof {
                lemma_find_entry_hit(self.records@, key, i as int);
            }
            return false;
        }
        proof {
            assert forall|j: int| 0 <= j < self.records@.len() implies entry_key(
                #[trigger] self.records@[j],
            ) != key by {
                if j >= i {
                    if j == i {
                        assert(entry_key(self.records@[j]).0 > key.0);
                    } else {
                        assert(entry_key(self.records@[i as int]).0 < entry_key(
                            self.records@[j],
                        ).0);
                    }
                }
            }
            lemma_find_entry_none(self.records@, key);
        }
        let power = info.validator.voting_power;
        let entry = LedgerEntry { info: info, state: ValidatorState::Inactive, bonded_amount: power };
        let ghost pre = self.records@;
        self.records.insert(i, entry);
        proof {
            pre.insert_ensures(i as int, entry);
            let s = self.records@;
            assert(s == pre.insert(i as int, entry));
            // order is preserved around the insertion point
            assert forall|a: int, b: int| 0 <= a < b < s.len() implies entry_key(s[a]).0
                < entry_key(s[b]).0 by {
                if a < i && b < i {
                    assert(s[a] == pre[a] && s[b] == pre[b]);
                } else if a < i && b == i {
                    assert(s[a] == pre[a]);
                } else if a < i && b > i {
                    assert(s[a] == pre[a] && s[b] == pre[b - 1]);
                } else if a == i && b > i {
                    assert(s[b] == pre[b - 1]);
                    assert(entry_key(pre[b - 1]) != key);
                    if b - 1 > i {
                        assert(entry_key(pre[i as int]).0 < entry_key(pre[b - 1]).0);
                    }
                } else {
                    assert(s[a] == pre[a - 1] && s[b] == pre[b - 1]);
                }
            }
            // the new key is found
            assert(forall|j: int| 0 <= j < i ==> entry_key(#[trigger] s[j]) != key);
            lemma_find_entry_hit(s, key, i as int);
            // every other key resolves as before
            assert forall|k: IdentityKey| k != key implies find_entry(s, k) == find_entry(
                pre,
                k,
            ) by {
                match find_entry(pre, k) {
                    Some(_) => {
                        lemma_find_entry_some(pre, k);
                        let j = choose|j: int|
                            0 <= j < pre.len() && entry_key(#[trigger] pre[j]) == k && find_entry(
                                pre,
                                k,
                            ) == Some(pre[j]);
                        assert forall|m: int| 0 <= m < j implies entry_key(#[trigger] pre[m])
                            != k by {
                            assert(entry_key(pre[m]).0 < entry_key(pre[j]).0);
                        }
                        if j < i {
                            lemma_find_entry_hit(s, k, j);
                        } else {
                            assert(s[j + 1] == pre[j]);
                            assert forall|m: int| 0 <= m < j + 1 implies entry_key(
                                #[trigger] s[m],
                            ) != k by {
                                if m < i {
                                    assert(s[m] == pre[m]);
                                } else if m > i {
                                    assert(s[m] == pre[m - 1]);
                                    assert(entry_key(pre[m - 1]).0 < entry_key(pre[j]).0 || m - 1
                                        == j);
                                }
                            }
                            lemma_find_entry_hit(s, k, j + 1);
                        }
                    },
                    None => {
                        assert forall|m: int| 0 <= m < s.len() implies entry_key(#[trigger] s[m])
                            != k by {
                            if m < i {
                                assert(s[m] == pre[m]);
                                if entry_key(pre[m]) == k {
                                    assert(exists|q: int|
                                        0 <= q < pre.len() && entry_key(#[trigger] pre[q]) == k);
                                    lemma_find_entry_hit_exists(pre, k);
                                    assert(false);
                                }
                            } else if m > i {
                                assert(s[m] == pre[m - 1]);
                                if entry_key(pre[m - 1]) == k {
                                    assert(exists|q: int|
                                        0 <= q < pre.len() && entry_key(#[trigger] pre[q]) == k);
                                    lemma_find_entry_hit_exists(pre, k);
                                    assert(false);
                                }
                            }
                        }
                        lemma_find_entry_none(s, k);
                    },
                }
            }
        }
        true
    }

    /// Applies a block's staged transitions atomically. Either every staged
    /// transition is applied — rewriting each affected record's state and
    /// releasing its bonded stake where slashing or a completed unbonding
    /// calls for it — or, if any staged identity is not registered, nothing
    /// is applied at all and the commit fails.
    pub fn commit_block(&mut self, staged: &Vec<(IdentityKey, ValidatorState)>) -> (r: Result<
        (),
        StakeError,
    >)
        requires
            old(self).wf(),
        ensures
            final(self).wf(),
            r is Ok <==> (forall|j: int|
                0 <= j < staged@.len() ==> old(self).is_registered((#[trigger] staged@[j]).0)),
            match r {
                Ok(u) => commit_post(*old(self), *final(self), staged@),
                Err(e) => {
                    &&& e == StakeError::CommitFailure
                    &&& final(self).entries() == old(self).entries()
                },
            },
    {
        let n_staged = staged.len();
        let mut j: usize = 0;
        while j < n_staged
            invariant
                old(self).wf(),
                n_staged == staged@.len(),
                0 <= j <= n_staged,
                self.records@ == old(self).records@,
                forall|m: int| 0 <= m < j ==> old(self).is_registered((#[trigger] staged@[m]).0),
            decreases n_staged - j,
        {
            let k = staged[j].0;
            if self.find_index(&k).is_none() {
                return Err(StakeError::CommitFailure);
            }
            j += 1;
        }
        let n = self.records.len();
        let mut i: usize = 0;
        while i < n
            invariant
                n == self.records@.len(),
                old(self).records@.len() == n,
                0 <= i <= n,
                forall|m: int| i <= m < n ==> self.records@[m] == old(self).records@[m],
                forall|m: int|
                    0 <= m < i ==> self.records@[m] == apply_staged_entry(
                        #[trigger] old(self).records@[m],
                        staged@,
                    ),
            decreases n - i,
        {
            let key = self.records[i].info.validator.identity_key;
            let cur_state = self.records[i].state;
            match staged_lookup_vec(staged, &key) {
                Some(s) => {
                    self.records[i].state = s;
                    let release = matches!(s, ValidatorState::Slashed) || (matches!(
                        cur_state,
                        ValidatorState::Unbonding { .. },
                    ) && matches!(s, ValidatorState::Inactive));
                    if release {
                        self.records[i].bonded_amount = 0;
                    }
                },
                None => {},
            }
            i += 1;
        }
        proof {
            assert forall|a: int, b: int| 0 <= a < b < self.records@.len() implies entry_key(
                self.records@[a],
            ).0 < entry_key(self.records@[b]).0 by {
                assert(entry_key(self.records@[a]) == entry_key(old(self).records@[a]));
                assert(entry_key(self.records@[b]) == entry_key(old(self).records@[b]));
            }
        }
        Ok(())
    }
}

/// If some entry carries the key, a left-to-right scan finds one.
proof fn lemma_find_entry_hit_exists(s: Seq<LedgerEntry>, k: IdentityKey)
    requires
        exists|i: int| 0 <= i < s.len() && entry_key(#[trigger] s[i]) == k,
    ensures
        find_entry(s, k) is Some,
    decreases s.len(),
{
    if s.len() > 0 && entry_key(s[0]) != k {
        let i = choose|i: int| 0 <= i < s.len() && entry_key(#[trigger] s[i]) == k;
        assert(s.drop_first()[i - 1] == s[i]);
        lemma_find_entry_hit_exists(s.drop_first(), k);
    }
}

} // verus!

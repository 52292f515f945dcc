//! Validator identities and the per-block roster record.

use vstd::prelude::*;

verus! {

/// A stable, globally unique identifier for a validator, independent of its
/// rotating consensus signing key. Immutable once a validator is first
/// registered.
#[derive(Clone, Copy, Debug, PartialEq, Eq, Hash, Structural)]
pub struct IdentityKey(pub u64);

/// A validator's consensus signing key, carried as its raw byte encoding.
/// Consensus keys may rotate; the engine only ever compares them for
/// equality when resolving a key to an identity.
#[derive(Clone, Debug, PartialEq, Eq)]
pub struct ConsensusKey(pub Vec<u8>);

impl View for ConsensusKey {
    type V = Seq<u8>;

    closed spec fn view(&self) -> Seq<u8> {
        self.0@
    }
}

impl ConsensusKey {
    /// Whether two consensus keys carry the same bytes.
    pub fn matches(&self, other: &ConsensusKey) -> (r: bool)
        ensures
            r == (self@ == other@),
    {
        let r = self.0 == other.0;
        proof {
            if self.0@ == other.0@ {
                assert(r);
            }
            if r {
                assert(self.0@ =~= other.0@);
            }
        }
        r
    }
}

/// The declared description of a validator: its permanent identity, its
/// current consensus signing key, and its declared voting power.
#[derive(Clone, Debug, PartialEq, Eq)]
pub struct Validator {
    pub identity_key: IdentityKey,
    pub consensus_key: ConsensusKey,
    pub voting_power: u64,
}

/// The roster record of a validator known to exist during a block's
/// lifetime.
#[derive(Clone, Debug, PartialEq, Eq)]
pub struct ValidatorInfo {
    pub validator: Validator,
}

} // verus!

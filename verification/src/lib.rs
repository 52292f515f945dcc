//! Validator lifecycle engine for a proof-of-stake consensus layer.
//!
//! The library tracks which validators are eligible to produce and finalize
//! blocks, enforces the rules by which a validator moves between eligibility
//! states, and maintains the bonded-stake accounting that backs those states.
//!
//! The pieces are:
//! - a durable [`ledger::StakeLedger`], the block-committed record of every
//!   validator's identity, state and bonded stake;
//! - a block-scoped [`machine::ValidatorStateMachine`], the only place where
//!   transitions are computed; it stages pending state changes and flushes
//!   them to the ledger atomically at block commit;
//! - the epoch-boundary hooks on the machine: the unbonding scan and the
//!   consensus-set selector.

pub mod errors;
pub mod keys;
pub mod laws;
pub mod ledger;
pub mod machine;
pub mod params;
pub mod state;

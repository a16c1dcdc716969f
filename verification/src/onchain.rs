//! What users put into a proposal on stewards or on funding.

use vstd::prelude::*;

use crate::pgf::PGFTarget;
use crate::types::Address;

verus! {

/// Whether something is added or removed.
#[derive(Debug, Clone, Copy, PartialEq, Eq)]
pub enum PgfAction {
    /// Add
    Add,
    /// Remove
    Remove,
}

/// A change to the set of stewards: at most one newcomer, and those who leave.
#[derive(Debug, Clone, PartialEq, Eq)]
pub struct StewardsUpdate {
    /// The address to add, if any.
    pub add: Option<Address>,
    /// The addresses to remove.
    pub remove: Vec<Address>,
}

/// A change that concerns one steward.
#[derive(Debug, Clone, PartialEq, Eq)]
pub struct PgfSteward {
    /// What happens to the steward.
    pub action: PgfAction,
    /// The address of the steward.
    pub address: Address,
}

/// A payment that recurs from now on, or no longer does.
#[derive(Debug, Clone, PartialEq, Eq)]
pub struct PgfContinuous {
    /// Who is paid, and how much.
    pub target: PGFTarget,
    /// Whether the payment starts or stops.
    pub action: PgfAction,
}

/// A payment that is made once.
#[derive(Debug, Clone, PartialEq, Eq)]
pub struct PgfRetro {
    /// Who is paid, and how much.
    pub target: PGFTarget,
}

} // verus!

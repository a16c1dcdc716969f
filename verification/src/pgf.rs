//! Public goods funding: who is paid, how much, and on which chain.

use vstd::prelude::*;
use vstd::std_specs::convert::{FromSpec, FromSpecImpl};

use crate::identifiers::{ChannelId, PortId};
use crate::onchain::{PgfAction, PgfContinuous, PgfRetro};
use crate::types::{Address, Amount};

verus! {

/// Storage structure for pgf funding
#[derive(Debug, Clone, PartialEq, Eq, PartialOrd)]
pub struct StoragePgfFunding {
    /// The data about the pgf funding
    pub detail: PGFTarget,
    /// The id of the proposal that added this funding
    pub id: u64,
}

impl StoragePgfFunding {
    /// Init a new pgf funding struct
    pub fn new(detail: PGFTarget, id: u64) -> (res: Self)
        ensures
            res.detail == detail,
            res.id == id,
    {
        Self { detail, id }
    }
}

/// An add or remove action for PGF
#[derive(Debug, Clone, Hash, PartialEq, Eq, PartialOrd, Ord)]
pub enum AddRemove<T> {
    /// Add
    Add(T),
    /// Remove
    Remove(T),
}

impl<T: View> View for AddRemove<T> {
    type V = AddRemove<T::V>;

    open spec fn view(&self) -> AddRemove<T::V> {
        match self {
            AddRemove::Add(value) => AddRemove::Add(value@),
            AddRemove::Remove(value) => AddRemove::Remove(value@),
        }
    }
}

/// The target of a PGF payment
#[derive(Debug, Clone, PartialEq, Eq, PartialOrd, Ord)]
pub enum PGFTarget {
    /// Funding target on this chain
    Internal(PGFInternalTarget),
    /// Funding target on another chain
    Ibc(PGFIbcTarget),
}

impl PGFTarget {
    /// The printed form of the account that is paid.
    pub open spec fn target_text(&self) -> Seq<char> {
        match self {
            PGFTarget::Internal(t) => t.target@,
            PGFTarget::Ibc(t) => t.target@,
        }
    }

    /// What is paid.
    pub open spec fn funding(&self) -> Amount {
        match self {
            PGFTarget::Internal(t) => t.amount,
            PGFTarget::Ibc(t) => t.amount,
        }
    }

    /// Returns the funding target as String
    pub fn target(&self) -> (res: String)
        ensures
            res@ == self.target_text(),
    {
        match self {
            PGFTarget::Internal(t) => t.target.to_string(),
            PGFTarget::Ibc(t) => t.target.clone(),
        }
    }

    /// Returns the funding amount
    pub fn amount(&self) -> (res: Amount)
        ensures
            res == self.funding(),
    {
        match self {
            PGFTarget::Internal(t) => t.amount,
            PGFTarget::Ibc(t) => t.amount,
        }
    }
}

/// The target of a PGF payment
#[derive(Debug, Clone, PartialEq, Eq, PartialOrd, Ord)]
pub struct PGFInternalTarget {
    /// The target address
    pub target: Address,
    /// The amount of token to fund the target address
    pub amount: Amount,
}

/// The target of a PGF payment
#[derive(Debug, Clone, PartialEq, Eq, PartialOrd, Ord)]
pub struct PGFIbcTarget {
    /// The target address on the target chain
    pub target: String,
    /// The amount of token to fund the target address
    pub amount: Amount,
    /// Port ID to fund
    pub port_id: PortId,
    /// Channel ID to fund
    pub channel_id: ChannelId,
}

/// The actions that a PGF Steward can propose to execute
#[derive(Debug, Clone, PartialEq)]
pub enum PGFAction {
    /// A continuous payment
    Continuous(AddRemove<PGFTarget>),
    /// A retro payment
    Retro(PGFTarget),
}

impl PGFAction {
    /// The target that the action is about.
    pub open spec fn payee(self) -> PGFTarget {
        match self {
            PGFAction::Continuous(AddRemove::Add(target)) => target,
            PGFAction::Continuous(AddRemove::Remove(target)) => target,
            PGFAction::Retro(target) => target,
        }
    }
}

impl From<PgfContinuous> for PGFAction {
    fn from(value: PgfContinuous) -> (res: Self) {
        match value.action {
            PgfAction::Add => PGFAction::Continuous(AddRemove::Add(value.target)),
            PgfAction::Remove => PGFAction::Continuous(AddRemove::Remove(value.target)),
        }
    }
}

impl FromSpecImpl<PgfContinuous> for PGFAction {
    open spec fn obeys_from_spec() -> bool {
        true
    }

    open spec fn from_spec(value: PgfContinuous) -> PGFAction {
        PGFAction::Continuous(
            match value.action {
                PgfAction::Add => AddRemove::Add(value.target),
                PgfAction::Remove => AddRemove::Remove(value.target),
            },
        )
    }
}

impl From<PgfRetro> for PGFAction {
    fn from(value: PgfRetro) -> (res: Self) {
        PGFAction::Retro(value.target)
    }
}

impl FromSpecImpl<PgfRetro> for PGFAction {
    open spec fn obeys_from_spec() -> bool {
        true
    }

    open spec fn from_spec(value: PgfRetro) -> PGFAction {
        PGFAction::Retro(value.target)
    }
}

/// The action that a recurring payment turns into is about the same target.
pub proof fn law_continuous_keeps_its_target(value: PgfContinuous)
    ensures
        <PGFAction as FromSpec<PgfContinuous>>::from_spec(value).payee() == value.target,
{
}

/// The action that a single payment turns into is about the same target.
pub proof fn law_retro_keeps_its_target(value: PgfRetro)
    ensures
        <PGFAction as FromSpec<PgfRetro>>::from_spec(value).payee() == value.target,
{
}

/// No recurring payment is ever taken for a single one.
pub proof fn law_kinds_of_payment_stay_apart(continuous: PgfContinuous, retro: PgfRetro)
    ensures
        <PGFAction as FromSpec<PgfContinuous>>::from_spec(continuous) != <PGFAction as FromSpec<
            PgfRetro,
        >>::from_spec(retro),
{
}

/// Two recurring payments that turn into one action are the same.
pub proof fn law_continuous_actions_differ(a: PgfContinuous, b: PgfContinuous)
    requires
        <PGFAction as FromSpec<PgfContinuous>>::from_spec(a) == <PGFAction as FromSpec<
            PgfContinuous,
        >>::from_spec(b),
    ensures
        a == b,
{
}

/// Whatever the target, on this chain or on another, a recurring payment that
/// is to be added turns into the action that adds that target.
pub proof fn law_adding_stays_adding(value: PgfContinuous)
    requires
        value.action is Add,
    ensures
        <PGFAction as FromSpec<PgfContinuous>>::from_spec(value) == PGFAction::Continuous(
            AddRemove::Add(value.target),
        ),
{
}

/// Whatever the target, on this chain or on another, a recurring payment that
/// is to be removed turns into the action that removes that target.
pub proof fn law_removing_stays_removing(value: PgfContinuous)
    requires
        value.action is Remove,
    ensures
        <PGFAction as FromSpec<PgfContinuous>>::from_spec(value) == PGFAction::Continuous(
            AddRemove::Remove(value.target),
        ),
{
}

/// Whatever the target, a single payment turns into the action that pays it
/// once.
pub proof fn law_single_payments_stay_single(value: PgfRetro)
    ensures
        <PGFAction as FromSpec<PgfRetro>>::from_spec(value) == PGFAction::Retro(value.target),
{
}

/// Both conversions to an action give exactly what is stated of them.
pub proof fn law_conversions_are_as_stated()
    ensures
        <PGFAction as FromSpec<PgfContinuous>>::obeys_from_spec(),
        <PGFAction as FromSpec<PgfRetro>>::obeys_from_spec(),
{
}

/// A target on this chain is shown by its address, whatever is paid.
pub proof fn law_internal_target_is_its_address(target: PGFInternalTarget)
    ensures
        PGFTarget::Internal(target).target_text() == target.target.encoded@,
        PGFTarget::Internal(target).funding().high == target.amount.high,
        PGFTarget::Internal(target).funding().low == target.amount.low,
{
}

/// A target on another chain is shown by its address there, whatever is paid
/// and through whichever port and channel.
pub proof fn law_ibc_target_is_its_address(target: PGFIbcTarget)
    ensures
        PGFTarget::Ibc(target).target_text() == target.target@,
        PGFTarget::Ibc(target).funding().high == target.amount.high,
        PGFTarget::Ibc(target).funding().low == target.amount.low,
{
}

/// Looking at what is added or removed keeps which of the two it is.
pub proof fn law_change_keeps_its_kind<T: View>(value: T)
    ensures
        AddRemove::Add(value)@ == AddRemove::<T::V>::Add(value@),
        AddRemove::Remove(value)@ == AddRemove::<T::V>::Remove(value@),
{
}

/// The payee of an action is the target that stands in it.
pub proof fn law_payee_is_the_target(target: PGFTarget)
    ensures
        PGFAction::Continuous(AddRemove::Add(target)).payee() == target,
        PGFAction::Continuous(AddRemove::Remove(target)).payee() == target,
        PGFAction::Retro(target).payee() == target,
{
}

} // verus!

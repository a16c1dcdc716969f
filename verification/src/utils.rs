//! The stages of a proposal and the ways in which its votes are counted.

use vstd::prelude::*;
use vstd::string::*;

use crate::pgf::PGFAction;
use crate::proposal::ProposalType;
use crate::stewards::StewardSet;

verus! {

/// The stage that a proposal has reached
#[derive(Debug, Clone, Copy, PartialEq, Eq, Structural)]
pub enum ProposalStatus {
    /// Voting has not started yet
    Pending,
    /// Voting is under way
    OnGoing,
    /// Voting is over
    Ended,
}

impl ProposalStatus {
    /// The name of the stage.
    pub open spec fn text(self) -> Seq<char> {
        match self {
            ProposalStatus::Pending => "pending"@,
            ProposalStatus::OnGoing => "on-going"@,
            ProposalStatus::Ended => "ended"@,
        }
    }

    /// How far the stage is from the start.
    pub open spec fn rank(self) -> int {
        match self {
            ProposalStatus::Pending => 0,
            ProposalStatus::OnGoing => 1,
            ProposalStatus::Ended => 2,
        }
    }

    /// The name of the stage, as it is shown to users.
    pub fn to_string(&self) -> (res: String)
        ensures
            res@ == self.text(),
    {
        match self {
            ProposalStatus::Pending => "pending".to_owned(),
            ProposalStatus::OnGoing => "on-going".to_owned(),
            ProposalStatus::Ended => "ended".to_owned(),
        }
    }
}

/// What a proposal needs to pass
#[derive(Debug, Clone, Copy, PartialEq, Eq, Structural)]
pub enum TallyType {
    /// Two thirds of the total voting power say yay
    TwoThirds,
    /// Half of the votes say yay, and a third of the voting power has voted
    OneHalfOverOneThird,
    /// Less than half of the votes say nay, or less than a third of the
    /// voting power has voted
    LessOneHalfOverOneThirdNay,
}

impl TallyType {
    /// The tally that a proposal of the given type needs. A payment that a
    /// steward proposes passes unless it is voted down.
    pub open spec fn needed(proposal_type: ProposalType, is_steward: bool) -> TallyType {
        match proposal_type {
            ProposalType::Default(_) => TallyType::TwoThirds,
            ProposalType::PGFSteward(_) => TallyType::OneHalfOverOneThird,
            ProposalType::PGFPayment(_) => if is_steward {
                TallyType::LessOneHalfOverOneThirdNay
            } else {
                TallyType::OneHalfOverOneThird
            },
        }
    }

    /// The tally that a proposal of the given type needs
    pub fn from(proposal_type: &ProposalType, is_steward: bool) -> (res: TallyType)
        ensures
            res == TallyType::needed(*proposal_type, is_steward),
    {
        match (proposal_type, is_steward) {
            (ProposalType::Default(_), _) => TallyType::TwoThirds,
            (ProposalType::PGFSteward(_), _) => TallyType::OneHalfOverOneThird,
            (ProposalType::PGFPayment(_), true) => TallyType::LessOneHalfOverOneThirdNay,
            (ProposalType::PGFPayment(_), false) => TallyType::OneHalfOverOneThird,
        }
    }
}

/// A proposal is shown as pending, on-going or ended, and the stages come in
/// this order.
pub proof fn law_names_of_the_stages(status: ProposalStatus)
    ensures
        status is Pending ==> status.text() == "pending"@,
        status is OnGoing ==> status.text() == "on-going"@,
        status is Ended ==> status.text() == "ended"@,
        ProposalStatus::Pending.rank() < ProposalStatus::OnGoing.rank()
            < ProposalStatus::Ended.rank(),
{
}

/// Whatever code it carries and whoever proposes it, a default proposal needs
/// two thirds of the voting power.
pub proof fn law_tally_of_default_proposals(code: Option<crate::types::Hash>, is_steward: bool)
    ensures
        TallyType::needed(ProposalType::Default(code), is_steward) == TallyType::TwoThirds,
{
}

/// Whatever changes it asks for and whoever proposes it, a proposal about
/// stewards needs half of the votes, and a third of the voting power to vote.
pub proof fn law_tally_of_steward_proposals(changes: StewardSet, is_steward: bool)
    ensures
        TallyType::needed(ProposalType::PGFSteward(changes), is_steward)
            == TallyType::OneHalfOverOneThird,
{
}

/// Whatever payments it asks for, a proposal about payments passes unless it
/// is voted down where a steward proposes it, and needs half of the votes, and
/// a third of the voting power to vote, where anyone else does.
pub proof fn law_tally_of_payments(actions: Vec<PGFAction>)
    ensures
        TallyType::needed(ProposalType::PGFPayment(actions), true)
            == TallyType::LessOneHalfOverOneThirdNay,
        TallyType::needed(ProposalType::PGFPayment(actions), false)
            == TallyType::OneHalfOverOneThird,
{
}

} // verus!

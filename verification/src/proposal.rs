//! Governance proposals: what they are about, who may vote on them and when,
//! and how they are shown.

use vstd::prelude::*;
use vstd::string::*;

use std::collections::BTreeMap;

use crate::pgf::PGFAction;
use crate::stewards::StewardSet;
use crate::text::{decimal, push_decimal};
use crate::types::{Address, Epoch};
use crate::utils::{ProposalStatus, TallyType};

verus! {

/// What can be wrong with the type of a proposal
#[derive(Debug, Clone, Copy, PartialEq, Eq, Structural)]
pub enum ProposalTypeError {
    /// The type is not one of the known ones
    InvalidProposalType,
}

impl ProposalTypeError {
    /// What is said of the error.
    pub fn to_string(&self) -> (res: String)
        ensures
            res@ == "Invalid proposal type."@,
    {
        "Invalid proposal type.".to_owned()
    }
}

/// The type of a Proposal
#[derive(Debug, Clone, PartialEq)]
pub enum ProposalType {
    /// Default governance proposal with the optional wasm code
    Default(Option<crate::types::Hash>),
    /// PGF stewards proposal
    PGFSteward(StewardSet),
    /// PGF funding proposal
    PGFPayment(Vec<PGFAction>),
}

impl ProposalType {
    /// The name of the type.
    pub open spec fn text(&self) -> Seq<char> {
        match self {
            ProposalType::Default(_) => "Default"@,
            ProposalType::PGFSteward(_) => "Pgf steward"@,
            ProposalType::PGFPayment(_) => "Pgf funding"@,
        }
    }

    /// Check if the proposal type is default
    pub fn is_default(&self) -> (res: bool)
        ensures
            res == (self is Default),
    {
        matches!(self, ProposalType::Default(_))
    }

    /// The name of the type, as it is shown to users.
    pub fn to_string(&self) -> (res: String)
        ensures
            res@ == self.text(),
    {
        match self {
            ProposalType::Default(_) => "Default".to_owned(),
            ProposalType::PGFSteward(_) => "Pgf steward".to_owned(),
            ProposalType::PGFPayment(_) => "Pgf funding".to_owned(),
        }
    }
}

/// What `{:?}` of the standard library prints for a map from strings to
/// strings.
pub uninterp spec fn content_debug(content: Map<Seq<char>, Seq<char>>) -> Seq<char>;

/// Calls `format!` with `{:?}` on the content of a proposal. What it prints
/// depends on the keys and values alone.
#[verifier::external_body]
fn content_text(content: &BTreeMap<String, String>) -> (res: String)
    ensures
        res@ == content_debug(content.deep_view()),
{
    format!("{:?}", content)
}

/// Proposal representation when fetched from the storage
#[derive(Debug, Clone)]
pub struct StorageProposal {
    /// The proposal id
    pub id: u64,
    /// The proposal content
    pub content: BTreeMap<String, String>,
    /// The proposal author address
    pub author: Address,
    /// The proposal type
    pub proposal_type: ProposalType,
    /// The epoch from which voting is allowed
    pub voting_start_epoch: Epoch,
    /// The last epoch in which voting is allowed
    pub voting_end_epoch: Epoch,
    /// The epoch from which the changes are executed
    pub grace_epoch: Epoch,
}

impl StorageProposal {
    /// Validators vote in the first two thirds of the voting period, everyone
    /// else in all of it, its last epoch included.
    pub open spec fn votable(&self, current_epoch: Epoch, is_validator: bool) -> bool {
        let start = self.voting_start_epoch.0 as int;
        let end = self.voting_end_epoch.0 as int;
        let now = current_epoch.0 as int;
        if is_validator {
            start <= now && 3 * (now - start) <= 2 * (end - start)
        } else {
            start <= now <= end
        }
    }

    /// The sums that tell whether a validator may vote stay in range.
    pub open spec fn epochs_in_range(&self, current_epoch: Epoch) -> bool {
        &&& current_epoch.0 * 3 <= u64::MAX
        &&& self.voting_start_epoch.0 + self.voting_end_epoch.0 * 2 <= u64::MAX
    }

    /// The stage that the proposal has reached.
    pub open spec fn status(&self, current_epoch: Epoch) -> ProposalStatus {
        if current_epoch.0 < self.voting_start_epoch.0 {
            ProposalStatus::Pending
        } else if current_epoch.0 <= self.voting_end_epoch.0 {
            ProposalStatus::OnGoing
        } else {
            ProposalStatus::Ended
        }
    }

    /// Check if the proposal can be voted
    pub fn can_be_voted(&self, current_epoch: Epoch, is_validator: bool) -> (res: bool)
        requires
            is_validator && self.voting_start_epoch.0 <= current_epoch.0
                ==> self.epochs_in_range(current_epoch),
        ensures
            res == self.votable(current_epoch, is_validator),
    {
        if is_validator {
            self.voting_start_epoch.0 <= current_epoch.0 && current_epoch.0 * 3
                <= self.voting_start_epoch.0 + self.voting_end_epoch.0 * 2
        } else {
            let valid_start_epoch = current_epoch.0 >= self.voting_start_epoch.0;
            let valid_end_epoch = current_epoch.0 <= self.voting_end_epoch.0;
            valid_start_epoch && valid_end_epoch
        }
    }

    /// Return the type of tally for the proposal
    pub fn get_tally_type(&self, is_steward: bool) -> (res: TallyType)
        ensures
            res == TallyType::needed(self.proposal_type, is_steward),
    {
        TallyType::from(&self.proposal_type, is_steward)
    }

    /// Return the status of a proposal
    pub fn get_status(&self, current_epoch: Epoch) -> (res: ProposalStatus)
        ensures
            res == self.status(current_epoch),
    {
        if self.voting_start_epoch.0 > current_epoch.0 {
            ProposalStatus::Pending
        } else if self.voting_start_epoch.0 <= current_epoch.0 && current_epoch.0
            <= self.voting_end_epoch.0 {
            ProposalStatus::OnGoing
        } else {
            ProposalStatus::Ended
        }
    }
}

impl StorageProposal {
    /// What `to_string_with_status` gives, for a text of the content and a
    /// stage.
    pub open spec fn status_text(&self, content: Seq<char>, status: ProposalStatus) -> Seq<char> {
        "Proposal Id: "@ + decimal(self.id as nat)
            + "\n          Type: "@ + self.proposal_type.text()
            + "\n          Author: "@ + self.author@
            + "\n          Content: "@ + content
            + "\n          Start Epoch: "@ + decimal(self.voting_start_epoch.0 as nat)
            + "\n          End Epoch: "@ + decimal(self.voting_end_epoch.0 as nat)
            + "\n          Grace Epoch: "@ + decimal(self.grace_epoch.0 as nat)
            + "\n          Status: "@ + status.text()
            + "\n        "@
    }

    /// What `to_string` gives.
    pub open spec fn text(&self) -> Seq<char> {
        "Proposal Id: "@ + decimal(self.id as nat)
            + "\n              Type: "@ + self.proposal_type.text()
            + "\n              Author: "@ + self.author@
            + "\n              Start Epoch: "@ + decimal(self.voting_start_epoch.0 as nat)
            + "\n              End Epoch: "@ + decimal(self.voting_end_epoch.0 as nat)
            + "\n              Grace Epoch: "@ + decimal(self.grace_epoch.0 as nat)
            + "\n            "@
    }

    /// Puts a text of the content and a stage into the description of the
    /// proposal.
    pub fn describe(&self, content: &str, status: ProposalStatus) -> (res: String)
        ensures
            res@ == self.status_text(content@, status),
    {
        let mut out = String::new();
        out.append("Proposal Id: ");
        push_decimal(&mut out, self.id);
        out.append("\n          Type: ");
        out.append(self.proposal_type.to_string().as_str());
        out.append("\n          Author: ");
        out.append(self.author.to_string().as_str());
        out.append("\n          Content: ");
        out.append(content);
        out.append("\n          Start Epoch: ");
        push_decimal(&mut out, self.voting_start_epoch.0);
        out.append("\n          End Epoch: ");
        push_decimal(&mut out, self.voting_end_epoch.0);
        out.append("\n          Grace Epoch: ");
        push_decimal(&mut out, self.grace_epoch.0);
        out.append("\n          Status: ");
        out.append(status.to_string().as_str());
        out.append("\n        ");
        assert(out@ =~= self.status_text(content@, status));
        out
    }

    /// Serialize a proposal to string
    pub fn to_string_with_status(&self, current_epoch: Epoch) -> (res: String)
        ensures
            res@ == self.status_text(
                content_debug(self.content.deep_view()),
                self.status(current_epoch),
            ),
    {
        let content: String = content_text(&self.content);
        self.describe(content.as_str(), self.get_status(current_epoch))
    }

    /// The proposal without its content, as it is shown to users.
    pub fn to_string(&self) -> (res: String)
        ensures
            res@ == self.text(),
    {
        let mut out = String::new();
        out.append("Proposal Id: ");
        push_decimal(&mut out, self.id);
        out.append("\n              Type: ");
        out.append(self.proposal_type.to_string().as_str());
        out.append("\n              Author: ");
        out.append(self.author.to_string().as_str());
        out.append("\n              Start Epoch: ");
        push_decimal(&mut out, self.voting_start_epoch.0);
        out.append("\n              End Epoch: ");
        push_decimal(&mut out, self.voting_end_epoch.0);
        out.append("\n              Grace Epoch: ");
        push_decimal(&mut out, self.grace_epoch.0);
        out.append("\n            ");
        assert(out@ =~= self.text());
        out
    }
}

/// A validator may vote only where everyone may.
pub proof fn law_validators_vote_among_all(proposal: StorageProposal, current_epoch: Epoch)
    ensures
        proposal.votable(current_epoch, true) ==> proposal.votable(current_epoch, false),
{
}

/// Whoever is no validator may vote exactly while the proposal is on-going.
pub proof fn law_voting_is_open_while_on_going(proposal: StorageProposal, current_epoch: Epoch)
    ensures
        proposal.votable(current_epoch, false) <==> proposal.status(current_epoch)
            == ProposalStatus::OnGoing,
{
}

/// As epochs pass, a proposal never goes back to an earlier stage.
pub proof fn law_status_only_advances(proposal: StorageProposal, earlier: Epoch, later: Epoch)
    requires
        earlier.0 <= later.0,
    ensures
        proposal.status(earlier).rank() <= proposal.status(later).rank(),
{
}

/// Once voting has closed for a validator or for anyone else, it stays closed.
pub proof fn law_voting_stays_closed(
    proposal: StorageProposal,
    earlier: Epoch,
    later: Epoch,
    is_validator: bool,
)
    requires
        proposal.voting_start_epoch.0 <= earlier.0 <= later.0,
        !proposal.votable(earlier, is_validator),
    ensures
        !proposal.votable(later, is_validator),
{
}

/// The first epoch of a voting period that is not empty is open to everyone.
pub proof fn law_first_epoch_is_open(proposal: StorageProposal, is_validator: bool)
    requires
        proposal.voting_start_epoch.0 <= proposal.voting_end_epoch.0,
    ensures
        proposal.votable(proposal.voting_start_epoch, is_validator),
{
}

/// Who proposed it matters for the tally of a payment alone.
pub proof fn law_tally_looks_at_stewards_for_payments_only(proposal_type: ProposalType)
    ensures
        TallyType::needed(proposal_type, true) != TallyType::needed(proposal_type, false)
            <==> proposal_type is PGFPayment,
{
}

/// Default proposals are those that need two thirds, whoever proposed them.
pub proof fn law_default_needs_two_thirds(proposal_type: ProposalType, is_steward: bool)
    ensures
        proposal_type is Default <==> TallyType::needed(proposal_type, is_steward)
            == TallyType::TwoThirds,
{
}

/// Two types with one name are of one kind.
pub proof fn law_type_names_differ(a: ProposalType, b: ProposalType)
    requires
        a.text() == b.text(),
    ensures
        a is Default == b is Default,
        a is PGFSteward == b is PGFSteward,
        a is PGFPayment == b is PGFPayment,
{
    reveal_strlit("Default");
    reveal_strlit("Pgf steward");
    reveal_strlit("Pgf funding");
    assert("Pgf steward"@[4] == 's');
    assert("Pgf funding"@[4] == 'f');
}

/// The names of the three types, whatever a proposal of that type holds.
pub proof fn law_names_of_the_types(
    code: Option<crate::types::Hash>,
    changes: StewardSet,
    actions: Vec<PGFAction>,
)
    ensures
        ProposalType::Default(code).text() == "Default"@,
        ProposalType::PGFSteward(changes).text() == "Pgf steward"@,
        ProposalType::PGFPayment(actions).text() == "Pgf funding"@,
{
}

/// A validator may vote from the first epoch of the voting period on, up to
/// the last epoch that is within two thirds of it: three times the current
/// epoch is at most the first epoch and twice the last.
pub proof fn law_validators_vote_in_two_thirds(proposal: StorageProposal, current_epoch: Epoch)
    ensures
        proposal.votable(current_epoch, true) <==> proposal.voting_start_epoch.0 <= current_epoch.0
            && 3 * current_epoch.0 <= proposal.voting_start_epoch.0 + 2
            * proposal.voting_end_epoch.0,
{
}

/// Counted from the first epoch of the voting period, every epoch up to two
/// thirds of the length of the period is open to validators, and none after.
pub proof fn law_two_thirds_are_open_to_validators(proposal: StorageProposal, passed: u64)
    requires
        proposal.voting_start_epoch.0 <= proposal.voting_end_epoch.0,
        proposal.voting_start_epoch.0 + passed <= u64::MAX,
    ensures
        proposal.votable(Epoch((proposal.voting_start_epoch.0 + passed) as u64), true) <==> passed
            <= (2 * (proposal.voting_end_epoch.0 - proposal.voting_start_epoch.0)) / 3,
{
}

/// Whoever is no validator may vote from the first epoch of the voting period
/// to the last, both included.
pub proof fn law_others_vote_to_the_end(proposal: StorageProposal, current_epoch: Epoch)
    ensures
        proposal.votable(current_epoch, false) <==> proposal.voting_start_epoch.0 <= current_epoch.0
            && current_epoch.0 <= proposal.voting_end_epoch.0,
{
}

/// A proposal is pending exactly before its first epoch, on-going exactly from
/// its first epoch to its last, and ended exactly where it has started and its
/// last epoch has passed.
pub proof fn law_stage_of_every_epoch(proposal: StorageProposal, current_epoch: Epoch)
    ensures
        proposal.status(current_epoch) is Pending <==> current_epoch.0
            < proposal.voting_start_epoch.0,
        proposal.status(current_epoch) is OnGoing <==> proposal.voting_start_epoch.0
            <= current_epoch.0 && current_epoch.0 <= proposal.voting_end_epoch.0,
        proposal.status(current_epoch) is Ended <==> proposal.voting_start_epoch.0
            <= current_epoch.0 && proposal.voting_end_epoch.0 < current_epoch.0,
{
}

/// After its last epoch, a proposal that has started is over, and nobody may
/// vote on it.
pub proof fn law_voting_ends_with_the_last_epoch(
    proposal: StorageProposal,
    current_epoch: Epoch,
    is_validator: bool,
)
    requires
        proposal.voting_start_epoch.0 <= current_epoch.0,
        proposal.voting_end_epoch.0 < current_epoch.0,
    ensures
        proposal.status(current_epoch) == ProposalStatus::Ended,
        !proposal.votable(current_epoch, is_validator),
{
}

/// Nobody may vote before the first epoch of the voting period.
pub proof fn law_voting_starts_with_the_first_epoch(
    proposal: StorageProposal,
    current_epoch: Epoch,
    is_validator: bool,
)
    requires
        current_epoch.0 < proposal.voting_start_epoch.0,
    ensures
        !proposal.votable(current_epoch, is_validator),
{
}

/// Voting periods that are moved by some epochs are open and closed as before
/// in the epochs that are moved with them, and reach the same stages.
pub proof fn law_periods_can_be_moved(
    proposal: StorageProposal,
    moved: StorageProposal,
    current_epoch: Epoch,
    later_epoch: Epoch,
    is_validator: bool,
)
    requires
        moved.voting_start_epoch.0 - proposal.voting_start_epoch.0 == later_epoch.0
            - current_epoch.0,
        moved.voting_end_epoch.0 - proposal.voting_end_epoch.0 == later_epoch.0 - current_epoch.0,
    ensures
        moved.votable(later_epoch, is_validator) == proposal.votable(current_epoch, is_validator),
        moved.status(later_epoch) == proposal.status(current_epoch),
{
}

/// Whether a validator may vote can be told wherever three times the current
/// epoch, and the first epoch and twice the last, are numbers of 64 bits.
pub proof fn law_epochs_that_can_be_told(proposal: StorageProposal, current_epoch: Epoch)
    ensures
        proposal.epochs_in_range(current_epoch) <==> 3 * current_epoch.0
            <= 0xffff_ffff_ffff_ffff && proposal.voting_start_epoch.0 + 2
            * proposal.voting_end_epoch.0 <= 0xffff_ffff_ffff_ffff,
{
}

/// The description of a proposal holds one line for each of its fields: its
/// identifier, type, author, content, first, last and grace epoch, and stage.
pub proof fn law_lines_of_the_description(
    proposal: StorageProposal,
    content: Seq<char>,
    status: ProposalStatus,
)
    ensures
        ({
            let head = "Proposal Id: "@ + decimal(proposal.id as nat);
            let kind = "\n          Type: "@ + proposal.proposal_type.text();
            let author = "\n          Author: "@ + proposal.author.encoded@;
            let body = "\n          Content: "@ + content;
            let start = "\n          Start Epoch: "@ + decimal(
                proposal.voting_start_epoch.0 as nat,
            );
            let end = "\n          End Epoch: "@ + decimal(proposal.voting_end_epoch.0 as nat);
            let grace = "\n          Grace Epoch: "@ + decimal(proposal.grace_epoch.0 as nat);
            let stage = "\n          Status: "@ + status.text();
            proposal.status_text(content, status) == head + kind + author + body + start + end
                + grace + stage + "\n        "@
        }),
{
    assert(proposal.status_text(content, status) =~= ("Proposal Id: "@ + decimal(
        proposal.id as nat,
    )) + ("\n          Type: "@ + proposal.proposal_type.text()) + ("\n          Author: "@
        + proposal.author.encoded@) + ("\n          Content: "@ + content) + (
    "\n          Start Epoch: "@ + decimal(proposal.voting_start_epoch.0 as nat)) + (
    "\n          End Epoch: "@ + decimal(proposal.voting_end_epoch.0 as nat)) + (
    "\n          Grace Epoch: "@ + decimal(proposal.grace_epoch.0 as nat)) + (
    "\n          Status: "@ + status.text()) + "\n        "@);
}

/// Without its content and stage, a proposal is shown with one line for each
/// of its identifier, type, author, first, last and grace epoch.
pub proof fn law_lines_without_the_content(proposal: StorageProposal)
    ensures
        ({
            let head = "Proposal Id: "@ + decimal(proposal.id as nat);
            let kind = "\n              Type: "@ + proposal.proposal_type.text();
            let author = "\n              Author: "@ + proposal.author.encoded@;
            let start = "\n              Start Epoch: "@ + decimal(
                proposal.voting_start_epoch.0 as nat,
            );
            let end = "\n              End Epoch: "@ + decimal(proposal.voting_end_epoch.0 as nat);
            let grace = "\n              Grace Epoch: "@ + decimal(proposal.grace_epoch.0 as nat);
            proposal.text() == head + kind + author + start + end + grace + "\n            "@
        }),
{
    assert(proposal.text() =~= ("Proposal Id: "@ + decimal(proposal.id as nat)) + (
    "\n              Type: "@ + proposal.proposal_type.text()) + ("\n              Author: "@
        + proposal.author.encoded@) + ("\n              Start Epoch: "@ + decimal(
        proposal.voting_start_epoch.0 as nat,
    )) + ("\n              End Epoch: "@ + decimal(proposal.voting_end_epoch.0 as nat)) + (
    "\n              Grace Epoch: "@ + decimal(proposal.grace_epoch.0 as nat))
        + "\n            "@);
}

} // verus!

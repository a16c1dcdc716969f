use std::collections::BTreeMap;

use namada_governance::pgf::{AddRemove, PGFAction, PGFInternalTarget, PGFTarget};
use namada_governance::proposal::{ProposalType, ProposalTypeError, StorageProposal};
use namada_governance::stewards::StewardSet;
use namada_governance::text::push_decimal;
use namada_governance::types::{Address, Amount, Epoch};
use namada_governance::utils::{ProposalStatus, TallyType};

fn proposal(proposal_type: ProposalType, start: u64, end: u64) -> StorageProposal {
    let mut content = BTreeMap::new();
    content.insert("title".to_string(), "Say \"hi\"".to_string());
    content.insert("abstract".to_string(), "two\nlines".to_string());
    StorageProposal {
        id: 42,
        content,
        author: Address::new("tnam1author".to_string()),
        proposal_type,
        voting_start_epoch: Epoch(start),
        voting_end_epoch: Epoch(end),
        grace_epoch: Epoch(1005),
    }
}

fn payment() -> ProposalType {
    ProposalType::PGFPayment(vec![PGFAction::Retro(PGFTarget::Internal(PGFInternalTarget {
        target: Address::new("tnam1payee".to_string()),
        amount: Amount { high: 0, low: 5 },
    }))])
}

fn hash() -> namada_governance::types::Hash {
    namada_governance::types::Hash([3; 32])
}

#[test]
fn validators_vote_in_the_first_two_thirds() {
    let p = proposal(ProposalType::Default(None), 10, 13);
    assert!(!p.can_be_voted(Epoch(9), true));
    assert!(p.can_be_voted(Epoch(10), true));
    assert!(p.can_be_voted(Epoch(12), true));
    assert!(!p.can_be_voted(Epoch(13), true));
}

#[test]
fn two_thirds_round_down() {
    let p = proposal(ProposalType::Default(None), 10, 14);
    assert!(p.can_be_voted(Epoch(12), true));
    assert!(!p.can_be_voted(Epoch(13), true));
}

#[test]
fn others_vote_until_the_end() {
    let p = proposal(ProposalType::Default(None), 10, 13);
    assert!(!p.can_be_voted(Epoch(9), false));
    assert!(p.can_be_voted(Epoch(10), false));
    assert!(p.can_be_voted(Epoch(13), false));
    assert!(!p.can_be_voted(Epoch(14), false));
}

#[test]
fn far_away_epochs_can_be_compared() {
    let p = proposal(ProposalType::Default(None), u64::MAX - 1, u64::MAX);
    assert!(p.can_be_voted(Epoch(u64::MAX), false));
    assert!(!p.can_be_voted(Epoch(u64::MAX - 2), true));
}

#[test]
fn validators_vote_only_where_everyone_may() {
    for start in 0..6u64 {
        for end in 0..8u64 {
            let p = proposal(ProposalType::Default(None), start, end);
            for now in 0..10u64 {
                assert!(!p.can_be_voted(Epoch(now), true) || p.can_be_voted(Epoch(now), false));
                assert_eq!(
                    p.can_be_voted(Epoch(now), false),
                    p.get_status(Epoch(now)) == ProposalStatus::OnGoing
                );
            }
        }
    }
}

#[test]
fn status_follows_the_epochs() {
    let p = proposal(ProposalType::Default(None), 10, 13);
    assert_eq!(p.get_status(Epoch(9)), ProposalStatus::Pending);
    assert_eq!(p.get_status(Epoch(10)), ProposalStatus::OnGoing);
    assert_eq!(p.get_status(Epoch(13)), ProposalStatus::OnGoing);
    assert_eq!(p.get_status(Epoch(14)), ProposalStatus::Ended);
}

#[test]
fn an_empty_period_is_never_open() {
    let p = proposal(ProposalType::Default(None), 10, 9);
    assert_eq!(p.get_status(Epoch(9)), ProposalStatus::Pending);
    assert_eq!(p.get_status(Epoch(10)), ProposalStatus::Ended);
    assert!(!p.can_be_voted(Epoch(10), true));
    assert!(!p.can_be_voted(Epoch(10), false));
}

#[test]
fn tallies() {
    let default = proposal(ProposalType::Default(Some(hash())), 1, 2);
    assert_eq!(default.get_tally_type(false), TallyType::TwoThirds);
    assert_eq!(default.get_tally_type(true), TallyType::TwoThirds);
    let stewards = proposal(ProposalType::PGFSteward(StewardSet::new()), 1, 2);
    assert_eq!(stewards.get_tally_type(false), TallyType::OneHalfOverOneThird);
    assert_eq!(stewards.get_tally_type(true), TallyType::OneHalfOverOneThird);
    let payment = proposal(payment(), 1, 2);
    assert_eq!(payment.get_tally_type(false), TallyType::OneHalfOverOneThird);
    assert_eq!(payment.get_tally_type(true), TallyType::LessOneHalfOverOneThirdNay);
}

#[test]
fn types_know_whether_they_are_default() {
    assert!(ProposalType::Default(None).is_default());
    assert!(ProposalType::Default(Some(hash())).is_default());
    assert!(!ProposalType::PGFSteward(StewardSet::new()).is_default());
    assert!(!payment().is_default());
}

#[test]
fn names() {
    assert_eq!(ProposalType::Default(None).to_string(), "Default");
    assert_eq!(ProposalType::PGFSteward(StewardSet::new()).to_string(), "Pgf steward");
    assert_eq!(payment().to_string(), "Pgf funding");
    assert_eq!(ProposalStatus::Pending.to_string(), "pending");
    assert_eq!(ProposalStatus::OnGoing.to_string(), "on-going");
    assert_eq!(ProposalStatus::Ended.to_string(), "ended");
    assert_eq!(ProposalTypeError::InvalidProposalType.to_string(), "Invalid proposal type.");
}

#[test]
fn text_with_status() {
    let p = proposal(payment(), 10, 13);
    assert_eq!(
        p.to_string_with_status(Epoch(11)),
        "Proposal Id: 42
          Type: Pgf funding
          Author: tnam1author
          Content: {\"abstract\": \"two\\nlines\", \"title\": \"Say \\\"hi\\\"\"}
          Start Epoch: 10
          End Epoch: 13
          Grace Epoch: 1005
          Status: on-going
        "
    );
}

#[test]
fn text_with_status_matches_the_template() {
    let p = proposal(ProposalType::Default(None), 10, 13);
    for now in [9u64, 10, 13, 14] {
        let expected = format!(
            "Proposal Id: {}
        {:2}Type: {}
        {:2}Author: {}
        {:2}Content: {:?}
        {:2}Start Epoch: {}
        {:2}End Epoch: {}
        {:2}Grace Epoch: {}
        {:2}Status: {}
        ",
            p.id,
            "",
            p.proposal_type.to_string(),
            "",
            p.author.to_string(),
            "",
            p.content,
            "",
            p.voting_start_epoch.0,
            "",
            p.voting_end_epoch.0,
            "",
            p.grace_epoch.0,
            "",
            p.get_status(Epoch(now)).to_string()
        );
        assert_eq!(p.to_string_with_status(Epoch(now)), expected);
    }
}

#[test]
fn described_content_is_taken_as_it_is() {
    let p = proposal(ProposalType::Default(None), 10, 13);
    let text = p.describe("<content>", ProposalStatus::Ended);
    assert!(text.contains("\n          Content: <content>\n"));
    assert!(text.ends_with("Status: ended\n        "));
}

#[test]
fn short_text() {
    let p = proposal(ProposalType::PGFSteward(StewardSet::new()), 7, 9);
    assert_eq!(
        p.to_string(),
        "Proposal Id: 42
              Type: Pgf steward
              Author: tnam1author
              Start Epoch: 7
              End Epoch: 9
              Grace Epoch: 1005
            "
    );
}

#[test]
fn decimals() {
    for n in [0u64, 7, 9, 10, 19, 100, 1234567890, u64::MAX - 1, u64::MAX] {
        let mut out = "n = ".to_string();
        push_decimal(&mut out, n);
        assert_eq!(out, format!("n = {}", n));
    }
}

#[test]
fn types_compare_by_what_they_hold() {
    let alice = AddRemove::Add(Address::new("alice".to_string()));
    let bertha = AddRemove::Remove(Address::new("bertha".to_string()));
    let mut one = StewardSet::new();
    one.insert(alice.clone());
    one.insert(bertha.clone());
    let mut other = StewardSet::new();
    other.insert(bertha);
    other.insert(alice);
    assert_eq!(ProposalType::PGFSteward(one.clone()), ProposalType::PGFSteward(other));
    assert_ne!(
        ProposalType::PGFSteward(one),
        ProposalType::PGFSteward(StewardSet::new())
    );
}

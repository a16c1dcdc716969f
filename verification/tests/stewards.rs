use namada_governance::onchain::{PgfAction, PgfSteward, StewardsUpdate};
use namada_governance::pgf::AddRemove;
use namada_governance::stewards::StewardSet;
use namada_governance::types::Address;

fn address(name: &str) -> Address {
    Address::new(name.to_string())
}

#[test]
fn an_update_adds_and_removes() {
    let update = StewardsUpdate {
        add: Some(address("alice")),
        remove: vec![address("bertha"), address("christel")],
    };
    let set = StewardSet::try_from(update).unwrap();
    assert_eq!(set.len(), 3);
    assert!(set.contains(&AddRemove::Add(address("alice"))));
    assert!(set.contains(&AddRemove::Remove(address("bertha"))));
    assert!(set.contains(&AddRemove::Remove(address("christel"))));
    assert!(!set.contains(&AddRemove::Remove(address("alice"))));
    assert!(!set.contains(&AddRemove::Add(address("bertha"))));
}

#[test]
fn nobody_need_be_added() {
    let update = StewardsUpdate {
        add: None,
        remove: vec![address("bertha")],
    };
    let set = StewardSet::try_from(update).unwrap();
    assert_eq!(set.changes(), &vec![AddRemove::Remove(address("bertha"))]);
}

#[test]
fn an_empty_update_asks_for_nothing() {
    let update = StewardsUpdate {
        add: None,
        remove: vec![],
    };
    assert_eq!(StewardSet::try_from(update).unwrap(), StewardSet::new());
}

#[test]
fn repeated_removals_count_once() {
    let update = StewardsUpdate {
        add: Some(address("alice")),
        remove: vec![address("bertha"), address("alice"), address("bertha")],
    };
    let set = StewardSet::try_from(update).unwrap();
    assert_eq!(set.len(), 3);
    assert!(set.contains(&AddRemove::Add(address("alice"))));
    assert!(set.contains(&AddRemove::Remove(address("alice"))));
}

#[test]
fn sets_compare_without_order() {
    let one = StewardSet::try_from(StewardsUpdate {
        add: None,
        remove: vec![address("a"), address("b")],
    });
    let other = StewardSet::try_from(StewardsUpdate {
        add: None,
        remove: vec![address("b"), address("a"), address("b")],
    });
    assert_eq!(one, other);
}

#[test]
fn insertion_says_what_was_new() {
    let mut set = StewardSet::new();
    assert!(set.insert(AddRemove::Add(address("a"))));
    assert!(!set.insert(AddRemove::Add(address("a"))));
    assert!(set.insert(AddRemove::Remove(address("a"))));
    assert_eq!(set.len(), 2);
    let copy = set.clone();
    assert!(copy.is_subset(&set));
    set.insert(AddRemove::Add(address("b")));
    assert!(copy.is_subset(&set));
    assert!(!set.is_subset(&copy));
    assert_ne!(copy, set);
}

#[test]
fn one_steward() {
    let added = AddRemove::try_from(PgfSteward {
        action: PgfAction::Add,
        address: address("alice"),
    });
    assert_eq!(added, Ok(AddRemove::Add(address("alice"))));
    let removed = AddRemove::try_from(PgfSteward {
        action: PgfAction::Remove,
        address: address("alice"),
    });
    assert_eq!(removed, Ok(AddRemove::Remove(address("alice"))));
}

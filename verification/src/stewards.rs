//! Changes to the set of stewards.

use vstd::prelude::*;
use vstd::std_specs::cmp::{PartialEqSpec, PartialEqSpecImpl};
use vstd::std_specs::convert::{TryFromSpec, TryFromSpecImpl};

use crate::onchain::{PgfAction, PgfSteward, StewardsUpdate};
use crate::pgf::AddRemove;
use crate::proposal::ProposalTypeError;
use crate::types::Address;

verus! {

/// A set of changes, none of which is there twice.
#[derive(Debug)]
pub struct StewardSet {
    /// The changes, in the order in which they came in.
    changes: Vec<AddRemove<Address>>,
}

/// Whether two changes are the same.
fn same_change(a: &AddRemove<Address>, b: &AddRemove<Address>) -> (res: bool)
    ensures
        res == (a@ == b@),
{
    match (a, b) {
        (AddRemove::Add(a), AddRemove::Add(b)) => a.encoded == b.encoded,
        (AddRemove::Remove(a), AddRemove::Remove(b)) => a.encoded == b.encoded,
        _ => false,
    }
}

/// Changes, with their addresses in printed form.
pub open spec fn change_texts(changes: Seq<AddRemove<Address>>) -> Seq<AddRemove<Seq<char>>> {
    changes.map_values(|change: AddRemove<Address>| change@)
}

impl View for StewardSet {
    type V = Set<AddRemove<Seq<char>>>;

    closed spec fn view(&self) -> Set<AddRemove<Seq<char>>> {
        self.texts().to_set()
    }
}

impl StewardSet {
    /// The changes, with their addresses in printed form.
    closed spec fn texts(&self) -> Seq<AddRemove<Seq<char>>> {
        change_texts(self.changes@)
    }

    #[verifier::type_invariant]
    closed spec fn well_formed(&self) -> bool {
        self.texts().no_duplicates()
    }

    /// The empty set.
    pub fn new() -> (res: Self)
        ensures
            res@ == Set::<AddRemove<Seq<char>>>::empty(),
    {
        let res = StewardSet { changes: Vec::new() };
        assert(res@ =~= Set::<AddRemove<Seq<char>>>::empty());
        res
    }

    /// Whether the change is in the set.
    pub fn contains(&self, change: &AddRemove<Address>) -> (res: bool)
        ensures
            res == self@.contains(change@),
    {
        for i in 0..self.changes.len()
            invariant
                forall|j: int| 0 <= j < i ==> self.texts()[j] != change@,
        {
            if same_change(&self.changes[i], change) {
                assert(self.texts()[i as int] == change@);
                return true;
            }
        }
        false
    }

    /// How many changes there are.
    pub fn len(&self) -> (res: usize)
        ensures
            res == self@.len(),
    {
        proof {
            use_type_invariant(self);
            self.texts().unique_seq_to_set();
        }
        self.changes.len()
    }

    /// Puts a change into the set. Says whether it was missing.
    pub fn insert(&mut self, change: AddRemove<Address>) -> (res: bool)
        ensures
            res == !old(self)@.contains(change@),
            final(self)@ == old(self)@.insert(change@),
    {
        proof {
            use_type_invariant(&*self);
        }
        if self.contains(&change) {
            assert(self@ =~= old(self)@.insert(change@));
            return false;
        }
        let ghost before = self.texts();
        let mut changes: Vec<AddRemove<Address>> = Vec::new();
        std::mem::swap(&mut changes, &mut self.changes);
        changes.push(change);
        assert(change_texts(changes@) =~= before.push(change@));
        self.changes = changes;
        assert(self@ =~= old(self)@.insert(change@)) by {
            assert(self.texts() == before.push(change@));
            before.lemma_push_to_set_commute(change@);
        }
        true
    }
}

impl StewardSet {
    /// The changes, each of them once.
    pub fn changes(&self) -> (res: &Vec<AddRemove<Address>>)
        ensures
            change_texts(res@).no_duplicates(),
            change_texts(res@).to_set() == self@,
    {
        proof {
            use_type_invariant(self);
        }
        &self.changes
    }

    /// Whether every change of this set is in the other one.
    pub fn is_subset(&self, other: &StewardSet) -> (res: bool)
        ensures
            res == self@.subset_of(other@),
    {
        for i in 0..self.changes.len()
            invariant
                forall|j: int| 0 <= j < i ==> other@.contains(change_texts(self.changes@)[j]),
        {
            assert(change_texts(self.changes@)[i as int] == self.changes[i as int]@);
            if !other.contains(&self.changes[i]) {
                assert(self@.contains(change_texts(self.changes@)[i as int]));
                return false;
            }
        }
        true
    }
}

impl Clone for StewardSet {
    fn clone(&self) -> (res: Self)
        ensures
            res@ == self@,
    {
        proof {
            use_type_invariant(self);
        }
        let mut changes: Vec<AddRemove<Address>> = Vec::new();
        for i in 0..self.changes.len()
            invariant
                changes@ == self.changes@.take(i as int),
        {
            let change = match &self.changes[i] {
                AddRemove::Add(address) => AddRemove::Add(address.clone()),
                AddRemove::Remove(address) => AddRemove::Remove(address.clone()),
            };
            changes.push(change);
        }
        assert(changes@ =~= self.changes@);
        StewardSet { changes }
    }
}

impl PartialEq for StewardSet {
    fn eq(&self, other: &StewardSet) -> (res: bool) {
        let res = self.is_subset(other) && other.is_subset(self);
        assert(res ==> self@ =~= other@);
        res
    }
}

impl PartialEqSpecImpl for StewardSet {
    open spec fn obeys_eq_spec() -> bool {
        true
    }

    open spec fn eq_spec(&self, other: &StewardSet) -> bool {
        self@ == other@
    }
}

/// The changes that an update asks for: its newcomer is added, if it has one,
/// and those who leave are removed.
pub open spec fn requested_changes(update: StewardsUpdate) -> Set<AddRemove<Seq<char>>> {
    let removals = removal_texts(update.remove@).to_set();
    match update.add {
        Some(address) => removals.insert(AddRemove::Add(address@)),
        None => removals,
    }
}

/// The removals of some addresses.
pub open spec fn removal_texts(addresses: Seq<Address>) -> Seq<AddRemove<Seq<char>>> {
    addresses.map_values(|address: Address| AddRemove::Remove(address@))
}

impl TryFrom<StewardsUpdate> for StewardSet {
    type Error = ProposalTypeError;

    fn try_from(value: StewardsUpdate) -> (res: Result<Self, ProposalTypeError>)
        ensures
            res is Ok,
            res->Ok_0@ == requested_changes(value),
    {
        let ghost update = value;
        let mut data = StewardSet::new();
        let ghost added = match update.add {
            Some(address) => Set::empty().insert(AddRemove::Add(address@)),
            None => Set::empty(),
        };
        if let Some(address) = value.add {
            data.insert(AddRemove::Add(address));
        }
        let remove: Vec<Address> = value.remove;
        for steward in it: remove.into_iter()
            invariant
                it.seq() == update.remove@,
                data@ == added + removal_texts(update.remove@.take(it.index() as int)).to_set(),
        {
            data.insert(AddRemove::Remove(steward));
            proof {
                let taken = update.remove@.take(it.index() as int);
                assert(update.remove@.take(it.index() + 1) =~= taken.push(steward));
                assert(removal_texts(taken.push(steward)) =~= removal_texts(taken).push(
                    AddRemove::Remove(steward@),
                ));
                removal_texts(taken).lemma_push_to_set_commute(AddRemove::Remove(steward@));
                assert(data@ =~= added + removal_texts(taken.push(steward)).to_set());
            }
        }
        assert(update.remove@.take(update.remove@.len() as int) =~= update.remove@);
        assert(data@ =~= requested_changes(update));
        Ok(data)
    }
}

impl TryFromSpecImpl<StewardsUpdate> for StewardSet {
    /// The contract stands on `try_from`: it speaks of the set alone, not of
    /// the order in which the set is held.
    open spec fn obeys_try_from_spec() -> bool {
        false
    }

    open spec fn try_from_spec(value: StewardsUpdate) -> Result<Self, ProposalTypeError> {
        Ok(choose|set: StewardSet| #[trigger] set@ == requested_changes(value))
    }
}

impl TryFrom<PgfSteward> for AddRemove<Address> {
    type Error = ProposalTypeError;

    fn try_from(value: PgfSteward) -> (res: Result<Self, ProposalTypeError>) {
        match value.action {
            PgfAction::Add => Ok(AddRemove::Add(value.address)),
            PgfAction::Remove => Ok(AddRemove::Remove(value.address)),
        }
    }
}

impl TryFromSpecImpl<PgfSteward> for AddRemove<Address> {
    open spec fn obeys_try_from_spec() -> bool {
        true
    }

    open spec fn try_from_spec(value: PgfSteward) -> Result<Self, ProposalTypeError> {
        Ok(
            match value.action {
                PgfAction::Add => AddRemove::Add(value.address),
                PgfAction::Remove => AddRemove::Remove(value.address),
            },
        )
    }
}

/// An address is added where it is the newcomer of the update, and removed
/// where it is among those who leave. Both can be true of one address.
pub proof fn law_requested_changes(update: StewardsUpdate, address: Seq<char>)
    ensures
        requested_changes(update).contains(AddRemove::Add(address)) <==> (update.add is Some
            && update.add->Some_0@ == address),
        requested_changes(update).contains(AddRemove::Remove(address)) <==> exists|i: int|
            0 <= i < update.remove@.len() && #[trigger] update.remove@[i]@ == address,
{
    let removals = removal_texts(update.remove@);
    assert forall|i: int| 0 <= i < removals.len() implies #[trigger] removals[i]
        == AddRemove::Remove(update.remove@[i]@) by {}
    if removals.to_set().contains(AddRemove::Remove(address)) {
        let i = choose|i: int|
            0 <= i < removals.len() && removals[i] == AddRemove::Remove(address);
        assert(update.remove@[i]@ == address);
    }
    if exists|i: int| 0 <= i < update.remove@.len() && #[trigger] update.remove@[i]@ == address {
        let i = choose|i: int|
            0 <= i < update.remove@.len() && #[trigger] update.remove@[i]@ == address;
        assert(removals[i] == AddRemove::Remove(address));
    }
}

/// An update asks for no more changes than it lists.
pub proof fn law_changes_are_no_more_than_listed(update: StewardsUpdate)
    ensures
        requested_changes(update).len() <= update.remove@.len() + (if update.add is Some {
            1nat
        } else {
            0nat
        }),
{
    removal_texts(update.remove@).lemma_cardinality_of_set();
}

/// Changes are taken one by one, each with the printed form of its address.
pub proof fn law_changes_keep_their_texts(changes: Seq<AddRemove<Address>>)
    ensures
        change_texts(changes).len() == changes.len(),
        forall|i: int|
            0 <= i < changes.len() ==> #[trigger] change_texts(changes)[i] == (match changes[i] {
                AddRemove::Add(address) => AddRemove::Add(address.encoded@),
                AddRemove::Remove(address) => AddRemove::Remove(address.encoded@),
            }),
{
}

/// Whatever the address, a steward who is to be added is added, one who is to be
/// removed is removed, and no request is refused.
pub proof fn law_steward_requests_are_kept(value: PgfSteward)
    ensures
        <AddRemove<Address> as TryFromSpec<PgfSteward>>::obeys_try_from_spec(),
        value.action is Add ==> <AddRemove<Address> as TryFromSpec<PgfSteward>>::try_from_spec(
            value,
        ) == Ok::<AddRemove<Address>, ProposalTypeError>(AddRemove::Add(value.address)),
        value.action is Remove ==> <AddRemove<Address> as TryFromSpec<PgfSteward>>::try_from_spec(
            value,
        ) == Ok::<AddRemove<Address>, ProposalTypeError>(AddRemove::Remove(value.address)),
{
}

/// Two sets are equal exactly where every change is in both or in neither.
pub proof fn law_equal_sets_hold_the_same(a: StewardSet, b: StewardSet)
    ensures
        <StewardSet as PartialEqSpec>::obeys_eq_spec(),
        <StewardSet as PartialEqSpec>::eq_spec(&a, &b) <==> forall|change: AddRemove<Seq<char>>| #[trigger]
            a@.contains(change) == b@.contains(change),
{
    if forall|change: AddRemove<Seq<char>>| #[trigger] a@.contains(change) == b@.contains(change) {
        assert(a@ =~= b@);
    }
}

/// Those who leave are removed one by one, each by the printed form of their
/// address.
pub proof fn law_removals_keep_their_texts(addresses: Seq<Address>)
    ensures
        removal_texts(addresses).len() == addresses.len(),
        forall|i: int|
            0 <= i < addresses.len() ==> #[trigger] removal_texts(addresses)[i]
                == AddRemove::Remove(addresses[i].encoded@),
{
}

} // verus!

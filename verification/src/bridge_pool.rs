//! Extend Tendermint votes with signatures of the Ethereum bridge pool root
//! and nonce seen by a quorum of validators.

use vstd::prelude::*;

use itertools::Itertools;

use crate::types::{Address, BlockHeight};

verus! {

/// A piece of data, signed by its author.
#[derive(Debug, Clone, PartialEq, Eq)]
pub struct Signed<T> {
    /// What is signed.
    pub data: T,
    /// The signature of the data.
    pub sig: Vec<u8>,
}

/// A vote extension for the bridge pool root and nonce.
#[derive(Debug, Clone, PartialEq, Eq)]
pub struct Vext {
    /// The height of the block that the root was seen at.
    pub block_height: BlockHeight,
    /// The validator that vouches for the root.
    pub validator_addr: Address,
    /// The signature of the root and the nonce.
    pub sig: Vec<u8>,
}

/// Pairs every vote extension with what its validation came to.
pub open spec fn with_verdicts<E>(
    vexts: Seq<Signed<Vext>>,
    verdicts: Seq<Result<(), E>>,
) -> Seq<Result<Signed<Vext>, E>> {
    Seq::new(
        vexts.len(),
        |i: int|
            match verdicts[i] {
                Ok(()) => Ok(vexts[i]),
                Err(err) => Err(err),
            },
    )
}

/// The vote extensions that are valid, in their order.
pub open spec fn valid_ones<E>(results: Seq<Result<Signed<Vext>, E>>) -> Seq<Signed<Vext>>
    decreases results.len(),
{
    if results.len() == 0 {
        seq![]
    } else {
        let before = valid_ones(results.drop_last());
        match results.last() {
            Ok(vext) => before.push(vext),
            Err(_) => before,
        }
    }
}

/// One of the vote extensions is from the given validator.
pub open spec fn has_validator(vexts: Seq<Signed<Vext>>, validator: Seq<char>) -> bool {
    exists|i: int| 0 <= i < vexts.len() && #[trigger] vexts[i].data.validator_addr@ == validator
}

/// The first vote extension of every validator, in their order.
pub open spec fn first_of_each(vexts: Seq<Signed<Vext>>) -> Seq<Signed<Vext>>
    decreases vexts.len(),
{
    if vexts.len() == 0 {
        seq![]
    } else {
        let before = first_of_each(vexts.drop_last());
        if has_validator(vexts.drop_last(), vexts.last().data.validator_addr@) {
            before
        } else {
            before.push(vexts.last())
        }
    }
}

/// The printed address of the validator that a vote extension is from.
fn validator_text(vext: &Signed<Vext>) -> (res: String)
    ensures
        res@ == vext.data.validator_addr@,
{
    vext.data.validator_addr.to_string()
}

/// Calls `itertools::Itertools::unique_by` with the printed address of the
/// validator for a key. It keeps the items whose key no earlier item has, in
/// their order.
#[verifier::external_body]
fn unique_by_validator(vexts: Vec<Signed<Vext>>) -> (res: Vec<Signed<Vext>>)
    ensures
        res@ == first_of_each(vexts@),
{
    vexts.into_iter().unique_by(|vext| validator_text(vext)).collect()
}

/// Gives back every vote extension that is valid, and for every other one the
/// reason why it is not.
pub fn attach_verdicts<E>(
    vote_extensions: Vec<Signed<Vext>>,
    verdicts: Vec<Result<(), E>>,
) -> (res: Vec<Result<Signed<Vext>, E>>)
    requires
        vote_extensions@.len() == verdicts@.len(),
    ensures
        res@ == with_verdicts(vote_extensions@, verdicts@),
{
    let ghost vexts = vote_extensions@;
    let ghost all_verdicts = verdicts@;
    let mut pending: Vec<Result<(), E>> = Vec::new();
    for verdict in it: verdicts.into_iter().rev()
        invariant
            it.seq() == all_verdicts.reverse(),
            pending@ == all_verdicts.reverse().take(it.index() as int),
    {
        pending.push(verdict);
    }
    assert(pending@ =~= all_verdicts.skip(0).reverse());
    let mut res: Vec<Result<Signed<Vext>, E>> = Vec::new();
    for vext in it: vote_extensions.into_iter()
        invariant
            it.seq() == vexts,
            vexts.len() == all_verdicts.len(),
            pending@ == all_verdicts.skip(it.index() as int).reverse(),
            res@ == with_verdicts(vexts.take(it.index() as int), all_verdicts),
    {
        if let Some(verdict) = pending.pop() {
            res.push(
                match verdict {
                    Ok(()) => Ok(vext),
                    Err(err) => Err(err),
                },
            );
        }
        assert(pending@ =~= all_verdicts.skip(it.index() + 1).reverse());
    }
    assert(vexts.take(vexts.len() as int) =~= vexts);
    res
}

/// Keeps the first valid vote extension of every validator.
pub fn keep_valid<E>(results: Vec<Result<Signed<Vext>, E>>) -> (res: Vec<Signed<Vext>>)
    ensures
        res@ == first_of_each(valid_ones(results@)),
        one_per_validator(res@),
{
    proof {
        law_kept_is_unique_per_validator(valid_ones(results@));
    }
    let ghost all_results = results@;
    let mut valid: Vec<Signed<Vext>> = Vec::new();
    for result in it: results.into_iter()
        invariant
            it.seq() == all_results,
            valid@ == valid_ones(all_results.take(it.index() as int)),
    {
        assert(all_results.take(it.index() + 1).drop_last() =~= all_results.take(
            it.index() as int,
        ));
        if let Ok(vext) = result {
            valid.push(vext);
        }
    }
    assert(all_results.take(all_results.len() as int) =~= all_results);
    unique_by_validator(valid)
}

/// What the ledger knows when it looks at vote extensions.
#[derive(Debug, Clone, Copy, PartialEq, Eq)]
pub struct Shell {
    /// The height of the last block that was committed.
    pub last_block_height: BlockHeight,
}

impl Shell {
    /// `verdicts` are what `validate` can say of the vote extensions, each of
    /// them looked at once, at the last block height.
    pub open spec fn verdicts_of<E, V>(
        self,
        vexts: Seq<Signed<Vext>>,
        validate: V,
        verdicts: Seq<Result<(), E>>,
    ) -> bool where V: Fn(&Signed<Vext>, BlockHeight) -> Result<(), E> {
        &&& verdicts.len() == vexts.len()
        &&& forall|i: int|
            0 <= i < vexts.len() ==> call_ensures(
                validate,
                (&vexts[i], self.last_block_height),
                #[trigger] verdicts[i],
            )
    }

    /// Takes a list of bridge pool root vote extensions, and returns another
    /// list. The latter holds the vote extensions that are valid, or the
    /// reason why they are invalid.
    pub fn validate_bp_roots_vext_list<E, V>(
        &self,
        vote_extensions: Vec<Signed<Vext>>,
        validate: V,
    ) -> (res: Vec<Result<Signed<Vext>, E>>) where
        V: Fn(&Signed<Vext>, BlockHeight) -> Result<(), E>,

        requires
            forall|i: int|
                0 <= i < vote_extensions@.len() ==> call_requires(
                    validate,
                    (&#[trigger] vote_extensions@[i], self.last_block_height),
                ),
        ensures
            exists|verdicts: Seq<Result<(), E>>|
                #[trigger] self.verdicts_of(vote_extensions@, validate, verdicts) && res@
                    == with_verdicts(vote_extensions@, verdicts),
    {
        let mut verdicts: Vec<Result<(), E>> = Vec::new();
        for i in 0..vote_extensions.len()
            invariant
                forall|i: int|
                    0 <= i < vote_extensions@.len() ==> call_requires(
                        validate,
                        (&#[trigger] vote_extensions@[i], self.last_block_height),
                    ),
                self.verdicts_of(vote_extensions@.take(i as int), validate, verdicts@),
        {
            verdicts.push(validate(&vote_extensions[i], self.last_block_height));
        }
        assert(vote_extensions@.take(vote_extensions@.len() as int) =~= vote_extensions@);
        attach_verdicts(vote_extensions, verdicts)
    }

    /// Takes a list of signed bridge pool root vote extensions, and filters
    /// out invalid instances. This also de-duplicates the list to be unique
    /// per validator address.
    pub fn filter_invalid_bp_roots_vexts<E, V>(
        &self,
        vote_extensions: Vec<Signed<Vext>>,
        validate: V,
    ) -> (res: Vec<Signed<Vext>>) where
        V: Fn(&Signed<Vext>, BlockHeight) -> Result<(), E>,

        requires
            forall|i: int|
                0 <= i < vote_extensions@.len() ==> call_requires(
                    validate,
                    (&#[trigger] vote_extensions@[i], self.last_block_height),
                ),
        ensures
            exists|verdicts: Seq<Result<(), E>>|
                #[trigger] self.verdicts_of(vote_extensions@, validate, verdicts) && res@
                    == first_of_each(valid_ones(with_verdicts(vote_extensions@, verdicts))),
            one_per_validator(res@),
    {
        keep_valid(self.validate_bp_roots_vext_list(vote_extensions, validate))
    }
}

/// No two of the vote extensions are from one validator.
pub open spec fn one_per_validator(vexts: Seq<Signed<Vext>>) -> bool {
    forall|i: int, j: int|
        0 <= i < j < vexts.len() ==> (#[trigger] vexts[i]).data.validator_addr@ != (
        #[trigger] vexts[j]).data.validator_addr@
}

/// `vexts[i]` is the first vote extension of its validator.
pub open spec fn is_first(vexts: Seq<Signed<Vext>>, i: int) -> bool {
    &&& 0 <= i < vexts.len()
    &&& !has_validator(vexts.take(i), vexts[i].data.validator_addr@)
}

/// What is kept has the same validators as what was given.
pub proof fn law_every_validator_stays(vexts: Seq<Signed<Vext>>, validator: Seq<char>)
    ensures
        has_validator(first_of_each(vexts), validator) == has_validator(vexts, validator),
    decreases vexts.len(),
{
    if vexts.len() > 0 {
        let start = vexts.drop_last();
        let before = first_of_each(start);
        let last = vexts.last();
        law_every_validator_stays(start, validator);
        assert(has_validator(vexts, validator) == (has_validator(start, validator)
            || last.data.validator_addr@ == validator)) by {
            assert(vexts[vexts.len() - 1] == last);
            if has_validator(vexts, validator) {
                let i = choose|i: int|
                    0 <= i < vexts.len() && #[trigger] vexts[i].data.validator_addr@ == validator;
                if i < start.len() {
                    assert(start[i].data.validator_addr@ == validator);
                }
            }
            if has_validator(start, validator) {
                let i = choose|i: int|
                    0 <= i < start.len() && #[trigger] start[i].data.validator_addr@ == validator;
                assert(vexts[i].data.validator_addr@ == validator);
            }
        }
        if !has_validator(start, last.data.validator_addr@) {
            let kept = before.push(last);
            assert(kept[before.len() as int] == last);
            if has_validator(before, validator) {
                let i = choose|i: int|
                    0 <= i < before.len() && #[trigger] before[i].data.validator_addr@ == validator;
                assert(kept[i].data.validator_addr@ == validator);
            }
            if has_validator(kept, validator) {
                let i = choose|i: int|
                    0 <= i < kept.len() && #[trigger] kept[i].data.validator_addr@ == validator;
                if i < before.len() {
                    assert(before[i].data.validator_addr@ == validator);
                }
            }
        }
    }
}

/// What is kept is unique per validator address.
pub proof fn law_kept_is_unique_per_validator(vexts: Seq<Signed<Vext>>)
    ensures
        one_per_validator(first_of_each(vexts)),
    decreases vexts.len(),
{
    if vexts.len() > 0 {
        let start = vexts.drop_last();
        law_kept_is_unique_per_validator(start);
        law_every_validator_stays(start, vexts.last().data.validator_addr@);
    }
}

/// What is kept are the first vote extensions of their validators, and all of
/// them.
pub proof fn law_kept_are_the_first_ones(vexts: Seq<Signed<Vext>>, vext: Signed<Vext>)
    ensures
        first_of_each(vexts).contains(vext) <==> exists|i: int| #[trigger]
            is_first(vexts, i) && vexts[i] == vext,
    decreases vexts.len(),
{
    if vexts.len() > 0 {
        let start = vexts.drop_last();
        let before = first_of_each(start);
        let last = vexts.last();
        let n = vexts.len() - 1;
        law_kept_are_the_first_ones(start, vext);
        assert(vexts.take(n) =~= start);
        assert forall|i: int| 0 <= i < n implies #[trigger] is_first(vexts, i) == is_first(
            start,
            i,
        ) by {
            assert(vexts.take(i) =~= start.take(i));
        }
        if exists|i: int| #[trigger] is_first(start, i) && start[i] == vext {
            let i = choose|i: int| #[trigger] is_first(start, i) && start[i] == vext;
            assert(is_first(vexts, i) && vexts[i] == vext);
        }
        if exists|i: int| #[trigger] is_first(vexts, i) && vexts[i] == vext {
            let i = choose|i: int| #[trigger] is_first(vexts, i) && vexts[i] == vext;
            if i < n {
                assert(is_first(start, i) && start[i] == vext);
            }
        }
        if is_first(vexts, n) {
            vstd::seq_lib::lemma_seq_contains_after_push(before, last, vext);
        }
    }
}

/// `sub` holds the elements of `whole` at the positions `at`, which grow.
pub open spec fn picked(sub: Seq<Signed<Vext>>, whole: Seq<Signed<Vext>>, at: Seq<int>) -> bool {
    &&& at.len() == sub.len()
    &&& forall|k: int| 0 <= k < at.len() ==> 0 <= #[trigger] at[k] < whole.len()
    &&& forall|k: int| 0 <= k < at.len() ==> sub[k] == whole[#[trigger] at[k]]
    &&& forall|k: int, l: int| 0 <= k < l < at.len() ==> #[trigger] at[k] < #[trigger] at[l]
}

/// The valid vote extensions keep their order.
pub proof fn law_valid_ones_keep_their_order<E>(
    vexts: Seq<Signed<Vext>>,
    verdicts: Seq<Result<(), E>>,
) -> (at: Seq<int>)
    requires
        vexts.len() == verdicts.len(),
    ensures
        picked(valid_ones(with_verdicts(vexts, verdicts)), vexts, at),
    decreases vexts.len(),
{
    if vexts.len() == 0 {
        seq![]
    } else {
        let start = law_valid_ones_keep_their_order(vexts.drop_last(), verdicts.drop_last());
        assert(with_verdicts(vexts, verdicts).drop_last() =~= with_verdicts(
            vexts.drop_last(),
            verdicts.drop_last(),
        ));
        if verdicts.last() is Ok {
            start.push(vexts.len() - 1)
        } else {
            start
        }
    }
}

/// The vote extensions that are kept keep their order.
pub proof fn law_kept_ones_keep_their_order(vexts: Seq<Signed<Vext>>) -> (at: Seq<int>)
    ensures
        picked(first_of_each(vexts), vexts, at),
    decreases vexts.len(),
{
    if vexts.len() == 0 {
        seq![]
    } else {
        let start = law_kept_ones_keep_their_order(vexts.drop_last());
        if has_validator(vexts.drop_last(), vexts.last().data.validator_addr@) {
            start
        } else {
            start.push(vexts.len() - 1)
        }
    }
}

/// Where no validator occurs twice, everything is kept.
pub proof fn law_unique_list_is_kept(vexts: Seq<Signed<Vext>>)
    requires
        one_per_validator(vexts),
    ensures
        first_of_each(vexts) == vexts,
    decreases vexts.len(),
{
    if vexts.len() > 0 {
        let start = vexts.drop_last();
        law_unique_list_is_kept(start);
        assert(!has_validator(start, vexts.last().data.validator_addr@)) by {
            assert(vexts[vexts.len() - 1] == vexts.last());
            assert forall|i: int| 0 <= i < start.len() implies (#[trigger] start[i]).data.validator_addr@
                != vexts.last().data.validator_addr@ by {
                assert(start[i] == vexts[i]);
            }
        }
        assert(start.push(vexts.last()) =~= vexts);
    } else {
        assert(first_of_each(vexts) =~= vexts);
    }
}

/// Keeping the first ones a second time changes nothing.
pub proof fn law_keeping_twice_is_keeping_once(vexts: Seq<Signed<Vext>>)
    ensures
        first_of_each(first_of_each(vexts)) == first_of_each(vexts),
{
    law_kept_is_unique_per_validator(vexts);
    law_unique_list_is_kept(first_of_each(vexts));
}

/// A vote extension passes the filter of valid ones exactly where it was found
/// valid.
pub proof fn law_only_valid_ones_pass<E>(
    vexts: Seq<Signed<Vext>>,
    verdicts: Seq<Result<(), E>>,
    vext: Signed<Vext>,
)
    requires
        vexts.len() == verdicts.len(),
    ensures
        valid_ones(with_verdicts(vexts, verdicts)).contains(vext) <==> exists|i: int|
            0 <= i < vexts.len() && #[trigger] vexts[i] == vext && verdicts[i] is Ok,
    decreases vexts.len(),
{
    if vexts.len() > 0 {
        let n = vexts.len() - 1;
        let start = vexts.drop_last();
        let start_verdicts = verdicts.drop_last();
        let before = valid_ones(with_verdicts(start, start_verdicts));
        law_only_valid_ones_pass(start, start_verdicts, vext);
        assert(with_verdicts(vexts, verdicts).drop_last() =~= with_verdicts(start, start_verdicts));
        assert(vexts[n] == vexts.last());
        if exists|i: int|
            0 <= i < start.len() && #[trigger] start[i] == vext && start_verdicts[i] is Ok {
            let i = choose|i: int|
                0 <= i < start.len() && #[trigger] start[i] == vext && start_verdicts[i] is Ok;
            assert(vexts[i] == vext && verdicts[i] is Ok);
        }
        if exists|i: int| 0 <= i < vexts.len() && #[trigger] vexts[i] == vext && verdicts[i] is Ok {
            let i = choose|i: int|
                0 <= i < vexts.len() && #[trigger] vexts[i] == vext && verdicts[i] is Ok;
            if i < n {
                assert(start[i] == vext && start_verdicts[i] is Ok);
            }
        }
        if verdicts[n] is Ok {
            vstd::seq_lib::lemma_seq_contains_after_push(before, vexts[n], vext);
        }
    }
}

/// Every vote extension comes back at its place: itself where it was found
/// valid, and the reason where it was not.
pub proof fn law_verdicts_stay_at_their_places<E>(
    vexts: Seq<Signed<Vext>>,
    verdicts: Seq<Result<(), E>>,
    i: int,
)
    requires
        0 <= i < vexts.len(),
    ensures
        with_verdicts(vexts, verdicts).len() == vexts.len(),
        verdicts[i] is Ok ==> with_verdicts(vexts, verdicts)[i] == Ok::<Signed<Vext>, E>(vexts[i]),
        verdicts[i] is Err ==> with_verdicts(vexts, verdicts)[i] == Err::<Signed<Vext>, E>(
            verdicts[i]->Err_0,
        ),
{
}

/// The valid ones of one list and then another are those of the first and then
/// those of the second; of one result alone, they are the vote extension in it,
/// or nothing.
pub proof fn law_valid_ones_of_parts<E>(
    first: Seq<Result<Signed<Vext>, E>>,
    second: Seq<Result<Signed<Vext>, E>>,
    vext: Signed<Vext>,
    err: E,
)
    ensures
        valid_ones(first + second) == valid_ones(first) + valid_ones(second),
        valid_ones(seq![Ok::<Signed<Vext>, E>(vext)]) == seq![vext],
        valid_ones(seq![Err::<Signed<Vext>, E>(err)]).len() == 0,
        valid_ones(Seq::<Result<Signed<Vext>, E>>::empty()).len() == 0,
    decreases second.len(),
{
    let one = seq![Ok::<Signed<Vext>, E>(vext)];
    let none = seq![Err::<Signed<Vext>, E>(err)];
    assert(valid_ones(one.drop_last()) =~= Seq::<Signed<Vext>>::empty());
    assert(valid_ones(one) =~= seq![vext]);
    assert(valid_ones(none.drop_last()) =~= Seq::<Signed<Vext>>::empty());
    if second.len() == 0 {
        assert(first + second =~= first);
        assert(valid_ones(first) + valid_ones(second) =~= valid_ones(first));
    } else {
        law_valid_ones_of_parts(first, second.drop_last(), vext, err);
        assert((first + second).drop_last() =~= first + second.drop_last());
        assert(valid_ones(first + second) =~= valid_ones(first) + valid_ones(second));
    }
}

/// A validator is among those of some vote extensions where one of them bears
/// its address.
pub proof fn law_validators_of_vote_extensions(vexts: Seq<Signed<Vext>>, validator: Seq<char>)
    ensures
        has_validator(vexts, validator) <==> exists|i: int|
            0 <= i < vexts.len() && #[trigger] vexts[i].data.validator_addr.encoded@ == validator,
        one_per_validator(vexts) <==> forall|i: int, j: int|
            0 <= i < vexts.len() && 0 <= j < vexts.len() && i != j ==> (
            #[trigger] vexts[i]).data.validator_addr.encoded@ != (
            #[trigger] vexts[j]).data.validator_addr.encoded@,
{
    if has_validator(vexts, validator) {
        let i = choose|i: int|
            0 <= i < vexts.len() && #[trigger] vexts[i].data.validator_addr@ == validator;
        assert(vexts[i].data.validator_addr.encoded@ == validator);
    }
    if exists|i: int|
        0 <= i < vexts.len() && #[trigger] vexts[i].data.validator_addr.encoded@ == validator {
        let i = choose|i: int|
            0 <= i < vexts.len() && #[trigger] vexts[i].data.validator_addr.encoded@ == validator;
        assert(vexts[i].data.validator_addr@ == validator);
    }
}

/// What is kept are the vote extensions before which no other one is from the
/// same validator: those at exactly such places, in their order, and unchanged.
pub proof fn law_kept_places(vexts: Seq<Signed<Vext>>) -> (at: Seq<int>)
    ensures
        at.len() == first_of_each(vexts).len(),
        forall|k: int, l: int| 0 <= k < l < at.len() ==> #[trigger] at[k] < #[trigger] at[l],
        forall|k: int|
            0 <= k < at.len() ==> 0 <= #[trigger] at[k] < vexts.len() && first_of_each(vexts)[k]
                == vexts[at[k]],
        forall|i: int|
            0 <= i < vexts.len() ==> (#[trigger] at.contains(i) <==> forall|j: int|
                0 <= j < i ==> (#[trigger] vexts[j]).data.validator_addr.encoded@
                    != vexts[i].data.validator_addr.encoded@),
    decreases vexts.len(),
{
    if vexts.len() == 0 {
        seq![]
    } else {
        let start = vexts.drop_last();
        let n = vexts.len() - 1;
        let before = law_kept_places(start);
        let found = has_validator(start, vexts.last().data.validator_addr@);
        let at = if found {
            before
        } else {
            before.push(n)
        };
        assert(vexts[n] == vexts.last());
        assert forall|i: int| 0 <= i < vexts.len() implies (#[trigger] at.contains(i)
            <==> forall|j: int|
            0 <= j < i ==> (#[trigger] vexts[j]).data.validator_addr.encoded@
                != vexts[i].data.validator_addr.encoded@) by {
            if i < n {
                assert(before.contains(i) == at.contains(i)) by {
                    if !found {
                        vstd::seq_lib::lemma_seq_contains_after_push(before, n, i);
                    }
                }
                assert(forall|j: int| 0 <= j < i ==> start[j] == #[trigger] vexts[j]);
                assert(forall|j: int| 0 <= j < i ==> vexts[j] == #[trigger] start[j]);
                assert(start[i] == vexts[i]);
            } else {
                if found {
                    let j = choose|j: int|
                        0 <= j < start.len() && #[trigger] start[j].data.validator_addr@
                            == vexts.last().data.validator_addr@;
                    assert(vexts[j].data.validator_addr.encoded@
                        == vexts[n].data.validator_addr.encoded@);
                    if at.contains(n) {
                        let k = choose|k: int| 0 <= k < at.len() && at[k] == n;
                        assert(before[k] < start.len());
                    }
                } else {
                    assert(at[before.len() as int] == n);
                    assert forall|j: int| 0 <= j < n implies (
                    #[trigger] vexts[j]).data.validator_addr.encoded@
                        != vexts[n].data.validator_addr.encoded@ by {
                        assert(start[j].data.validator_addr@ != vexts.last().data.validator_addr@);
                    }
                }
            }
        }
        at
    }
}

/// What passes the whole filter are the valid vote extensions before which no
/// other valid one is from the same validator: those at exactly such places, in
/// their order, and unchanged. Invalid ones stand in nobody's way.
pub proof fn law_places_that_pass<E>(
    vexts: Seq<Signed<Vext>>,
    verdicts: Seq<Result<(), E>>,
) -> (at: Seq<int>)
    requires
        vexts.len() == verdicts.len(),
    ensures
        at.len() == first_of_each(valid_ones(with_verdicts(vexts, verdicts))).len(),
        forall|k: int, l: int| 0 <= k < l < at.len() ==> #[trigger] at[k] < #[trigger] at[l],
        forall|k: int|
            0 <= k < at.len() ==> 0 <= #[trigger] at[k] < vexts.len() && first_of_each(
                valid_ones(with_verdicts(vexts, verdicts)),
            )[k] == vexts[at[k]],
        forall|i: int|
            0 <= i < vexts.len() ==> (#[trigger] at.contains(i) <==> verdicts[i] is Ok && forall|
                j: int,
            |
                0 <= j < i && verdicts[j] is Ok ==> (
                #[trigger] vexts[j]).data.validator_addr.encoded@
                    != vexts[i].data.validator_addr.encoded@),
    decreases vexts.len(),
{
    if vexts.len() == 0 {
        seq![]
    } else {
        let start = vexts.drop_last();
        let start_verdicts = verdicts.drop_last();
        let n = vexts.len() - 1;
        let before = law_places_that_pass(start, start_verdicts);
        let valid = valid_ones(with_verdicts(start, start_verdicts));
        let validator = vexts[n].data.validator_addr@;
        assert(with_verdicts(vexts, verdicts).drop_last() =~= with_verdicts(start, start_verdicts));
        assert(has_validator(valid, validator) <==> exists|j: int|
            0 <= j < n && verdicts[j] is Ok && (#[trigger] vexts[j]).data.validator_addr@
                == validator) by {
            if has_validator(valid, validator) {
                let k = choose|k: int|
                    0 <= k < valid.len() && #[trigger] valid[k].data.validator_addr@ == validator;
                law_only_valid_ones_pass(start, start_verdicts, valid[k]);
                assert(valid.contains(valid[k]));
                let j = choose|j: int|
                    0 <= j < start.len() && #[trigger] start[j] == valid[k]
                        && start_verdicts[j] is Ok;
                assert(vexts[j].data.validator_addr@ == validator);
            }
            if exists|j: int|
                0 <= j < n && verdicts[j] is Ok && (#[trigger] vexts[j]).data.validator_addr@
                    == validator {
                let j = choose|j: int|
                    0 <= j < n && verdicts[j] is Ok && (#[trigger] vexts[j]).data.validator_addr@
                        == validator;
                law_only_valid_ones_pass(start, start_verdicts, vexts[j]);
                assert(start[j] == vexts[j] && start_verdicts[j] is Ok);
                let k = choose|k: int| 0 <= k < valid.len() && valid[k] == vexts[j];
                assert(valid[k].data.validator_addr@ == validator);
            }
        }
        let passes = verdicts[n] is Ok && !has_validator(valid, validator);
        let at = if passes {
            before.push(n)
        } else {
            before
        };
        if verdicts[n] is Ok {
            assert(valid.push(vexts[n]).drop_last() =~= valid);
        }
        assert forall|i: int| 0 <= i < vexts.len() implies (#[trigger] at.contains(i)
            <==> verdicts[i] is Ok && forall|j: int|
            0 <= j < i && verdicts[j] is Ok ==> (#[trigger] vexts[j]).data.validator_addr.encoded@
                != vexts[i].data.validator_addr.encoded@) by {
            if i < n {
                assert(before.contains(i) == at.contains(i)) by {
                    if passes {
                        vstd::seq_lib::lemma_seq_contains_after_push(before, n, i);
                    }
                }
                assert(forall|j: int| 0 <= j < i ==> start[j] == #[trigger] vexts[j]);
                assert(forall|j: int| 0 <= j < i ==> vexts[j] == #[trigger] start[j]);
                assert(start[i] == vexts[i]);
                assert(start_verdicts[i] == verdicts[i]);
            } else {
                if passes {
                    assert(at[before.len() as int] == n);
                } else if at.contains(n) {
                    let k = choose|k: int| 0 <= k < at.len() && at[k] == n;
                    assert(before[k] < start.len());
                }
            }
        }
        at
    }
}

/// Verdicts are one for each vote extension, and each is what looking at that
/// vote extension at the last block height can come to.
pub proof fn law_verdicts_are_about_the_last_block<E, V>(
    shell: Shell,
    vexts: Seq<Signed<Vext>>,
    validate: V,
    verdicts: Seq<Result<(), E>>,
) where V: Fn(&Signed<Vext>, BlockHeight) -> Result<(), E>
    ensures
        shell.verdicts_of(vexts, validate, verdicts) <==> {
            &&& verdicts.len() == vexts.len()
            &&& forall|i: int|
                0 <= i < vexts.len() ==> call_ensures(
                    validate,
                    (&vexts[i], shell.last_block_height),
                    #[trigger] verdicts[i],
                )
        },
{
}

/// A vote extension is the first of its validator where none before it bears the
/// same address.
pub proof fn law_first_means_none_before(vexts: Seq<Signed<Vext>>, i: int)
    requires
        0 <= i < vexts.len(),
    ensures
        is_first(vexts, i) <==> forall|j: int|
            0 <= j < i ==> (#[trigger] vexts[j]).data.validator_addr.encoded@
                != vexts[i].data.validator_addr.encoded@,
{
    let taken = vexts.take(i);
    let validator = vexts[i].data.validator_addr@;
    if has_validator(taken, validator) {
        let j = choose|j: int|
            0 <= j < taken.len() && #[trigger] taken[j].data.validator_addr@ == validator;
        assert(vexts[j].data.validator_addr.encoded@ == validator);
    } else {
        assert forall|j: int| 0 <= j < i implies (#[trigger] vexts[j]).data.validator_addr.encoded@
            != vexts[i].data.validator_addr.encoded@ by {
            assert(taken[j].data.validator_addr@ != validator);
        }
    }
}

} // verus!

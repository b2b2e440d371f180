//! What holds of the registry whatever is done with it.

use crate::bounded::{swap_removed, LIMIT_BOUNDED};
use crate::gender::{gender_of, Gender};
use crate::list::{first_place, lemma_has_first, lemma_pushed, lemma_swap_removed};
use crate::model::{Call, Error, Origin, Registry};
use crate::ownership::AccountId;
use vstd::prelude::*;

verus! {

/// The registry in which nothing was made yet is well formed.
pub proof fn lemma_empty_wf()
    ensures
        Registry::empty().wf(),
{
}

/// Making a kitty keeps the registry well formed.
pub proof fn lemma_created_wf(state: Registry, who: AccountId, dna: Seq<u8>, price: u32, now: u64)
    requires
        state.wf(),
        state.create_refusal(Origin::Signed(who), dna, price) is None,
    ensures
        state.created(who, dna, price, now).wf(),
{
    let after = state.created(who, dna, price, now);
    lemma_pushed(state.list_of(who), dna);
    assert(after.owned.dom() =~= Set::<AccountId>::full());
    assert forall|owner: AccountId, id: Seq<u8>| #[trigger]
        after.holds(owner, id) <==> state.holds(owner, id) || (owner == who && id == dna) by {}
    assert forall|id: Seq<u8>| #[trigger]
        after.contains(id) <==> state.contains(id) || id == dna by {}
    assert forall|owner: AccountId| #[trigger] after.list_of(owner).len() <= LIMIT_BOUNDED by {
        assert(state.list_of(owner).len() <= LIMIT_BOUNDED);
    }
    assert forall|owner: AccountId| #[trigger] after.list_of(owner).no_duplicates() by {
        assert(state.list_of(owner).no_duplicates());
        assert(!state.holds(who, dna));
    }
    assert forall|id: Seq<u8>| #[trigger] after.contains(id) implies exists|owner: AccountId|
        after.holds(owner, id) by {
        let owner = if id == dna {
            who
        } else {
            choose|owner: AccountId| state.holds(owner, id)
        };
        assert(after.holds(owner, id));
    }
}

/// Handing a kitty over keeps the registry well formed.
pub proof fn lemma_transferred_wf(state: Registry, who: AccountId, dna: Seq<u8>, to: AccountId)
    requires
        state.wf(),
        state.transfer_refusal(Origin::Signed(who), dna, to) is None,
    ensures
        state.transferred(who, dna, to).wf(),
{
    let after = state.transferred(who, dna, to);
    let source = state.list_of(who);
    let place = first_place(source, dna);
    lemma_has_first(source, dna, source.index_of(dna));
    assert(source.no_duplicates());
    lemma_swap_removed(source, place);
    lemma_pushed(state.list_of(to), dna);
    assert(after.owned.dom() =~= Set::<AccountId>::full());
    assert forall|owner: AccountId, id: Seq<u8>| #[trigger]
        after.holds(owner, id) <==> if id == dna {
            owner == to
        } else {
            state.holds(owner, id)
        } by {
        if owner == who {
            assert(after.list_of(who) == swap_removed(source, place));
        } else if owner != to {
            assert(state.holds(who, dna) && !state.holds(owner, dna));
        }
    }
    assert forall|id: Seq<u8>| #[trigger] after.contains(id) <==> state.contains(id) by {}
    assert forall|owner: AccountId| #[trigger] after.list_of(owner).len() <= LIMIT_BOUNDED by {
        assert(state.list_of(owner).len() <= LIMIT_BOUNDED);
    }
    assert forall|owner: AccountId| #[trigger] after.list_of(owner).no_duplicates() by {
        assert(state.list_of(owner).no_duplicates());
        assert(!state.holds(to, dna));
    }
    assert forall|id: Seq<u8>| #[trigger] after.contains(id) implies exists|owner: AccountId|
        after.holds(owner, id) by {
        let owner = if id == dna {
            to
        } else {
            choose|owner: AccountId| state.holds(owner, id)
        };
        assert(after.holds(owner, id));
    }
}

/// Whatever is asked of a well-formed registry, it is well formed after.
pub proof fn lemma_after_wf(state: Registry, call: Call)
    requires
        state.wf(),
    ensures
        state.after(call).wf(),
{
    if state.refusal(call) is None {
        match call {
            Call::Create { origin, dna, price, now } => {
                lemma_created_wf(state, origin->Signed_0, dna, price, now);
            },
            Call::Transfer { origin, dna, to } => {
                lemma_transferred_wf(state, origin->Signed_0, dna, to);
            },
        }
    }
}

/// After any sequence of requests to a registry that began empty, the
/// registry is well formed: records are sound, the counter is the number of
/// kitties, nobody holds more than the bound, and every kitty has exactly one
/// holder.
pub proof fn law_always_wf(calls: Seq<Call>)
    ensures
        Registry::empty().after_all(calls).wf(),
    decreases calls.len(),
{
    if calls.len() == 0 {
        lemma_empty_wf();
    } else {
        law_always_wf(calls.drop_last());
        lemma_after_wf(Registry::empty().after_all(calls.drop_last()), calls.last());
    }
}

/// A kitty that exists goes on existing, with the record it was made with,
/// whatever is asked of the registry afterwards.
pub proof fn law_kitties_stay(state: Registry, calls: Seq<Call>, dna: Seq<u8>)
    requires
        state.contains(dna),
    ensures
        state.after_all(calls).contains(dna),
        state.after_all(calls).kitties[dna] == state.kitties[dna],
    decreases calls.len(),
{
    if calls.len() > 0 {
        law_kitties_stay(state, calls.drop_last(), dna);
    }
}

/// No identity has two records: there are as many identities with a record
/// as kitties were ever made.
pub proof fn law_one_record_each(state: Registry)
    requires
        state.wf(),
    ensures
        state.kitties.dom().finite(),
        state.kitties.dom().len() == state.quantity,
        forall|dna: Seq<u8>| #[trigger] state.contains(dna) ==> state.kitties[dna].dna == dna,
{
}

/// Once a kitty was made, every later signed request to make one with the
/// same identity at a price above zero is refused with `AlreadyExisted`,
/// whoever asks and whatever was asked in between.
pub proof fn law_second_create_refused(
    state: Registry,
    first: AccountId,
    dna: Seq<u8>,
    price: u32,
    now: u64,
    between: Seq<Call>,
    second: AccountId,
    second_price: u32,
)
    requires
        state.create_refusal(Origin::Signed(first), dna, price) is None,
        second_price > 0,
    ensures
        state.created(first, dna, price, now).after_all(between).create_refusal(
            Origin::Signed(second),
            dna,
            second_price,
        ) == Some(Error::AlreadyExisted),
{
    law_kitties_stay(state.created(first, dna, price, now), between, dna);
}

/// A kitty that exists is held by one account and no other, and stands in
/// that account's list once.
pub proof fn law_one_holder(state: Registry, dna: Seq<u8>) -> (holder: AccountId)
    requires
        state.wf(),
        state.contains(dna),
    ensures
        state.holds(holder, dna),
        forall|other: AccountId| #[trigger] state.holds(other, dna) ==> other == holder,
        state.list_of(holder).no_duplicates(),
{
    choose|owner: AccountId| state.holds(owner, dna)
}

/// Nothing is held that does not exist.
pub proof fn law_held_exists(state: Registry, owner: AccountId, dna: Seq<u8>)
    requires
        state.wf(),
        state.holds(owner, dna),
    ensures
        state.contains(dna),
{
}

/// Nobody ever holds more than the bound.
pub proof fn law_capacity(state: Registry, owner: AccountId)
    requires
        state.wf(),
    ensures
        state.list_of(owner).len() <= LIMIT_BOUNDED,
{
}

/// A request to make a kitty for an account whose list is full is refused,
/// and a request to hand one to such an account as well.
pub proof fn law_full_list_refuses(state: Registry, call: Call)
    requires
        match call {
            Call::Create { origin, dna, price, now } => origin matches Origin::Signed(who)
                && state.list_of(who).len() == LIMIT_BOUNDED,
            Call::Transfer { origin, dna, to } => state.list_of(to).len() == LIMIT_BOUNDED,
        },
    ensures
        state.refusal(call) is Some,
        state.after(call) == state,
{
}

/// A request that is refused changes nothing: not the records, not the
/// counter, not any account's list.
pub proof fn law_refused_changes_nothing(state: Registry, call: Call)
    requires
        state.refusal(call) is Some,
    ensures
        state.after(call) == state,
{
}

/// A transfer that is refused because the receiver's list is full leaves
/// the caller's list as it was.
pub proof fn law_transfer_atomic(state: Registry, who: AccountId, dna: Seq<u8>, to: AccountId)
    requires
        state.transfer_refusal(Origin::Signed(who), dna, to) == Some(Error::OutOfBound),
    ensures
        state.after((Call::Transfer { origin: Origin::Signed(who), dna, to })).list_of(who)
            == state.list_of(who),
        state.after((Call::Transfer { origin: Origin::Signed(who), dna, to })) == state,
{
}

/// Handing a kitty to oneself is refused with `OwnerAlready`, whether the
/// kitty exists or not and whoever holds it.
pub proof fn law_self_transfer_refused(state: Registry, who: AccountId, dna: Seq<u8>)
    ensures
        state.transfer_refusal(Origin::Signed(who), dna, who) == Some(Error::OwnerAlready),
        state.after((Call::Transfer { origin: Origin::Signed(who), dna, to: who })) == state,
{
}

/// The gender of a kitty depends on nothing but the length of its identity:
/// `Male` where the length is even, `Female` where it is odd. Two identities
/// of the same bytes have the same gender.
pub proof fn law_gender(dna: Seq<u8>, again: Seq<u8>)
    ensures
        dna.len() % 2 == 0 ==> gender_of(dna) == Gender::Male,
        dna.len() % 2 == 1 ==> gender_of(dna) == Gender::Female,
        dna == again ==> gender_of(dna) == gender_of(again),
        dna.len() == again.len() ==> gender_of(dna) == gender_of(again),
{
}

} // verus!

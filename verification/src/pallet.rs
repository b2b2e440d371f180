//! The registry itself: it makes kitties and hands them from one account to
//! another, and either does all of what was asked or changes nothing.

use crate::gender::kitty_gender;
use crate::kitty::{Kitty, KittyDetail};
use crate::laws::{lemma_created_wf, lemma_empty_wf, lemma_transferred_wf};
use crate::list::{views_of, IndexError};
use crate::model::{signer, Call, Error, EventView, Origin, Registry};
use crate::ownership::{AccountId, OwnerDetail};
use vstd::pervasive::unreached;
use vstd::prelude::*;

verus! {

/// What an operation lets the outside know once it is done.
#[derive(Clone, Debug, PartialEq, Eq)]
pub enum Event {
    /// A kitty was made: its identity, who made it, and when.
    CreatedKitty(Vec<u8>, AccountId, u64),
    /// A kitty was handed over: from whom, to whom, and its identity.
    TransferKitty(AccountId, AccountId, Vec<u8>),
}

impl View for Event {
    type V = EventView;

    open spec fn view(&self) -> EventView {
        match self {
            Event::CreatedKitty(dna, who, now) => EventView::CreatedKitty(dna@, *who, *now),
            Event::TransferKitty(from, to, dna) => EventView::TransferKitty(*from, *to, dna@),
        }
    }
}

/// The account that signed the request, or `Unauthorized` where none did.
pub fn ensure_signed(origin: Origin) -> (who: Result<AccountId, Error>)
    ensures
        who == match signer(origin) {
            Some(account) => Ok::<AccountId, Error>(account),
            None => Err::<AccountId, Error>(Error::Unauthorized),
        },
{
    match origin {
        Origin::Signed(account) => Ok(account),
        _ => Err(Error::Unauthorized),
    }
}

/// What the first two checks say of a request to make a kitty.
pub open spec fn create_checked(price: u32, known: bool) -> Result<(), Error> {
    if price == 0 {
        Err(Error::PriceTooLow)
    } else if known {
        Err(Error::AlreadyExisted)
    } else {
        Ok(())
    }
}

/// Whether a kitty may be made at `price`, where `known` tells whether one
/// with its identity exists: the price is looked at first.
pub fn check_create(price: u32, known: bool) -> (checked: Result<(), Error>)
    ensures
        checked == create_checked(price, known),
{
    if price == 0 {
        Err(Error::PriceTooLow)
    } else if known {
        Err(Error::AlreadyExisted)
    } else {
        Ok(())
    }
}

/// What the first two checks say of a request to hand a kitty over.
pub open spec fn transfer_checked(to_caller: bool, known: bool) -> Result<(), Error> {
    if to_caller {
        Err(Error::OwnerAlready)
    } else if !known {
        Err(Error::NoneExisted)
    } else {
        Ok(())
    }
}

/// Whether a kitty may be handed over, where `to_caller` tells whether the
/// receiver is the caller and `known` whether the kitty exists: the receiver
/// is looked at first.
pub fn check_transfer(to_caller: bool, known: bool) -> (checked: Result<(), Error>)
    ensures
        checked == transfer_checked(to_caller, known),
{
    if to_caller {
        Err(Error::OwnerAlready)
    } else if !known {
        Err(Error::NoneExisted)
    } else {
        Ok(())
    }
}

/// What the registry answers when a list refuses a change: a full list is
/// `OutOfBound`, a kitty that the list does not hold is `NotOwner`.
pub fn list_refusal(error: IndexError) -> (refusal: Error)
    ensures
        error == IndexError::CapacityExceeded ==> refusal == Error::OutOfBound,
        error == IndexError::NotFound ==> refusal == Error::NotOwner,
{
    match error {
        IndexError::CapacityExceeded => Error::OutOfBound,
        IndexError::NotFound => Error::NotOwner,
    }
}

/// The registry: the records of the kitties and the lists of their owners.
pub struct Pallet {
    kitties: KittyDetail,
    owners: OwnerDetail,
}

impl View for Pallet {
    type V = Registry;

    closed spec fn view(&self) -> Registry {
        Registry {
            quantity: self.kitties.count(),
            kitties: self.kitties@,
            owned: Map::total(|owner: AccountId| self.owners.list_of(owner)),
        }
    }
}

impl Pallet {
    /// The records and the lists are sound each by itself, and together they
    /// make a well-formed registry.
    pub closed spec fn wf(&self) -> bool {
        &&& self.kitties.wf()
        &&& self.owners.wf()
        &&& self@.wf()
    }

    /// A registry that is sound stands for a well-formed state.
    pub proof fn lemma_view_wf(&self)
        requires
            self.wf(),
        ensures
            self@.wf(),
    {
    }

    /// A registry in which nothing was made yet.
    pub fn new() -> (pallet: Self)
        ensures
            pallet.wf(),
            pallet@ == Registry::empty(),
    {
        let pallet = Pallet { kitties: KittyDetail::new(), owners: OwnerDetail::new() };
        proof {
            lemma_empty_wf();
            assert(pallet@.owned =~= Registry::empty().owned);
        }
        pallet
    }

    /// How many kitties were ever made.
    pub fn quantity(&self) -> (quantity: u64)
        ensures
            quantity == self@.quantity,
    {
        self.kitties.quantity()
    }

    /// The record of the kitty `dna`, if it exists.
    pub fn kitty_detail(&self, dna: &Vec<u8>) -> (record: Option<&Kitty>)
        requires
            self.wf(),
        ensures
            match record {
                Some(kitty) => self@.contains(dna@) && kitty@ == self@.kitties[dna@],
                None => !self@.contains(dna@),
            },
    {
        self.kitties.get(dna)
    }

    /// What `owner` holds: empty for an account that never held anything.
    pub fn ownership(&self, owner: AccountId) -> (items: Vec<Vec<u8>>)
        requires
            self.wf(),
        ensures
            views_of(items@) == self@.list_of(owner),
    {
        self.owners.get(owner)
    }

    /// Makes the kitty `dna` for the account that signed, at `price`, with
    /// `now` as the time of its making.
    ///
    /// The caller's list is tried before the record is put in, so that
    /// nothing has changed when the list turns out to be full.
    pub fn create_kitty(
        &mut self,
        origin: Origin,
        dna: Vec<u8>,
        price: u32,
        now: u64,
    ) -> (done: Result<Event, Error>)
        requires
            old(self).wf(),
        ensures
            final(self).wf(),
            final(self)@ == old(self)@.after((Call::Create { origin, dna: dna@, price, now })),
            match done {
                Ok(event) => {
                    &&& old(self)@.create_refusal(origin, dna@, price) is None
                    &&& signer(origin) matches Some(who)
                    &&& final(self)@ == old(self)@.created(who, dna@, price, now)
                    &&& event@ == EventView::CreatedKitty(dna@, who, now)
                },
                Err(error) => {
                    &&& old(self)@.create_refusal(origin, dna@, price) == Some(error)
                    &&& final(self)@ == old(self)@
                },
            },
    {
        let who = match ensure_signed(origin) {
            Ok(who) => who,
            Err(error) => {
                return Err(error);
            },
        };
        match check_create(price, self.kitties.contains_key(&dna)) {
            Ok(()) => {},
            Err(error) => {
                return Err(error);
            },
        }
        let gender = kitty_gender(&dna);
        let record_dna = dna.clone();
        let list_dna = dna.clone();
        let kitty = Kitty { dna: record_dna, price, gender, owner: who, created_date: now };
        match self.owners.append(who, list_dna) {
            Ok(()) => {},
            Err(error) => {
                assert(self@.owned =~= old(self)@.owned);
                return Err(list_refusal(error));
            },
        }
        self.kitties.insert(kitty);
        proof {
            let after = old(self)@.created(who, dna@, price, now);
            assert(self@.owned =~= after.owned);
            lemma_created_wf(old(self)@, who, dna@, price, now);
        }
        Ok(Event::CreatedKitty(dna, who, now))
    }

    /// Hands the kitty `dna` from the account that signed to `to`.
    ///
    /// The receiver's list is tried before the kitty leaves the caller's, so
    /// that nothing has changed when the receiver's list turns out to be
    /// full.
    pub fn transfer_kitty(
        &mut self,
        origin: Origin,
        dna: Vec<u8>,
        to: AccountId,
    ) -> (done: Result<Event, Error>)
        requires
            old(self).wf(),
        ensures
            final(self).wf(),
            final(self)@ == old(self)@.after((Call::Transfer { origin, dna: dna@, to })),
            match done {
                Ok(event) => {
                    &&& old(self)@.transfer_refusal(origin, dna@, to) is None
                    &&& signer(origin) matches Some(who)
                    &&& final(self)@ == old(self)@.transferred(who, dna@, to)
                    &&& event@ == EventView::TransferKitty(who, to, dna@)
                },
                Err(error) => {
                    &&& old(self)@.transfer_refusal(origin, dna@, to) == Some(error)
                    &&& final(self)@ == old(self)@
                },
            },
    {
        let who = match ensure_signed(origin) {
            Ok(who) => who,
            Err(error) => {
                return Err(error);
            },
        };
        match check_transfer(to == who, self.kitties.contains_key(&dna)) {
            Ok(()) => {},
            Err(error) => {
                return Err(error);
            },
        }
        if !self.owners.holds(who, &dna) {
            return Err(list_refusal(IndexError::NotFound));
        }
        let list_dna = dna.clone();
        match self.owners.append(to, list_dna) {
            Ok(()) => {},
            Err(error) => {
                assert(self@.owned =~= old(self)@.owned);
                return Err(list_refusal(error));
            },
        }
        // The caller holds the kitty and is not the receiver: the removal
        // cannot fail.
        match self.owners.remove_by_value(who, &dna) {
            Ok(()) => {},
            Err(_) => unreached(),
        }
        proof {
            let after = old(self)@.transferred(who, dna@, to);
            assert(self@.owned =~= after.owned);
            lemma_transferred_wf(old(self)@, who, dna@, to);
        }
        Ok(Event::TransferKitty(who, to, dna))
    }
}

} // verus!

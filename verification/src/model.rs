//! The registry as a mathematical state: which kitties exist, how many were
//! made, and what each owner holds; and the two operations on it.

use crate::bounded::LIMIT_BOUNDED;
use crate::gender::{gender_of, Gender};
use crate::list::without_first;
use crate::ownership::AccountId;
use vstd::prelude::*;

verus! {

/// Who asks for an operation.
#[derive(Clone, Copy, Debug, PartialEq, Eq, Structural)]
pub enum Origin {
    /// The system itself.
    Root,
    /// The account that signed the request.
    Signed(AccountId),
    /// Nobody signed the request.
    Unsigned,
    /// Nobody signed the request; the runtime let it through.
    Authorized,
}

/// Why an operation was refused.
#[derive(Clone, Copy, Debug, PartialEq, Eq, Structural)]
pub enum Error {
    /// The request was not signed by an account.
    Unauthorized,
    /// The price of a new kitty must be above zero.
    PriceTooLow,
    /// A kitty with this identity already exists.
    AlreadyExisted,
    /// No kitty with this identity exists.
    NoneExisted,
    /// The caller does not hold the kitty.
    NotOwner,
    /// The receiver cannot take the kitty.
    WrongReceiver,
    /// The receiver is the caller.
    OwnerAlready,
    /// The list that would take the kitty is full.
    OutOfBound,
    /// A place past the end of a list was asked for.
    IndexOutOfBounds,
}

/// What a kitty's record says.
pub ghost struct KittyView {
    /// The identity, which no other kitty has.
    pub dna: Seq<u8>,
    /// What the kitty was made for.
    pub price: u32,
    /// The gender that the identity determines.
    pub gender: Gender,
    /// The account that made the kitty.
    pub owner: AccountId,
    /// When the kitty was made, in seconds since the epoch.
    pub created_date: u64,
}

/// What an operation lets the outside know.
pub ghost enum EventView {
    /// A kitty was made: its identity, who made it, and when.
    CreatedKitty(Seq<u8>, AccountId, u64),
    /// A kitty was handed over: from whom, to whom, and its identity.
    TransferKitty(AccountId, AccountId, Seq<u8>),
}

/// One request to the registry.
pub ghost enum Call {
    /// Make the kitty `dna` at `price`; `now` is the time of the request.
    Create { origin: Origin, dna: Seq<u8>, price: u32, now: u64 },
    /// Hand the kitty `dna` to `to`.
    Transfer { origin: Origin, dna: Seq<u8>, to: AccountId },
}

impl Call {
    /// Who asks.
    pub open spec fn origin(self) -> Origin {
        match self {
            Call::Create { origin, dna, price, now } => origin,
            Call::Transfer { origin, dna, to } => origin,
        }
    }
}

/// The account that signed, if one did.
pub open spec fn signer(origin: Origin) -> Option<AccountId> {
    match origin {
        Origin::Signed(who) => Some(who),
        _ => None,
    }
}

/// The state of the registry.
pub ghost struct Registry {
    /// How many kitties were ever made.
    pub quantity: nat,
    /// The record of each kitty, by its identity.
    pub kitties: Map<Seq<u8>, KittyView>,
    /// What each account holds. Every account has a list, maybe an empty one.
    pub owned: Map<AccountId, Seq<Seq<u8>>>,
}

impl Registry {
    /// The registry in which nothing was made yet.
    pub open spec fn empty() -> Registry {
        Registry {
            quantity: 0,
            kitties: Map::empty(),
            owned: Map::total(|owner: AccountId| Seq::<Seq<u8>>::empty()),
        }
    }

    /// Whether a kitty with this identity exists.
    pub open spec fn contains(self, dna: Seq<u8>) -> bool {
        self.kitties.contains_key(dna)
    }

    /// What `owner` holds.
    pub open spec fn list_of(self, owner: AccountId) -> Seq<Seq<u8>> {
        self.owned[owner]
    }

    /// Whether `owner` holds the kitty `dna`.
    pub open spec fn holds(self, owner: AccountId, dna: Seq<u8>) -> bool {
        self.list_of(owner).contains(dna)
    }

    /// Every record is kept under its own identity, with the gender that the
    /// identity determines and a price above zero.
    pub open spec fn records_sound(self) -> bool {
        forall|dna: Seq<u8>| #[trigger]
            self.contains(dna) ==> {
                &&& self.kitties[dna].dna == dna
                &&& self.kitties[dna].gender == gender_of(dna)
                &&& self.kitties[dna].price > 0
            }
    }

    /// The counter is the number of kitties that exist.
    pub open spec fn counted(self) -> bool {
        &&& self.kitties.dom().finite()
        &&& self.kitties.dom().len() == self.quantity
    }

    /// Nobody holds more than the bound.
    pub open spec fn bounded(self) -> bool {
        forall|owner: AccountId| #[trigger] self.list_of(owner).len() <= LIMIT_BOUNDED
    }

    /// Every kitty that exists is held by exactly one account, once; and
    /// nothing is held that does not exist.
    pub open spec fn conserved(self) -> bool {
        &&& forall|owner: AccountId| #[trigger] self.list_of(owner).no_duplicates()
        &&& forall|owner: AccountId, dna: Seq<u8>| #[trigger]
            self.holds(owner, dna) ==> self.contains(dna)
        &&& forall|dna: Seq<u8>| #[trigger]
            self.contains(dna) ==> exists|owner: AccountId| self.holds(owner, dna)
        &&& forall|first: AccountId, second: AccountId, dna: Seq<u8>|
            #[trigger] self.holds(first, dna) && #[trigger] self.holds(second, dna) ==> first
                == second
    }

    /// What holds of the registry at all times.
    pub open spec fn wf(self) -> bool {
        &&& self.owned.dom() == Set::<AccountId>::full()
        &&& self.records_sound()
        &&& self.counted()
        &&& self.bounded()
        &&& self.conserved()
    }

    /// Why a request to make the kitty `dna` at `price` is refused, or `None`
    /// where it is granted. The first reason that applies is given: an
    /// unsigned request, a price of zero, an identity that exists, a caller
    /// whose list is full.
    pub open spec fn create_refusal(
        self,
        origin: Origin,
        dna: Seq<u8>,
        price: u32,
    ) -> Option<Error> {
        match signer(origin) {
            None => Some(Error::Unauthorized),
            Some(who) => if price == 0 {
                Some(Error::PriceTooLow)
            } else if self.contains(dna) {
                Some(Error::AlreadyExisted)
            } else if self.list_of(who).len() >= LIMIT_BOUNDED {
                Some(Error::OutOfBound)
            } else {
                None
            },
        }
    }

    /// The record of a kitty that `who` made at the time `now`.
    pub open spec fn new_kitty(who: AccountId, dna: Seq<u8>, price: u32, now: u64) -> KittyView {
        KittyView { dna, price, gender: gender_of(dna), owner: who, created_date: now }
    }

    /// The registry after `who` made the kitty `dna`: the record is there,
    /// the counter is one higher, and the identity stands at the end of
    /// `who`'s list.
    pub open spec fn created(self, who: AccountId, dna: Seq<u8>, price: u32, now: u64) -> Registry {
        Registry {
            quantity: self.quantity + 1,
            kitties: self.kitties.insert(dna, Self::new_kitty(who, dna, price, now)),
            owned: self.owned.insert(who, self.list_of(who).push(dna)),
        }
    }

    /// Why a request to hand the kitty `dna` to `to` is refused, or `None`
    /// where it is granted. The first reason that applies is given: an
    /// unsigned request, a receiver who is the caller, an identity that does
    /// not exist, a caller who does not hold the kitty, a receiver whose list
    /// is full.
    pub open spec fn transfer_refusal(
        self,
        origin: Origin,
        dna: Seq<u8>,
        to: AccountId,
    ) -> Option<Error> {
        match signer(origin) {
            None => Some(Error::Unauthorized),
            Some(who) => if to == who {
                Some(Error::OwnerAlready)
            } else if !self.contains(dna) {
                Some(Error::NoneExisted)
            } else if !self.holds(who, dna) {
                Some(Error::NotOwner)
            } else if self.list_of(to).len() >= LIMIT_BOUNDED {
                Some(Error::OutOfBound)
            } else {
                None
            },
        }
    }

    /// The registry after `who` handed the kitty `dna` to `to`: the identity
    /// left `who`'s list, whose last identity took its place, and stands at
    /// the end of `to`'s list. Records and counter are as before.
    pub open spec fn transferred(self, who: AccountId, dna: Seq<u8>, to: AccountId) -> Registry {
        Registry {
            quantity: self.quantity,
            kitties: self.kitties,
            owned: self.owned.insert(who, without_first(self.list_of(who), dna)).insert(
                to,
                self.list_of(to).push(dna),
            ),
        }
    }

    /// Why `call` is refused, or `None` where it is granted.
    pub open spec fn refusal(self, call: Call) -> Option<Error> {
        match call {
            Call::Create { origin, dna, price, now } => self.create_refusal(origin, dna, price),
            Call::Transfer { origin, dna, to } => self.transfer_refusal(origin, dna, to),
        }
    }

    /// The registry after `call`: changed as the call asks where it is
    /// granted, and as it was where it is refused.
    pub open spec fn after(self, call: Call) -> Registry {
        if self.refusal(call) is Some {
            self
        } else {
            let who = signer(call.origin()).unwrap();
            match call {
                Call::Create { origin, dna, price, now } => self.created(who, dna, price, now),
                Call::Transfer { origin, dna, to } => self.transferred(who, dna, to),
            }
        }
    }

    /// The registry after all of `calls`, the first one first.
    pub open spec fn after_all(self, calls: Seq<Call>) -> Registry
        decreases calls.len(),
    {
        if calls.len() == 0 {
            self
        } else {
            self.after_all(calls.drop_last()).after(calls.last())
        }
    }
}

} // verus!

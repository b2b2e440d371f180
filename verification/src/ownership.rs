//! Who holds which kitties: for each owner a bounded list of identities.

use crate::bounded::{held, new_list, ListKitties, LIMIT_BOUNDED};
use crate::list::{
    contents, lemma_has_first, position, remove_by_value, try_append, views_of, without_first,
    IndexError,
};
use vstd::prelude::*;

verus! {

/// The identity of an account.
pub type AccountId = u64;

/// One owner's list.
struct Holding {
    owner: AccountId,
    kitties: ListKitties,
}

/// The lists of all owners. An owner without a list holds nothing.
pub struct OwnerDetail {
    entries: Vec<Holding>,
}

impl OwnerDetail {
    /// No owner has two lists, and no list is longer than the bound.
    pub closed spec fn wf(&self) -> bool {
        &&& forall|i: int, j: int|
            0 <= i < j < self.entries.len() ==> self.entries[i].owner != self.entries[j].owner
        &&& forall|i: int|
            0 <= i < self.entries.len() ==> held(#[trigger] self.entries[i].kitties).len()
                <= LIMIT_BOUNDED
    }

    /// Whether `owner` has a list.
    closed spec fn has_entry(&self, owner: AccountId) -> bool {
        exists|i: int| 0 <= i < self.entries.len() && #[trigger] self.entries[i].owner == owner
    }

    /// The identities that `owner` holds, in the order in which they are kept.
    pub closed spec fn list_of(&self, owner: AccountId) -> Seq<Seq<u8>> {
        if self.has_entry(owner) {
            let i = choose|i: int|
                0 <= i < self.entries.len() && #[trigger] self.entries[i].owner == owner;
            held(self.entries[i].kitties)
        } else {
            Seq::empty()
        }
    }

    /// In a well-formed index the list of the owner at `i` is what `list_of`
    /// gives for that owner.
    proof fn lemma_list_at(&self, i: int)
        requires
            self.wf(),
            0 <= i < self.entries.len(),
        ensures
            self.has_entry(self.entries[i].owner),
            self.list_of(self.entries[i].owner) == held(self.entries[i].kitties),
    {
    }

    /// Where two well-formed indexes have the same owners in the same places
    /// and differ at most in the list at `changed`, every other owner holds
    /// in both the same.
    proof fn lemma_frame(&self, after: &Self, changed: int, other: AccountId)
        requires
            self.wf(),
            after.wf(),
            0 <= changed < self.entries.len(),
            after.entries.len() == self.entries.len(),
            after.entries[changed].owner == self.entries[changed].owner,
            forall|k: int|
                0 <= k < self.entries.len() && k != changed ==> after.entries[k]
                    == self.entries[k],
            other != self.entries[changed].owner,
        ensures
            after.list_of(other) == self.list_of(other),
    {
        if self.has_entry(other) {
            let i = choose|i: int|
                0 <= i < self.entries.len() && #[trigger] self.entries[i].owner == other;
            after.lemma_list_at(i);
            self.lemma_list_at(i);
        }
    }

    /// Where `after` is `self` with one more owner's list at the end, every
    /// other owner holds in both the same.
    proof fn lemma_grown(&self, after: &Self, other: AccountId)
        requires
            self.wf(),
            after.wf(),
            after.entries.len() == self.entries.len() + 1,
            forall|k: int| 0 <= k < self.entries.len() ==> after.entries[k] == self.entries[k],
            other != after.entries[self.entries.len() as int].owner,
        ensures
            after.list_of(other) == self.list_of(other),
    {
        if self.has_entry(other) {
            let i = choose|i: int|
                0 <= i < self.entries.len() && #[trigger] self.entries[i].owner == other;
            after.lemma_list_at(i);
            self.lemma_list_at(i);
        }
    }

    /// No owner holds more than the bound.
    pub proof fn lemma_bounded(&self, owner: AccountId)
        requires
            self.wf(),
        ensures
            self.list_of(owner).len() <= LIMIT_BOUNDED,
    {
    }

    /// An index in which nobody holds anything.
    pub fn new() -> (index: Self)
        ensures
            index.wf(),
            forall|owner: AccountId| #[trigger] index.list_of(owner) == Seq::<Seq<u8>>::empty(),
    {
        OwnerDetail { entries: Vec::new() }
    }

    /// Where `owner`'s list stands among the entries.
    fn find(&self, owner: AccountId) -> (place: Option<usize>)
        requires
            self.wf(),
        ensures
            match place {
                Some(i) => i < self.entries.len() && self.entries[i as int].owner == owner,
                None => !self.has_entry(owner),
            },
    {
        let mut i: usize = 0;
        while i < self.entries.len()
            invariant
                i <= self.entries.len(),
                forall|k: int| 0 <= k < i ==> self.entries[k].owner != owner,
            decreases self.entries.len() - i,
        {
            if self.entries[i].owner == owner {
                return Some(i);
            }
            i += 1;
        }
        None
    }

    /// The identities that `owner` holds, each copied.
    pub fn get(&self, owner: AccountId) -> (items: Vec<Vec<u8>>)
        requires
            self.wf(),
        ensures
            views_of(items@) == self.list_of(owner),
    {
        match self.find(owner) {
            Some(i) => {
                proof {
                    self.lemma_list_at(i as int);
                }
                contents(&self.entries[i].kitties)
            },
            None => Vec::new(),
        }
    }

    /// Whether `owner` holds `dna`.
    pub fn holds(&self, owner: AccountId, dna: &Vec<u8>) -> (held_by: bool)
        requires
            self.wf(),
        ensures
            held_by == self.list_of(owner).contains(dna@),
    {
        match self.find(owner) {
            Some(i) => {
                proof {
                    self.lemma_list_at(i as int);
                }
                position(&self.entries[i].kitties, dna).is_some()
            },
            None => false,
        }
    }

    /// Puts `dna` at the end of `owner`'s list, unless the list is full.
    pub fn append(&mut self, owner: AccountId, dna: Vec<u8>) -> (done: Result<(), IndexError>)
        requires
            old(self).wf(),
        ensures
            final(self).wf(),
            done is Ok <==> old(self).list_of(owner).len() < LIMIT_BOUNDED,
            done is Ok ==> final(self).list_of(owner) == old(self).list_of(owner).push(dna@),
            done is Err ==> done == Err::<(), IndexError>(IndexError::CapacityExceeded)
                && final(self).list_of(owner) == old(self).list_of(owner),
            forall|other: AccountId|
                other != owner ==> #[trigger] final(self).list_of(other)
                    == old(self).list_of(other),
    {
        match self.find(owner) {
            Some(i) => {
                proof {
                    self.lemma_list_at(i as int);
                }
                let ghost before = self.entries@;
                let entry = &mut self.entries[i];
                let done = try_append(&mut entry.kitties, dna);
                proof {
                    assert(forall|k: int|
                        0 <= k < before.len() && k != i ==> self.entries@[k] == before[k]);
                    self.lemma_list_at(i as int);
                    assert forall|other: AccountId| other != owner implies
                        #[trigger] self.list_of(other) == old(self).list_of(other) by {
                        old(self).lemma_frame(self, i as int, other);
                    }
                }
                done
            },
            None => {
                let mut kitties = new_list();
                let done = try_append(&mut kitties, dna);
                self.entries.push(Holding { owner, kitties });
                proof {
                    let last = self.entries.len() - 1;
                    assert(forall|k: int|
                        0 <= k < last ==> self.entries@[k] == old(self).entries@[k]);
                    self.lemma_list_at(last);
                    assert forall|other: AccountId| other != owner implies
                        #[trigger] self.list_of(other) == old(self).list_of(other) by {
                        old(self).lemma_grown(self, other);
                    }
                }
                done
            },
        }
    }

    /// Takes `dna` out of `owner`'s list, from the first place at which it
    /// stands: the last identity of the list moves into that place.
    pub fn remove_by_value(
        &mut self,
        owner: AccountId,
        dna: &Vec<u8>,
    ) -> (done: Result<(), IndexError>)
        requires
            old(self).wf(),
        ensures
            final(self).wf(),
            done is Ok <==> old(self).list_of(owner).contains(dna@),
            done is Ok ==> final(self).list_of(owner)
                == without_first(old(self).list_of(owner), dna@),
            done is Err ==> done == Err::<(), IndexError>(IndexError::NotFound)
                && final(self).list_of(owner) == old(self).list_of(owner),
            forall|other: AccountId|
                other != owner ==> #[trigger] final(self).list_of(other)
                    == old(self).list_of(other),
    {
        let i = match self.find(owner) {
            Some(i) => i,
            None => {
                return Err(IndexError::NotFound);
            },
        };
        proof {
            self.lemma_list_at(i as int);
        }
        let ghost before = self.entries@;
        let entry = &mut self.entries[i];
        let done = remove_by_value(&mut entry.kitties, dna);
        proof {
            assert(forall|k: int|
                0 <= k < before.len() && k != i ==> self.entries@[k] == before[k]);
            if done is Ok {
                let list = old(self).list_of(owner);
                let at = choose|at: int| 0 <= at < list.len() && list[at] == dna@;
                lemma_has_first(list, dna@, at);
            }
            self.lemma_list_at(i as int);
            assert forall|other: AccountId| other != owner implies
                #[trigger] self.list_of(other) == old(self).list_of(other) by {
                old(self).lemma_frame(self, i as int, other);
            }
        }
        done
    }
}

} // verus!

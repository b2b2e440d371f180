//! The kitties that exist: one record for each identity, and a counter.

use crate::list::{lemma_pushed, same_dna};
use crate::gender::Gender;
use crate::model::KittyView;
use crate::ownership::AccountId;
use vstd::prelude::*;

verus! {

/// The record of one kitty.
#[derive(Clone, Debug, PartialEq, Eq)]
pub struct Kitty {
    /// The identity, which no other kitty has.
    pub dna: Vec<u8>,
    /// What the kitty was made for.
    pub price: u32,
    /// The gender that the identity determines.
    pub gender: Gender,
    /// The account that made the kitty. Handing the kitty over does not
    /// change this field: who holds it now is told by the owners' lists.
    pub owner: AccountId,
    /// When the kitty was made, in seconds since the epoch.
    pub created_date: u64,
}

impl View for Kitty {
    type V = KittyView;

    open spec fn view(&self) -> KittyView {
        KittyView {
            dna: self.dna@,
            price: self.price,
            gender: self.gender,
            owner: self.owner,
            created_date: self.created_date,
        }
    }
}

/// The records of all kitties, with the number of records ever put in.
pub struct KittyDetail {
    records: Vec<Kitty>,
    quantity: u64,
}

impl View for KittyDetail {
    type V = Map<Seq<u8>, KittyView>;

    /// The record of each kitty, by its identity.
    closed spec fn view(&self) -> Map<Seq<u8>, KittyView> {
        Map::new(
            |dna: Seq<u8>| self.keys().contains(dna),
            |dna: Seq<u8>| self.records[self.keys().index_of(dna)]@,
        )
    }
}

impl KittyDetail {
    /// The identities of the records, in the order of the records.
    closed spec fn keys(&self) -> Seq<Seq<u8>> {
        Seq::new(self.records.len() as nat, |i: int| self.records[i].dna@)
    }

    /// No two records have the same identity, and the counter is the number
    /// of records.
    pub closed spec fn wf(&self) -> bool {
        &&& self.keys().no_duplicates()
        &&& self.quantity == self.records.len()
    }

    /// How many records were ever put in.
    pub closed spec fn count(&self) -> nat {
        self.quantity as nat
    }

    /// The record at `i` is the one that the view keeps under its identity.
    proof fn lemma_record_at(&self, i: int)
        requires
            self.wf(),
            0 <= i < self.records.len(),
        ensures
            self@.contains_key(self.records[i].dna@),
            self@[self.records[i].dna@] == self.records[i]@,
    {
        assert(self.keys()[i] == self.records[i].dna@);
    }

    /// Every record is kept under its own identity, and the counter is the
    /// number of identities that have a record.
    pub proof fn lemma_counted(&self)
        requires
            self.wf(),
        ensures
            self@.dom().finite(),
            self@.dom().len() == self.count(),
            forall|dna: Seq<u8>| #[trigger] self@.contains_key(dna) ==> self@[dna].dna == dna,
    {
        self.keys().unique_seq_to_set();
        vstd::seq_lib::seq_to_set_is_finite(self.keys());
    }

    /// A ledger without records.
    pub fn new() -> (ledger: Self)
        ensures
            ledger.wf(),
            ledger@ == Map::<Seq<u8>, KittyView>::empty(),
            ledger.count() == 0,
    {
        KittyDetail { records: Vec::new(), quantity: 0 }
    }

    /// Where the record of `dna` stands.
    fn find(&self, dna: &Vec<u8>) -> (place: Option<usize>)
        requires
            self.wf(),
        ensures
            match place {
                Some(i) => i < self.records.len() && self.records[i as int].dna@ == dna@,
                None => !self@.contains_key(dna@),
            },
    {
        let mut i: usize = 0;
        while i < self.records.len()
            invariant
                i <= self.records.len(),
                forall|k: int| 0 <= k < i ==> self.records[k].dna@ != dna@,
            decreases self.records.len() - i,
        {
            if same_dna(&self.records[i].dna, dna) {
                return Some(i);
            }
            i += 1;
        }
        None
    }

    /// Whether a kitty with this identity has a record.
    pub fn contains_key(&self, dna: &Vec<u8>) -> (found: bool)
        requires
            self.wf(),
        ensures
            found == self@.contains_key(dna@),
    {
        match self.find(dna) {
            Some(i) => {
                proof {
                    self.lemma_record_at(i as int);
                }
                true
            },
            None => false,
        }
    }

    /// The record of the kitty with this identity, if there is one.
    pub fn get(&self, dna: &Vec<u8>) -> (record: Option<&Kitty>)
        requires
            self.wf(),
        ensures
            match record {
                Some(kitty) => self@.contains_key(dna@) && kitty@ == self@[dna@],
                None => !self@.contains_key(dna@),
            },
    {
        match self.find(dna) {
            Some(i) => {
                proof {
                    self.lemma_record_at(i as int);
                }
                Some(&self.records[i])
            },
            None => None,
        }
    }

    /// How many records were ever put in.
    pub fn quantity(&self) -> (quantity: u64)
        ensures
            quantity == self.count(),
    {
        self.quantity
    }

    /// Puts in the record of a kitty whose identity has none yet, and counts
    /// it.
    pub fn insert(&mut self, kitty: Kitty)
        requires
            old(self).wf(),
            !old(self)@.contains_key(kitty.dna@),
        ensures
            final(self).wf(),
            final(self)@ == old(self)@.insert(kitty.dna@, kitty@),
            final(self).count() == old(self).count() + 1,
    {
        let ghost dna = kitty.dna@;
        let ghost record = kitty@;
        self.records.push(kitty);
        assert(self.quantity + 1 == self.records.len() <= usize::MAX <= u64::MAX);
        self.quantity = self.quantity + 1;
        proof {
            let before = old(self).keys();
            let grown = old(self)@.insert(dna, record);
            assert(self.keys() =~= before.push(dna));
            lemma_pushed(before, dna);
            assert forall|id: Seq<u8>| self@.contains_key(id) implies self@[id] == grown[id] by {
                let k = self.keys().index_of(id);
                self.lemma_record_at(k);
                if id != dna {
                    old(self).lemma_record_at(k);
                }
            }
        }
    }
}

} // verus!

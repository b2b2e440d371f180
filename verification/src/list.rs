//! What is done with one owner's list: looking an identity up, putting one
//! at the end, taking one out.

use crate::bounded::{
    held, list_item, list_len, list_swap_remove, list_try_push, swap_removed, ListKitties,
    LIMIT_BOUNDED,
};
use vstd::prelude::*;

verus! {

/// Why a change to a list was refused.
#[derive(Clone, Copy, Debug, PartialEq, Eq, Structural)]
pub enum IndexError {
    /// The list already holds as many identities as it can keep.
    CapacityExceeded,
    /// The list does not hold the identity.
    NotFound,
}

/// Whether `index` is the first place at which `dna` stands in `items`.
pub open spec fn is_first_place(items: Seq<Seq<u8>>, dna: Seq<u8>, index: int) -> bool {
    &&& 0 <= index < items.len()
    &&& items[index] == dna
    &&& forall|k: int| 0 <= k < index ==> items[k] != dna
}

/// The first place at which `dna` stands in `items`. It means something only
/// where `items` contains `dna`.
pub open spec fn first_place(items: Seq<Seq<u8>>, dna: Seq<u8>) -> int
    recommends
        items.contains(dna),
{
    choose|index: int| is_first_place(items, dna, index)
}

/// What is left of `items` when `dna` is taken out of the first place at
/// which it stands, and the last one is put in its place.
pub open spec fn without_first(items: Seq<Seq<u8>>, dna: Seq<u8>) -> Seq<Seq<u8>>
    recommends
        items.contains(dna),
{
    swap_removed(items, first_place(items, dna))
}

/// There is only one first place.
pub proof fn lemma_first_place(items: Seq<Seq<u8>>, dna: Seq<u8>, index: int)
    requires
        is_first_place(items, dna, index),
    ensures
        first_place(items, dna) == index,
        items.contains(dna),
{
}

/// A sequence that holds `dna` somewhere holds it at a first place.
pub proof fn lemma_has_first(items: Seq<Seq<u8>>, dna: Seq<u8>, at: int)
    requires
        0 <= at < items.len(),
        items[at] == dna,
    ensures
        is_first_place(items, dna, first_place(items, dna)),
    decreases at,
{
    if forall|k: int| 0 <= k < at ==> items[k] != dna {
        assert(is_first_place(items, dna, at));
    } else {
        let k = choose|k: int| 0 <= k < at && items[k] == dna;
        lemma_has_first(items, dna, k);
    }
}

/// What putting an identity at the end does: the list holds what it held
/// and that identity, and holds nothing twice if it did not before and the
/// identity is new to it.
pub proof fn lemma_pushed(items: Seq<Seq<u8>>, dna: Seq<u8>)
    ensures
        forall|id: Seq<u8>|
            #[trigger] items.push(dna).contains(id) <==> items.contains(id) || id == dna,
        items.no_duplicates() && !items.contains(dna) ==> items.push(dna).no_duplicates(),
{
    let longer = items.push(dna);
    assert forall|id: Seq<u8>| items.contains(id) || id == dna implies
        #[trigger] longer.contains(id) by {
        if items.contains(id) {
            let k = choose|k: int| 0 <= k < items.len() && items[k] == id;
            assert(longer[k] == id);
        } else {
            assert(longer[items.len() as int] == id);
        }
    }
}

/// What a swap-removal does to a list in which nothing stands twice: the
/// list is one shorter, still holds nothing twice, and holds what it held
/// but for the identity that was taken out.
pub proof fn lemma_swap_removed(items: Seq<Seq<u8>>, index: int)
    requires
        items.no_duplicates(),
        0 <= index < items.len(),
    ensures
        swap_removed(items, index).len() == items.len() - 1,
        swap_removed(items, index).no_duplicates(),
        forall|dna: Seq<u8>|
            #[trigger] swap_removed(items, index).contains(dna) <==> items.contains(dna)
                && dna != items[index],
{
    let rest = swap_removed(items, index);
    let last = items.len() - 1;
    assert forall|dna: Seq<u8>| items.contains(dna) && dna != items[index] implies
        #[trigger] rest.contains(dna) by {
        let k = choose|k: int| 0 <= k < items.len() && items[k] == dna;
        if k == last {
            assert(rest[index] == dna);
        } else {
            assert(rest[k] == dna);
        }
    }
}

/// Whether two identities hold the same bytes.
pub fn same_dna(left: &Vec<u8>, right: &Vec<u8>) -> (same: bool)
    ensures
        same == (left@ == right@),
{
    if left.len() != right.len() {
        return false;
    }
    let mut i: usize = 0;
    while i < left.len()
        invariant
            i <= left.len(),
            left.len() == right.len(),
            forall|k: int| 0 <= k < i ==> left@[k] == right@[k],
        decreases left.len() - i,
    {
        if left[i] != right[i] {
            return false;
        }
        i += 1;
    }
    assert(left@ =~= right@);
    true
}

/// The first place at which `dna` stands in the list.
pub fn position(list: &ListKitties, dna: &Vec<u8>) -> (place: Option<usize>)
    ensures
        match place {
            Some(i) => is_first_place(held(*list), dna@, i as int),
            None => !held(*list).contains(dna@),
        },
{
    let len = list_len(list);
    let mut i: usize = 0;
    while i < len
        invariant
            i <= len,
            len == held(*list).len(),
            forall|k: int| 0 <= k < i ==> held(*list)[k] != dna@,
        decreases len - i,
    {
        if same_dna(list_item(list, i), dna) {
            return Some(i);
        }
        i += 1;
    }
    None
}

/// The byte sequences that a sequence of identities stands for.
pub open spec fn views_of(items: Seq<Vec<u8>>) -> Seq<Seq<u8>> {
    Seq::new(items.len(), |i: int| items[i]@)
}

/// The identities in the list, each copied, in the list's order.
pub fn contents(list: &ListKitties) -> (items: Vec<Vec<u8>>)
    ensures
        views_of(items@) == held(*list),
{
    let len = list_len(list);
    let mut items: Vec<Vec<u8>> = Vec::new();
    let mut i: usize = 0;
    while i < len
        invariant
            i <= len,
            len == held(*list).len(),
            items.len() == i,
            forall|k: int| 0 <= k < i ==> items@[k]@ == held(*list)[k],
        decreases len - i,
    {
        let dna = list_item(list, i).clone();
        items.push(dna);
        i += 1;
    }
    items
}

/// Puts `dna` at the end of the list, unless the list is full.
pub fn try_append(list: &mut ListKitties, dna: Vec<u8>) -> (done: Result<(), IndexError>)
    ensures
        done is Ok <==> held(*old(list)).len() < LIMIT_BOUNDED,
        done is Ok ==> held(*final(list)) == held(*old(list)).push(dna@),
        done is Err ==> done == Err::<(), IndexError>(IndexError::CapacityExceeded),
        done is Err ==> held(*final(list)) == held(*old(list)),
{
    match list_try_push(list, dna) {
        Ok(()) => Ok(()),
        Err(_) => Err(IndexError::CapacityExceeded),
    }
}

/// Takes `dna` out of the list, from the first place at which it stands: the
/// last identity of the list moves into that place.
pub fn remove_by_value(list: &mut ListKitties, dna: &Vec<u8>) -> (done: Result<(), IndexError>)
    ensures
        done is Ok <==> held(*old(list)).contains(dna@),
        done is Ok ==> held(*final(list)) == without_first(held(*old(list)), dna@),
        done is Err ==> done == Err::<(), IndexError>(IndexError::NotFound),
        done is Err ==> *final(list) == *old(list),
{
    match position(list, dna) {
        Some(place) => {
            proof {
                lemma_first_place(held(*list), dna@, place as int);
            }
            let _ = list_swap_remove(list, place);
            Ok(())
        },
        None => Err(IndexError::NotFound),
    }
}

} // verus!

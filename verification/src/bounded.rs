//! The bounded list in which one owner's kitties are kept, as far as it is
//! taken on trust.
//!
//! The list is the `BoundedVec` that `frame_support` hands on from the crate
//! `bounded-collections`. Verus does not read that type: what a list holds is
//! named by [`held`], and every function in this file states, without proof,
//! what one method of `BoundedVec` does to it. What is built on these
//! methods, and proved, is in the module `list`.

use frame_support::storage::bounded_vec::BoundedVec;
use frame_support::traits::ConstU32;
use vstd::prelude::*;

verus! {

/// The most kitties that one owner can hold.
pub const LIMIT_BOUNDED: u32 = 10;

/// The identities that one owner holds.
pub type ListKitties = BoundedVec<Vec<u8>, ConstU32<LIMIT_BOUNDED>>;

/// `BoundedVec`: a vector that never grows past the bound `S`. Nothing
/// inside it is visible to Verus.
#[verifier::external_type_specification]
#[verifier::external_body]
#[verifier::reject_recursive_types(T)]
#[verifier::reject_recursive_types(S)]
pub struct ExBoundedVec<T, S>(BoundedVec<T, S>);

/// `ConstU32`: the type that stands for the number `N`, here the bound of
/// a list.
#[verifier::external_type_specification]
#[verifier::external_body]
pub struct ExConstU32<const N: u32>(ConstU32<N>);

/// The identities in a list, in the order in which the list keeps them.
pub uninterp spec fn held(list: ListKitties) -> Seq<Seq<u8>>;

/// What is left of `items` when the one at `index` is taken out and the last
/// one is put in its place.
pub open spec fn swap_removed(items: Seq<Seq<u8>>, index: int) -> Seq<Seq<u8>>
    recommends
        0 <= index < items.len(),
{
    items.update(index, items.last()).drop_last()
}

/// `BoundedVec::new`: a list that holds nothing.
#[verifier::external_body]
pub(crate) fn new_list() -> (list: ListKitties)
    ensures
        held(list) == Seq::<Seq<u8>>::empty(),
{
    BoundedVec::new()
}

/// `Vec::len`, reached through `BoundedVec`'s `Deref`: how many identities
/// the list holds.
#[verifier::external_body]
pub(crate) fn list_len(list: &ListKitties) -> (len: usize)
    ensures
        len == held(*list).len(),
{
    list.len()
}

/// `BoundedVec`'s `Index`: the identity at `index`. The outside method
/// panics past the end, which `requires` leaves out.
#[verifier::external_body]
pub(crate) fn list_item(list: &ListKitties, index: usize) -> (dna: &Vec<u8>)
    requires
        index < held(*list).len(),
    ensures
        dna@ == held(*list)[index as int],
{
    &list[index]
}

/// `BoundedVec::try_push`: below the bound the identity is put at the end;
/// at the bound or above the list stays as it was and the identity comes
/// back.
#[verifier::external_body]
pub(crate) fn list_try_push(list: &mut ListKitties, dna: Vec<u8>) -> (pushed: Result<(), Vec<u8>>)
    ensures
        pushed is Ok <==> held(*old(list)).len() < LIMIT_BOUNDED,
        pushed is Ok ==> held(*final(list)) == held(*old(list)).push(dna@),
        pushed is Err ==> pushed->Err_0 == dna && held(*final(list)) == held(*old(list)),
{
    list.try_push(dna)
}

/// `BoundedVec::swap_remove`: the identity at `index` leaves and is
/// returned, the last one takes its place, and the list is one shorter. The
/// outside method panics past the end, which `requires` leaves out.
#[verifier::external_body]
pub(crate) fn list_swap_remove(list: &mut ListKitties, index: usize) -> (dna: Vec<u8>)
    requires
        index < held(*old(list)).len(),
    ensures
        dna@ == held(*old(list))[index as int],
        held(*final(list)) == swap_removed(held(*old(list)), index as int),
{
    list.swap_remove(index)
}

} // verus!

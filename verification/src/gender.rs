//! The attribute that a kitty's identity determines.

use vstd::prelude::*;

verus! {

/// The two-valued classification of a kitty.
#[derive(Clone, Copy, Debug, PartialEq, Eq, Structural)]
pub enum Gender {
    Male,
    Female,
}

/// The gender that an identity of `len` bytes determines: `Male` for an even
/// length, `Female` for an odd one.
pub open spec fn gender_of_len(len: nat) -> Gender {
    if len % 2 == 0 {
        Gender::Male
    } else {
        Gender::Female
    }
}

/// The gender of the kitty whose identity is `dna`.
pub open spec fn gender_of(dna: Seq<u8>) -> Gender {
    gender_of_len(dna.len())
}

/// Derives a kitty's gender from its identity.
pub fn kitty_gender(dna: &Vec<u8>) -> (gender: Gender)
    ensures
        gender == gender_of(dna@),
{
    if dna.len() % 2 == 0 {
        Gender::Male
    } else {
        Gender::Female
    }
}

} // verus!

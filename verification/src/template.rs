//! The storage example that comes with the registry: one stored number, and
//! what its two pieces of arithmetic give.

use vstd::prelude::*;

verus! {

/// Why the stored number could not be raised.
#[derive(Clone, Copy, Debug, PartialEq, Eq, Structural)]
pub enum Error {
    /// No number is stored.
    NoneValue,
    /// The stored number is the largest there is.
    StorageOverflow,
}

/// The number that is stored at the start.
#[derive(Clone, Copy, Debug, PartialEq, Eq, Structural)]
pub struct GenesisConfig {
    pub genesis_value: u32,
}

impl Default for GenesisConfig {
    /// At the start the number is zero.
    fn default() -> (config: GenesisConfig)
        ensures
            config.genesis_value == 0,
    {
        GenesisConfig { genesis_value: 0u32 }
    }
}

/// What is stored after the stored number `something` was raised by one.
pub open spec fn raised(something: Option<u32>) -> Result<u32, Error> {
    match something {
        None => Err(Error::NoneValue),
        Some(old) => if old < u32::MAX {
            Ok((old + 1) as u32)
        } else {
            Err(Error::StorageOverflow)
        },
    }
}

/// Raises the stored number by one: the new number to store, or why there is
/// none.
pub fn cause_error(something: Option<u32>) -> (new: Result<u32, Error>)
    ensures
        new == raised(something),
{
    match something {
        None => Err(Error::NoneValue),
        Some(old) => match old.checked_add(1) {
            Some(new) => Ok(new),
            None => Err(Error::StorageOverflow),
        },
    }
}

/// Something that can raise a number.
pub trait DoSomething {
    /// The number raised by five. A number so large that five more does not
    /// fit is not taken.
    fn increase_value(value: u32) -> (increased: u32)
        requires
            value + 5 <= u32::MAX,
        ensures
            increased == value + 5,
    ;
}

/// The example itself.
pub struct Pallet;

impl DoSomething for Pallet {
    fn increase_value(value: u32) -> (increased: u32) {
        value + 5
    }
}

} // verus!

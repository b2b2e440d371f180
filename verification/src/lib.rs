//! A registry of uniquely identified kitties and of who holds them.
//!
//! A kitty is made once, under an identity that no other kitty has, and is
//! from then on held by exactly one account, which can hand it to another.
//! No account holds more than ten. A request is either carried out whole or
//! changes nothing.
//!
//! - [`gender`]: the gender that a kitty's identity determines.
//! - [`bounded`]: the bounded list of `frame_support`, and what is taken on
//!   trust about it.
//! - [`list`]: looking up, appending to and removing from one such list.
//! - [`ownership`]: the lists of all owners.
//! - [`kitty`]: the records of all kitties, and their counter.
//! - [`model`]: the registry as a mathematical state, with its two
//!   operations and what makes a state well formed.
//! - [`laws`]: what holds of every state that the operations can reach.
//! - [`pallet`]: the registry itself, proved to do what the model says.
//! - [`template`]: the arithmetic of the storage example that comes along.

pub mod bounded;
pub mod gender;
pub mod kitty;
pub mod laws;
pub mod list;
pub mod model;
pub mod ownership;
pub mod pallet;
pub mod template;

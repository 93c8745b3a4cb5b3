//! An in-memory world state for an EVM-style engine: accounts keyed by
//! address, read accessors that fall back to neutral defaults, and the
//! application of a batch of state changes.
#![allow(unused_imports)]

use vstd::prelude::*;

pub mod account;
pub mod backend;
pub mod changeset;
pub mod laws;
pub mod word;

pub use account::MockAccount;
pub use backend::MockBackend;
pub use changeset::ChangeSet;

verus! {

} // verus!

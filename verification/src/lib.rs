use vstd::prelude::*;

pub mod command;
pub mod configuration;
pub mod handler;

verus! {

/// A raw numeric identifier for a platform user.
pub type Id = u64;

} // verus!

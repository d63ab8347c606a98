//! Symbols: the identities that names resolve to, and the names built in.

use vstd::prelude::*;

pub mod name;
pub mod prim;
pub mod unique;

verus! {

/// The name of a module.
pub type ModuleId = String;

} // verus!

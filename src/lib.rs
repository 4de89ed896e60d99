//! Named registry of pooled database connections across several backends, with
//! per-tenant schema selection for the search-path-capable backend.
use vstd::prelude::*;

pub mod config;
pub mod pool;
pub mod registry;

verus! {

} // verus!

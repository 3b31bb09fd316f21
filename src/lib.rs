use vstd::prelude::*;

pub mod args;
pub mod batch;
pub mod cache;
pub mod detect;
pub mod error;
pub mod laws;
pub mod run;
pub mod scheduler;

verus! {

/// Number of upload operations that may be in flight at once.
pub const PARALLEL_LIMIT: usize = 45;

} // verus!

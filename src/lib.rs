use vstd::prelude::*;

pub mod message;
pub mod runner;

verus! {

/// The number of units of work in a standard run.
pub const NTHREADS: u32 = 10;

} // verus!

use vstd::prelude::*;

pub mod cache;
pub mod keys;
pub mod pipeline;
pub mod service;
pub mod signal;
pub mod types;

verus! {

/// Version of the analysis algorithms; it is stamped into every cache file
/// and every persisted analysis record.
pub const ANALYSIS_VERSION: u32 = 1;

} // verus!

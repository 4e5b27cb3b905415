//! Verified core of the RustCost persistence and runtime-state logic.
use vstd::prelude::*;

pub mod text;
pub mod time;
pub mod metrics;
pub mod codes;
pub mod info;
pub mod settings;
pub mod state;
pub mod client;

verus! {
} // verus!

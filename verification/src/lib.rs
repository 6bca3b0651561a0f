//! Bounded-concurrency proving scheduler: admission control, in-order
//! reassembly of per-input proofs, content hashing and hash combination.

pub mod digest;
pub mod error;
pub mod laws;
pub mod outcome;
pub mod pipeline;
pub mod runtime;
pub mod scheduler;
pub mod task;
pub mod text;

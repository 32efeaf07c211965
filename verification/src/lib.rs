//! A sandboxed contract execution engine: request batching, per-contract
//! grouping of calls, the executor protocol, the host/guest storage ABI and
//! the guest-side addressing conventions, with their contracts.

pub mod bytes;
pub mod hashing;
pub mod json;

pub mod counter;
pub mod store;
pub mod calls;
pub mod grouper_model;
pub mod grouper_lemmas;
pub mod grouper;
pub mod segments;
pub mod batches;
pub mod executor;
pub mod invoke_batcher;
pub mod host_abi;
pub mod deploy;

pub mod entry;
pub mod guest;
pub mod rps;

pub mod bytemath_model;
pub mod bytemath_lemmas;
pub mod bytemath;

//! Streaming engine for out-of-core processing of flat row-major 2D arrays:
//! chunked row-order reversal via mirrored window pairs, and the decision
//! logic of an incremental mean / standard-deviation reducer, including the
//! zero-count sentinel policy and the idempotent skip-if-exists guard.

pub mod names;
pub mod reverse;
pub mod rows;
pub mod stats;

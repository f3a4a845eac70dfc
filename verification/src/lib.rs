//! One-way directory mirror: the verified core.
//!
//! The library models paths as sequences of name segments, translates
//! filesystem change notifications into mirror steps, and gives the
//! mirroring operations an exact semantics over a model of the target
//! tree. The surrounding binary performs the actual filesystem and
//! channel work and feeds observations into these functions.

pub mod events;
pub mod executor;
pub mod laws;
pub mod paths;
pub mod session;

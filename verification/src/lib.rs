//! A verified core for an ahead-of-time compiler backend targeting the QIR
//! dialect.
//!
//! The crate covers the backend's architectural spine: target-profile
//! resolution, the per-unit compilation lifecycle, the module buffer wire
//! format, the thin-merge coordination structure, and the final linking
//! step.  Instruction-level lowering, debug info, and the on-disk object
//! layout are outside the core and are reached through narrow data
//! boundaries.

pub mod buffer;
pub mod bytes;
pub mod driver;
pub mod errors;
pub mod link;
pub mod merge;
pub mod target;
pub mod unit;

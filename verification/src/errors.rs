//! Fatal build errors.
//!
//! Only target resolution is recoverable (it yields absence, not an
//! error).  Every error below is fatal to the whole build: the driver
//! propagates the first one it meets and produces no artifact.

use vstd::prelude::*;

use crate::link::{CrateType, NativeLib};

verus! {

/// A fatal, build-aborting condition.
#[derive(Debug)]
pub enum BuildError {
    /// An item of a compilation unit has no lowering.  Carries the name
    /// of the unit and the index and construct code of the item.
    UnitTranslationFailure { unit: Vec<u8>, item: usize, construct: u32 },
    /// A byte buffer was reinterpreted at a word size that does not
    /// divide its length.
    BufferSizeMismatch { length: usize, word_size: usize },
    /// A module or work-product name contains the embedded terminator.
    /// Carries the position of the name in the combined
    /// fresh-then-cached order.
    NameEncodingError { name_index: usize },
    /// The requested crate type is not a supported output kind.
    UnsupportedOutputKind { kind: CrateType },
    /// Link-affecting metadata the linker cannot honor, one entry per
    /// occurrence.
    UnsupportedLinkMetadata { libs: Vec<NativeLib> },
}

} // verus!

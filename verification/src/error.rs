//! Error taxonomy of the inference engine.
//!
//! Every failure is recoverable at the request boundary: the engine reports
//! a typed error and never aborts the process on malformed model data.

use vstd::prelude::*;

verus! {

/// A recoverable inference failure.
#[derive(Debug)]
pub enum ModelError {
    /// Persisted model bytes could not be read.
    StorageUnavailable,
    /// The bytes do not parse into the structured shape a model requires.
    DecodeError,
    /// The structure parsed but is semantically invalid: an empty forest, a
    /// leaf without a non-empty distribution, a malformed tree node, or a
    /// feature-count mismatch for the linear model.
    InvalidModel,
    /// The selector names no known model kind; carries the selector.
    UnsupportedArchitecture(String),
}

} // verus!

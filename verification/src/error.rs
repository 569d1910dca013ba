//! Error taxonomy of the launch-preparation pipeline. Every variant is
//! fatal to the current attempt and carries enough context for the caller
//! to report it.

use vstd::prelude::*;

use crate::hashing::HashVal;

verus! {

/// Errors raised while preparing or composing a launch.
#[derive(Debug, Clone, PartialEq)]
pub enum LaunchError {
    /// Downloaded or cached bytes failed size or digest verification.
    InvalidFile {
        url: String,
        expected_hash: HashVal,
        expected_size: u32,
        actual_hash: String,
        actual_size: usize,
    },
    /// An archive entry or asset name failed the path-safety rule.
    InvalidFilename { name: String },
    /// A requested launch option is unsupported by the merged traits.
    UnsupportedFeature { name: String },
    /// An argument template referenced a property that was never declared.
    UnknownVariable { name: String },
    /// A transport or filesystem failure not otherwise classified.
    IoError { message: String },
}

/// Errors raised while retrieving component metadata from the catalog.
#[derive(Debug, Clone, PartialEq)]
pub enum ComponentMetaRetrievalError {
    /// The catalog has no such version of the component.
    VersionNotFound { id: String, version: String },
    /// The catalog has no index for the component at all.
    IndexNotFound { id: String },
    /// The metadata bytes did not deserialize; malformed metadata is never
    /// silently accepted.
    ParseError { message: String },
    /// A transport failure with no usable cache to fall back on.
    IoError { message: String },
}

} // verus!

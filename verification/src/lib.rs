//! Core of a component-based game launcher: component metadata merging,
//! content-addressed artifact caching with hash verification, archive
//! recombination planning, path-safety enforcement, and launch-argument
//! composition.

pub mod account;
pub mod addon;
pub mod artifact;
pub mod assemble;
pub mod config;
pub mod configjson;
pub mod error;
pub mod hashing;
pub mod instance;
pub mod laws;
pub mod merge;
pub mod meta;
pub mod pathsafe;
pub mod prepared;
pub mod seqops;
pub mod strutil;
pub mod ziputil;

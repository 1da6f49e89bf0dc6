//! Conditional build-number bumping for a `major.minor.build` version file.
//!
//! The library holds the decisions: whether a trigger is newer than the
//! version file, how the file's text is read as a version, and what the next
//! text is. Reading, writing and command-line handling are left to the caller.

pub mod decimal;
pub mod text;
pub mod version;
pub mod triggers;
pub mod update;

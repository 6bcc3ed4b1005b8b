//! Bumping the version field of a package manifest: semantic-version
//! parsing, transformation and re-serialization, and resolution of the
//! command-line configuration that drives them.

pub mod config;
pub mod ident;
pub mod manifest;
mod text;
pub mod version;

//! Verified core of a build-and-release helper: target-triple derivation,
//! relocatable link-reference rewriting, archive packaging checks, and the
//! upload retry policy, with the surrounding I/O kept out of the library.

pub mod archive;
pub mod config;
pub mod homebrew;
pub mod json;
pub mod release;
pub mod rewrite;
pub mod strutil;
pub mod target_spec;
pub mod upload;
pub mod utils;
pub mod version;
pub mod writer;

//! Per-directory command aliases.
//!
//! A directory may hold one configuration file that maps names to commands.
//! A name is resolved by walking from a starting directory towards the root
//! and taking the nearest definition, with one optional fallback file that is
//! consulted after the walk. The crate holds the data model, the walk, and
//! the plan for launching what was found; it reads no file and starts no
//! process itself.

pub mod cli;
pub mod engine;
pub mod error;
pub mod mapping;
pub mod names;
pub mod paths;
pub mod record;
pub mod resolver;
pub mod store;

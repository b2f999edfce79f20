//! Canonicalisation of organisation name sets: duplicate resolution, script
//! coding and language inference, with the configuration and import helpers
//! that surround them.

pub mod text;
pub mod names;
pub mod script;
pub mod cascade;
pub mod disambiguate;
pub mod language;
pub mod pipeline;
pub mod reference;
pub mod ror;
pub mod file_name;
pub mod config;
pub mod cli;
pub mod setup;
pub mod summary;

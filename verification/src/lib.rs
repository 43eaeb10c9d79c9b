//! Batch processing of crates.io packages.

pub mod baseline;
pub mod cli;
pub mod config;
pub mod crate_run;
pub mod deps;
pub mod experiment;
pub mod failures;
pub mod import;
pub mod index;
pub mod json;
pub mod latest;
pub mod project;
pub mod records;
pub mod schema;
pub mod text;
pub mod times;
pub mod toolchain;
pub mod version_batch;
pub mod versions;
pub mod workers;

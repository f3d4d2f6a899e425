//! A declarative workflow runtime: steps parsed from a specification are
//! materialized as jobs in a dependency graph and driven through their
//! lifecycle under a concurrency cap, with progress scanned from log files.

pub mod command;
pub mod executors;
pub mod graph;
pub mod json;
pub mod jobs;
pub mod nix_environment;
pub mod progress;
pub mod specification;
pub mod text;
pub mod workflow;

//! The configuration surface the core consumes.
//!
//! The unverified shell loads these values from a configuration file and
//! the command line; the core only ever sees the finished struct: the
//! chain node endpoint, the database endpoint, and the logging choices.

use vstd::prelude::*;

verus! {

/// Where the chain node listens.
#[derive(Debug, Clone)]
pub struct EthereumNode {
    pub url: String,
}

/// Where the relational store listens.
#[derive(Debug, Clone)]
pub struct Database {
    pub url: String,
}

/// How to log: a level name, and a file path when not logging to
/// standard output.
#[derive(Debug, Clone)]
pub struct Logger {
    pub level: String,
    pub path: Option<String>,
}

/// Everything the shell hands the core at startup.
#[derive(Debug, Clone)]
pub struct Config {
    pub ethereum: EthereumNode,
    pub database: Database,
    pub logger: Logger,
}

} // verus!

//! The command line: what its arguments ask for.

pub mod args;
pub mod command;
pub mod number;
pub mod run;
pub mod serve;

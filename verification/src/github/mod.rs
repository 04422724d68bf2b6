//! The GitHub command line tool: what it is called with, and what its output
//! means.
pub mod checks;
pub mod cli;
pub mod created;
pub mod laws;
pub mod types;

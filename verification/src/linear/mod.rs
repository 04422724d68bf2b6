//! Linear: what is asked of its API, and what its answers mean.
pub mod client;
pub mod error;
pub mod laws;
pub mod service;
pub mod sweep;
pub mod types;

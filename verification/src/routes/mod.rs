//! The requests that the board answers.
pub mod board_v1;
pub mod laws;
pub mod linear;
pub mod remote;

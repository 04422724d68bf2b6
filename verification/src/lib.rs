//! A local kanban board that mirrors the status of its cards in Linear.
//!
//! The board is a set of tables ([`board`]): boards, columns, cards, and the
//! workspaces and pull requests that belong to cards. A card may be linked to a
//! Linear issue ([`linear`]). A card that is moved to another column is marked,
//! and the mirror ([`monitor`]) writes its state to Linear; issues of Linear come
//! in as cards. Nothing that the mirror itself writes marks a card, so that
//! nothing bounces between the two.
//!
//! Everything here computes: input and output, the clock and the network are the
//! caller's. What is asked of Linear and of the GitHub command line tool
//! ([`github`]) is built here, and what they answer is judged here; the caller
//! carries requests out and hands answers back.
pub mod api;
pub mod board;
pub mod config;
pub mod github;
pub mod ids;
pub mod json;
pub mod linear;
pub mod lists;
pub mod models;
pub mod monitor;
pub mod order;
pub mod routes;
pub mod string_map;
pub mod text;
pub mod time;

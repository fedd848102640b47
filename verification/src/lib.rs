//! Assigns Discord guilds to a limited pool of private bot instances, each
//! with a fixed capacity, and guarantees that no instance is ever
//! over-subscribed.
//!
//! The store (two tables: guild specifications and private bot instances) is
//! modelled in memory, so that the transaction retry executor and the
//! least-loaded allocator built on it can be verified end to end.  A shell
//! around this crate owns the chat protocol, the real database connection and
//! every other kind of input and output; it hands plain values in and takes
//! plain values back.

pub mod command;
pub mod db;
pub mod error;
pub mod model;
pub mod store;

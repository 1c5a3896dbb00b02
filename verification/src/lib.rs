//! Evaluating JavaScript modules in a pool of Node.js processes.
//!
//! The crate holds the decisions of an evaluation: how the pool is set up,
//! when a failed attempt to reach a worker is repeated, what is done with each
//! message that a worker sends, and what the caller gets back. It performs no
//! I/O. Every conversation with the outside world is a chain of states, each of
//! which takes the answer that it waits for and yields the next one.

pub mod bytes;
pub mod dir_dependency;
pub mod evaluate;
pub mod inner_assets;
pub mod issue;
pub mod message;
pub mod path;
pub mod pool;
pub mod pull;
pub mod retry;
pub mod stream;
pub mod text;

//! The single-writer session layer: one process owns a project at a time, and
//! everyone else either talks to that owner or waits for the write lock.
//!
//! - `protocol` is the wire contract's data: requests, responses, errors.
//! - `server` is what the owner decides about each request: version and token
//!   checks, and the replay history that makes a repeated request ID answer
//!   with its first response instead of being applied twice.
//! - `lock` decides each step of taking the exclusive write lock.
//! - `discovery` describes the session file an owner publishes.
//! - `client` decides what a dialling process makes of that file and of the
//!   owner's answers.

pub mod protocol;
pub mod server;
pub mod lock;
pub mod discovery;
pub mod client;

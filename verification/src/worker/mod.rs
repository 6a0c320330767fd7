//! The background worker: its messages and its decisions.
pub mod control;
pub mod message;

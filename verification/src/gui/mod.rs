//! The interactive session's state.
pub mod app;

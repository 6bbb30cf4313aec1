//! Tools for inspecting, mutating and persisting environment variables:
//! a validator for variable names, a similarity matcher for "did you mean"
//! suggestions, an in-memory variable store, a persistent rc-file backend
//! modelled as a pure rewrite of the file's text, and a full-screen
//! interactive editor expressed as a state machine over plain values.

pub mod commands;
pub mod env_ops;
pub mod interactive;
pub mod models;
pub mod similarity;
pub mod store;
pub mod text;
pub mod variables;
pub mod utils;

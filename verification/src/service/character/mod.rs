//! The character aggregate: its domain model, the repository port and its adapters.
pub mod adapter;
pub mod domain;
pub mod port;

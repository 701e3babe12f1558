//! Adapters implementing the character service's ports.
pub mod repository;

//! Ports through which the character service reaches the outside.
pub mod repository;

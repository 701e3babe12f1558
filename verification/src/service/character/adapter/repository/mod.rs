//! Repository adapters for characters.
pub mod glue;
pub mod lexical;
pub mod scan;
pub mod sql;

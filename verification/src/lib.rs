//! Core of the icale planner: the character domain model, the conversion of SQL
//! execution results into JSON rows, and the statement building and result
//! assembly of the GlueSQL character repository.

pub mod client;
pub mod glue;
pub mod service;
pub mod text;

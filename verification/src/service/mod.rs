//! Services of the application, one module per aggregate.
pub mod character;

//! The GlueSQL repository, as seen from the port.
pub use crate::service::character::adapter::repository::glue::{
    default_enabled, default_uri, Config, GlueRepository,
};

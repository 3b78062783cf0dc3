//! The periodic work that runs beside request handling.

pub mod cleanup;
pub mod limit;

//! Validation utilities shared by every component.

pub mod uuid;

//! An ephemeral capture store for inbound HTTP requests.
//!
//! Requests are recorded into named, time-bounded bins. Each bin keeps its
//! captures in insertion order under a count cap, expires after a window of
//! inactivity unless an observer is attached, and fans new captures out to
//! its live observers.
//!
//! - [`handlers`] holds the operations: create a bin, capture into it, list,
//!   clear and delete.
//! - [`store`] is the backing store they work on, [`payload`] the stored form
//!   of headers and bodies, [`utils`] the identifiers.
//! - [`websocket`] is the broadcast hub, [`tasks`] the eviction sweep and the
//!   admission controller.
//! - [`guarantees`] states what holds when the operations are combined.
//!
//! Time is a parameter: every operation that records or compares a time takes
//! `now`, in milliseconds since the Unix epoch.

pub mod config;
pub mod error;
pub mod guarantees;
pub mod handlers;
pub mod models;
pub mod payload;
pub mod seq_lemmas;
pub mod state;
pub mod store;
pub mod tasks;
pub mod utils;
pub mod websocket;

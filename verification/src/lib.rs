//! A local activity aggregator: events and captured text are buffered,
//! committed to a store in batches, validated against registered schemas,
//! and aged out by retention policies.
//!
//! The store is modelled as the sequences of its rows. Everything that is
//! decided here is decided on plain values: the time is handed in, and
//! summaries of long texts are handed in together with the batch that they
//! belong to.

pub mod batch;
pub mod catalog;
pub mod decimal;
pub mod health;
pub mod json;
pub mod model;
pub mod partition;
pub mod pipeline;
pub mod registry;
pub mod retention;
pub mod retention_laws;
pub mod schema;
pub mod service;
pub mod store;
pub mod text;

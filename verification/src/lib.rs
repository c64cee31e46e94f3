//! Core of a reconciliation-task management service.
//!
//! Clients create a reconciliation task (a comparison job between a primary
//! and a comparison data file), attach file metadata to it, and fetch its
//! current state.  All durable state lives in an external key-value store;
//! this crate holds the verified orchestration layer: request validation,
//! identifier generation, record construction, the byte encoding of stored
//! records, and the multi-record workflows that coordinate the store
//! adapters.

pub mod aggregator;
pub mod app_errors;
pub mod codec;
pub mod models;
pub mod requests;
pub mod repositories;
pub mod responses;
pub mod settings;
pub mod store;
pub mod transformer;

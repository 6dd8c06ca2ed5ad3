//! Offline-first local data layer for a desktop application.
//!
//! The library keeps an embedded relational store as the source of truth
//! on-device, reconciles it with a remote service when connectivity allows,
//! and manages retrieval and caching of large external content assets
//! referenced by identifier and URL.

pub mod cache;
pub mod checksum;
pub mod clock;
pub mod connectivity;
pub mod errors;
pub mod envelope;
pub mod paths;
pub mod store;
pub mod sync;

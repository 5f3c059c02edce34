//! Core logic of a small backend service: environment-derived configuration,
//! secret-store credential bootstrap with a fallback policy, database
//! connection parameters, a certificate-change watcher state machine, and the
//! bodies of the HTTP endpoints.
//!
//! Everything here is plain computation on plain values; the surrounding
//! process (environment reads, network calls, the HTTP listener) lives in a
//! separate binary that feeds values in and carries results out.

pub mod config;
pub mod credentials;
pub mod db_params;
pub mod http_api;
pub mod payload;
pub mod timestamp;
pub mod watcher;

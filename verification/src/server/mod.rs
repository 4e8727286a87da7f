//! Decisions of the HTTP layer: status codes, cookies and request checks.
pub mod auth;
pub mod error;
pub mod instance;

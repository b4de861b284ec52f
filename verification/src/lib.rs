//! A verified core for a minimal todo-list application.
//!
//! The library models the todo store (a single table of identified, named,
//! completion-flagged tasks), the service operations over it (list, create,
//! delete, update-completion, CORS preflight), the client-side mirror of the
//! list, and the JSON wire format of the responses. All I/O — the HTTP
//! server, the database, the browser — stays outside, in ordinary Rust that
//! hands the library plain values.

pub mod client;
pub mod json;
pub mod laws;
pub mod service;
pub mod store;
pub mod todo;

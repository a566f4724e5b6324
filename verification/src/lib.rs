//! Session-token authentication for a multi-user messaging service.
//!
//! The crate covers the session-token lifecycle: issuance of opaque bearer
//! tokens on login, validation on every protected request, explicit
//! invalidation on logout, and passive expiry of stale sessions, together
//! with the request-authentication policy built on top of the registry.

pub mod clock;
pub mod custom_types;
pub mod extract;
pub mod laws;
pub mod middleware;
pub mod parse;
pub mod store;
pub mod token;

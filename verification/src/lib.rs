//! Control plane for a per-stack sentinel: it turns declared functions, each
//! packaged as a container image, into demand-scaled HTTP endpoints.  The
//! request path wakes the function's container, waits for its health
//! endpoint, records a lease in a durable session store, and proxies the
//! request; a background reaper stops containers whose lease has expired.
//!
//! This crate holds the verified core: route dispatch, the wake state
//! machine, lease arithmetic, the session codec and store, and the expiry
//! sweep.  The unverifiable edges (HTTP serving, the container daemon, the
//! probe loop) live outside and drive this crate through its contracts.

pub mod codec;
pub mod config;
pub mod coordinator;
pub mod driver;
pub mod errors;
pub mod probe;
pub mod reaper;
pub mod routes;
pub mod session;
pub mod store;
pub mod text;
pub mod time;

pub use errors::SentinelError;
pub use session::Session;

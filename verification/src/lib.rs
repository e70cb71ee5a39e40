//! The core of a TLS-terminating CONNECT proxy, written without any I/O of
//! its own.
//!
//! The crate holds the decisions of the proxy and leaves the network to
//! whoever drives it. The driver performs an operation, reports what came of
//! it, and is told what to do next:
//!
//! - [`supervisor`] takes one client connection from the handshake to its
//!   outcome;
//! - [`validator`] decides which destinations a client may reach;
//! - [`tunnel`] and [`relay`] copy bytes between the client and the
//!   destination, one relay per direction, and count them;
//! - [`request`] parses the request line and gives the status responses.

pub mod relay;
pub mod request;
pub mod supervisor;
pub mod tunnel;
pub mod validator;

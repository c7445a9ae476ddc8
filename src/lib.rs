//! A TLS-terminating CONNECT proxy: the per-session decisions, verified.
//!
//! The library frames a client's request, parses its CONNECT line, checks
//! its Basic credentials and decides, event by event, what a session does
//! next. It also forms the server's identity from PEM text. Sockets, TLS
//! and the byte relay are driven by the caller.

pub mod scan;
pub mod request;
pub mod auth;
pub mod connect;
pub mod session;
pub mod laws;
pub mod identity;

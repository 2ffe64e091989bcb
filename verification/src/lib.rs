//! An HTTP gateway library: for each inbound request matching a configured
//! listener, requests are issued to a set of upstream targets and a single
//! response is produced according to a configured selection strategy.
//!
//! The crate holds the gateway's logic: the hierarchical substitution
//! context, the `${VAR}` template engine, the header transform pipeline, the
//! condition evaluator, the response builder with its selection strategies,
//! the per-target request construction, the HTTPS client cache, and the
//! configuration model with its validation rules.  The surrounding I/O
//! (sockets, TLS handshakes, the async runtime) lives outside the library and
//! hands it plain values.

pub mod cache;
pub mod cli;
pub mod config;
pub mod context;
pub mod errors;
pub mod handler;
pub mod listener;
pub mod regexes;
pub mod template;
pub mod text;

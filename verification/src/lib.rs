//! A verified tool-dispatch gateway: a small registry of named text tools
//! (grammar check, spellcheck, greeting) exposed through a JSON-RPC style
//! envelope, with a bounded-retry policy for the remote-backed tools.
//!
//! The library owns every decision the gateway makes: the JSON wire codec,
//! envelope parsing and method dispatch, registry lookup, argument
//! validation, upstream response normalization, and the retry/backoff
//! policy.  Network transport (HTTP, standard streams) stays outside; the
//! callers hand outcomes of remote calls back into the library as plain
//! values.

pub mod cli;
pub mod config;
pub mod dispatch;
pub mod error;
pub mod gaelspell;
pub mod gramadoir;
pub mod headers;
pub mod json;
pub mod json_parse;
pub mod json_ser;
pub mod registry;
pub mod remote;
pub mod retry;
pub mod rpc;
pub mod session;
pub mod text;
pub mod tool;

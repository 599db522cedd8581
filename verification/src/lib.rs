//! Routing and protocol-translation core of a local AI gateway.
//!
//! The crate holds the decisions of the gateway as plain functions over
//! plain values: who may call, which upstream serves a model, whether the
//! upstream is currently trusted, and how a body is reshaped between wire
//! protocols. Beside them stand the decisions of the desktop shell around
//! the gateway: its commands, its plain HTTP endpoints and its video
//! downloads. Nothing here reads a clock, a file or a socket; whoever calls
//! hands in what was read and carries out what was decided.
//!
//! - `circuit`: the breaker of each channel.
//! - `store`: tokens, channels, keys and model mappings as they are read.
//! - `rules`: templates, their paths, and the registry of compiled rules.
//! - `dispatch`: the way of a request, before and after the upstream call.
//! - `json`, `pattern`, `text`: documents, regular expressions and strings.
//! - `commands`, `server`, `video`: what the shell decides.

pub mod circuit;
pub mod commands;
pub mod dispatch;
pub mod error;
pub mod format;
pub mod json;
pub mod pattern;
pub mod rules;
pub mod server;
pub mod store;
pub mod text;
pub mod video;

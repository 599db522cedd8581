//! The dispatcher: what becomes of a request, step by step.
//!
//! The dispatcher decides and does not wait: it is handed what was read
//! from the store and what the upstream answered, and says what to send,
//! what to record and what to charge.

pub mod route;
pub mod envelope;
pub mod settle;
pub mod pipeline;
pub mod log;
pub mod upstream;
pub mod stream;

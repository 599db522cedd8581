//! What the HTTP surface of the gateway decides, apart from serving.

pub mod router;

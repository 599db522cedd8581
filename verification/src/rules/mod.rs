//! Conversion rules: templates that reshape a body from one wire protocol
//! into another.

pub mod path;
pub mod registry;
pub mod renaming;
pub mod rule;
pub mod system;
pub mod template;

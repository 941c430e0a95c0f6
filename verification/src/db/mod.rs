//! The first central-repository database: clusters with their example
//! event ids encoded in MessagePack.

pub mod clusters;
pub mod error;
pub mod models;

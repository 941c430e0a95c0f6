//! The HTTP client mode of REview.

pub mod error;
pub mod models;

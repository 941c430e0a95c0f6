//! The database side of reviewd.

pub mod cluster;
pub mod error;
pub mod outlier;

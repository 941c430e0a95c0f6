//! reviewd, the HTTP service in front of the central cluster database.

pub mod database;

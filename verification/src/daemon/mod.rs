//! The older daemon that serves the event, status and qualifier tables of
//! a SQLite database over HTTP.

pub mod api_service;

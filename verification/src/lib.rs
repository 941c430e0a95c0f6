//! Verified core of the REview service: query building, request routing,
//! cluster bookkeeping and time-series preparation, with the I/O left to
//! the surrounding application.

pub mod api_service;
pub mod cli;
pub mod client;
pub mod cluster;
pub mod daemon;
pub mod database;
pub mod db;
pub mod error;
pub mod event;
pub mod reviewd;
pub mod web;
pub mod etcd;
pub mod examples;
pub mod filter;
pub mod init;
pub mod kafka_consumer;
pub mod text;
pub mod views;

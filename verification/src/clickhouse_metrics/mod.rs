//! Delivering metrics to ClickHouse.
pub mod config;
pub mod errors;
pub mod service;
pub mod sink;

//! Caching, configuration, counters and persistence.

pub mod alert;
pub mod cache;
pub mod config;
pub mod db;
pub mod digest;
pub mod metrics;
pub mod verification;

//! Downloading pieces and serving reads from them.
pub mod manager;
pub mod range;
pub mod read;
pub mod types;
pub mod wait;

//! The filesystem tree and the operations on it.

pub mod data_laws;
pub mod errno;
pub mod fs_service;
pub mod fs_types;
pub mod inodes;
pub mod laws;
pub mod lookup;
pub mod metadata_laws;
pub mod numbers;
pub mod paths;
pub mod service_laws;
pub mod shares;
pub mod stats;
pub mod stats_laws;
pub mod worker_pool;

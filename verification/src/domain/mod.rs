//! The data model: torrents, errors and pieces.

pub mod error;
pub mod fs_error;
pub mod piece_key;
pub mod pieces_manager;
pub mod types;

//! torrentfs: a filesystem view of a collection of torrents.

pub mod domain;
pub mod download;
pub mod fuse;
pub mod infrastructure;
pub mod table;
pub mod text;

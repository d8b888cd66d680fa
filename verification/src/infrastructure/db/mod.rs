//! What the catalogue of torrents stores: the rules that its statements follow.
pub mod counts;
pub mod file_tree;
pub mod metadata;
pub mod migrations;

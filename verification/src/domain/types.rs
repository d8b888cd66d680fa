//! Rows of the torrent catalogue.

use vstd::prelude::*;

use crate::text;

verus! {

/// A failure of the catalogue. The text of a failure of the storage engine is the engine's own.
#[derive(Debug)]
pub enum DbError {
    Sqlite(String),
    SourcePathExists(String),
    Migration(String),
}

impl DbError {
    pub open spec fn message(&self) -> Seq<char> {
        match *self {
            DbError::Sqlite(m) => "database error: "@ + m@,
            DbError::SourcePathExists(p) => "torrent with source_path already exists: "@ + p@,
            DbError::Migration(m) => "migration error: "@ + m@,
        }
    }

    /// The error as a line of text.
    pub fn to_text(&self) -> (r: String)
        ensures
            r@ == self.message(),
    {
        match self {
            DbError::Sqlite(m) => text::concat2("database error: ", m.as_str()),
            DbError::SourcePathExists(p) => text::concat2(
                "torrent with source_path already exists: ",
                p.as_str(),
            ),
            DbError::Migration(m) => text::concat2("migration error: ", m.as_str()),
        }
    }
}

#[derive(Debug, Clone, Copy, PartialEq, Eq, Structural)]
pub enum TorrentStatus {
    Pending,
    Downloading,
    Seeding,
    Error,
}

impl TorrentStatus {
    /// The word for a status in the catalogue.
    pub open spec fn word(self) -> Seq<char> {
        match self {
            TorrentStatus::Pending => "pending"@,
            TorrentStatus::Downloading => "downloading"@,
            TorrentStatus::Seeding => "seeding"@,
            TorrentStatus::Error => "error"@,
        }
    }

    /// The status that a word of the catalogue stands for; an unknown word is `Pending`.
    pub open spec fn of_word(s: Seq<char>) -> TorrentStatus {
        if s == "downloading"@ {
            TorrentStatus::Downloading
        } else if s == "seeding"@ {
            TorrentStatus::Seeding
        } else if s == "error"@ {
            TorrentStatus::Error
        } else {
            TorrentStatus::Pending
        }
    }

    pub fn as_str(&self) -> (r: &'static str)
        ensures
            r@ == self.word(),
    {
        match self {
            TorrentStatus::Pending => "pending",
            TorrentStatus::Downloading => "downloading",
            TorrentStatus::Seeding => "seeding",
            TorrentStatus::Error => "error",
        }
    }
}

/// The words for the statuses are told apart.
proof fn status_words_differ()
    ensures
        "pending"@ != "downloading"@,
        "pending"@ != "seeding"@,
        "pending"@ != "error"@,
        "downloading"@ != "seeding"@,
        "downloading"@ != "error"@,
        "seeding"@ != "error"@,
{
    reveal_strlit("pending");
    reveal_strlit("downloading");
    reveal_strlit("seeding");
    reveal_strlit("error");
    assert("pending"@[0] != "seeding"@[0]);
    assert("downloading"@.len() == 11 && "error"@.len() == 5);
}

/// Reading the word for a status gives the status back.
pub proof fn status_word_round_trip(s: TorrentStatus)
    ensures
        TorrentStatus::of_word(s.word()) == s,
{
    status_words_differ();
}

impl<'a> vstd::std_specs::convert::FromSpecImpl<&'a str> for TorrentStatus {
    open spec fn obeys_from_spec() -> bool {
        true
    }

    open spec fn from_spec(s: &'a str) -> TorrentStatus {
        TorrentStatus::of_word(s@)
    }
}

impl<'a> From<&'a str> for TorrentStatus {
    fn from(s: &'a str) -> TorrentStatus {
        if text::same(s, "downloading") {
            TorrentStatus::Downloading
        } else if text::same(s, "seeding") {
            TorrentStatus::Seeding
        } else if text::same(s, "error") {
            TorrentStatus::Error
        } else {
            TorrentStatus::Pending
        }
    }
}

impl vstd::std_specs::convert::FromSpecImpl<String> for TorrentStatus {
    open spec fn obeys_from_spec() -> bool {
        true
    }

    open spec fn from_spec(s: String) -> TorrentStatus {
        TorrentStatus::of_word(s@)
    }
}

impl From<String> for TorrentStatus {
    fn from(s: String) -> TorrentStatus {
        TorrentStatus::from(s.as_str())
    }
}

#[derive(Debug, Clone)]
pub struct Torrent {
    pub id: i64,
    pub source_path: String,
    pub name: String,
    pub filename: String,
    pub total_size: i64,
    pub info_hash: String,
    pub file_count: i64,
    pub status: TorrentStatus,
    pub torrent_data: Option<Vec<u8>>,
    pub resume_data: Option<Vec<u8>>,
    pub created_at: String,
}

#[derive(Debug, Clone)]
pub struct TorrentFile {
    pub id: i64,
    pub torrent_id: i64,
    pub directory_id: Option<i64>,
    pub name: String,
    pub path: String,
    pub size: i64,
    pub first_piece: i64,
    pub last_piece: i64,
    pub piece_start: Option<i64>,
    pub piece_end: Option<i64>,
}

#[derive(Debug, Clone)]
pub struct TorrentDirectory {
    pub id: i64,
    pub torrent_id: i64,
    pub parent_id: Option<i64>,
    pub name: String,
}

#[derive(Debug, Clone, Copy, PartialEq, Eq, Structural)]
pub enum InsertTorrentResult {
    Inserted(i64),
    Duplicate(i64),
}

pub struct FileEntry {
    pub path: String,
    pub size: i64,
}

} // verus!

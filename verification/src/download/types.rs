//! What the BitTorrent session reports.

use vstd::prelude::*;

verus! {

#[derive(Debug, Clone, Copy, PartialEq, Eq, Structural)]
pub struct SessionStats {
    pub download_rate: i64,
    pub upload_rate: i64,
    pub total_downloaded: i64,
    pub total_uploaded: i64,
    pub dht_nodes: i32,
    pub peers_connected: i32,
    pub half_open_connections: i32,
}

impl SessionStats {
    /// A session of which nothing is known yet.
    pub open spec fn idle() -> SessionStats {
        SessionStats {
            download_rate: 0,
            upload_rate: 0,
            total_downloaded: 0,
            total_uploaded: 0,
            dht_nodes: 0,
            peers_connected: 0,
            half_open_connections: 0,
        }
    }
}

impl Default for SessionStats {
    fn default() -> (r: Self)
        ensures
            r == SessionStats::idle(),
    {
        SessionStats {
            download_rate: 0,
            upload_rate: 0,
            total_downloaded: 0,
            total_uploaded: 0,
            dht_nodes: 0,
            peers_connected: 0,
            half_open_connections: 0,
        }
    }
}

/// What the session reports of one torrent.
#[derive(Debug, Clone, Copy, PartialEq, Eq, Structural)]
pub struct TorrentActivity {
    pub total_done: u64,
    pub total: u64,
    pub download_rate: i64,
    pub upload_rate: i64,
    pub total_download: i64,
    pub total_upload: i64,
    pub num_peers: i32,
    pub num_seeds: i32,
}

impl TorrentActivity {
    /// A torrent of which nothing is known.
    pub open spec fn idle() -> TorrentActivity {
        TorrentActivity {
            total_done: 0,
            total: 0,
            download_rate: 0,
            upload_rate: 0,
            total_download: 0,
            total_upload: 0,
            num_peers: 0,
            num_seeds: 0,
        }
    }
}

impl Default for TorrentActivity {
    fn default() -> (r: Self)
        ensures
            r == TorrentActivity::idle(),
    {
        TorrentActivity {
            total_done: 0,
            total: 0,
            download_rate: 0,
            upload_rate: 0,
            total_download: 0,
            total_upload: 0,
            num_peers: 0,
            num_seeds: 0,
        }
    }
}

/// How much a piece is wanted, whether it is in the cache, and how often it was read from there.
#[derive(Debug, Clone, Copy, PartialEq, Eq, Structural)]
pub struct PieceStatus {
    pub priority: i32,
    pub is_cached: bool,
    pub hit_count: u64,
}

#[derive(Debug, Clone, Copy, PartialEq, Eq, Structural)]
pub enum TorrentState {
    QueuedForChecking,
    CheckingFiles,
    DownloadingMetadata,
    Downloading,
    Finished,
    Seeding,
    Allocating,
    CheckingResumeData,
    Unknown,
}

impl TorrentState {
    /// The state that a number of the session stands for.
    pub open spec fn of_number(value: int) -> TorrentState {
        if value == 0 {
            TorrentState::QueuedForChecking
        } else if value == 1 {
            TorrentState::CheckingFiles
        } else if value == 2 {
            TorrentState::DownloadingMetadata
        } else if value == 3 {
            TorrentState::Downloading
        } else if value == 4 {
            TorrentState::Finished
        } else if value == 5 {
            TorrentState::Seeding
        } else if value == 6 {
            TorrentState::Allocating
        } else if value == 7 {
            TorrentState::CheckingResumeData
        } else {
            TorrentState::Unknown
        }
    }

    pub open spec fn spelled(self) -> Seq<char> {
        match self {
            TorrentState::QueuedForChecking => "QueuedForChecking"@,
            TorrentState::CheckingFiles => "CheckingFiles"@,
            TorrentState::DownloadingMetadata => "DownloadingMetadata"@,
            TorrentState::Downloading => "Downloading"@,
            TorrentState::Finished => "Finished"@,
            TorrentState::Seeding => "Seeding"@,
            TorrentState::Allocating => "Allocating"@,
            TorrentState::CheckingResumeData => "CheckingResumeData"@,
            TorrentState::Unknown => "Unknown"@,
        }
    }

    /// The state's name.
    pub fn name(self) -> (r: &'static str)
        ensures
            r@ == self.spelled(),
    {
        match self {
            TorrentState::QueuedForChecking => "QueuedForChecking",
            TorrentState::CheckingFiles => "CheckingFiles",
            TorrentState::DownloadingMetadata => "DownloadingMetadata",
            TorrentState::Downloading => "Downloading",
            TorrentState::Finished => "Finished",
            TorrentState::Seeding => "Seeding",
            TorrentState::Allocating => "Allocating",
            TorrentState::CheckingResumeData => "CheckingResumeData",
            TorrentState::Unknown => "Unknown",
        }
    }

    /// The torrent's files are still being looked through.
    pub open spec fn unsettled(self) -> bool {
        self is QueuedForChecking || self is CheckingFiles || self is Allocating
            || self is CheckingResumeData
    }

    pub fn is_unsettled(self) -> (r: bool)
        ensures
            r == self.unsettled(),
    {
        matches!(
            self,
            TorrentState::QueuedForChecking | TorrentState::CheckingFiles
                | TorrentState::Allocating | TorrentState::CheckingResumeData
        )
    }
}

impl vstd::std_specs::convert::FromSpecImpl<i32> for TorrentState {
    open spec fn obeys_from_spec() -> bool {
        true
    }

    open spec fn from_spec(value: i32) -> TorrentState {
        TorrentState::of_number(value as int)
    }
}

impl From<i32> for TorrentState {
    fn from(value: i32) -> TorrentState {
        match value {
            0 => TorrentState::QueuedForChecking,
            1 => TorrentState::CheckingFiles,
            2 => TorrentState::DownloadingMetadata,
            3 => TorrentState::Downloading,
            4 => TorrentState::Finished,
            5 => TorrentState::Seeding,
            6 => TorrentState::Allocating,
            7 => TorrentState::CheckingResumeData,
            _ => TorrentState::Unknown,
        }
    }
}

} // verus!

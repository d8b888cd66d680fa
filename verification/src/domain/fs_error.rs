//! The error type of the filesystem operations.

use vstd::prelude::*;

use super::error::TorrentError;
use super::types::DbError;
use crate::text;

verus! {

#[derive(Debug, PartialEq, Eq)]
pub enum FsError {
    // Paths and names.
    NotFound,
    NotDirectory,
    IsDirectory,
    AlreadyExists,
    DirectoryNotEmpty,
    StaleHandle,
    // Permissions.
    PermissionDenied,
    ReadOnlyFileSystem,
    NotPermitted,
    // Arguments.
    InvalidArgument,
    FileTooLarge(String),
    NameTooLong,
    // Integrity of the data.
    CorruptTorrent(String),
    CorruptPiece(String),
    // The catalogue.
    Database(String),
    Migration(String),
    // The swarm.
    NoPeers(String),
    PieceNotReady(String),
    DownloadTimeout(String),
    DownloadFailed(String),
    // The process and the machine.
    Io(String),
    NoSpace(String),
    OutOfMemory(String),
    Internal(String),
    LockPoisoned,
}

pub type FsResult<T> = Result<T, FsError>;

impl FsError {
    pub open spec fn message(&self) -> Seq<char> {
        match *self {
            FsError::NotFound => "not found"@,
            FsError::NotDirectory => "not a directory"@,
            FsError::IsDirectory => "is a directory"@,
            FsError::AlreadyExists => "already exists"@,
            FsError::DirectoryNotEmpty => "directory not empty"@,
            FsError::StaleHandle => "stale file handle"@,
            FsError::PermissionDenied => "permission denied"@,
            FsError::ReadOnlyFileSystem => "read-only file system"@,
            FsError::NotPermitted => "operation not permitted"@,
            FsError::InvalidArgument => "invalid argument"@,
            FsError::FileTooLarge(m) => "file too large: "@ + m@,
            FsError::NameTooLong => "name too long"@,
            FsError::CorruptTorrent(m) => "corrupt torrent: "@ + m@,
            FsError::CorruptPiece(m) => "corrupt piece: "@ + m@,
            FsError::Database(m) => "database error: "@ + m@,
            FsError::Migration(m) => "migration error: "@ + m@,
            FsError::NoPeers(m) => "no peers available: "@ + m@,
            FsError::PieceNotReady(m) => "piece not ready: "@ + m@,
            FsError::DownloadTimeout(m) => "download timeout: "@ + m@,
            FsError::DownloadFailed(m) => "download failed: "@ + m@,
            FsError::Io(m) => "io error: "@ + m@,
            FsError::NoSpace(m) => "no space left on device: "@ + m@,
            FsError::OutOfMemory(m) => "out of memory: "@ + m@,
            FsError::Internal(m) => "internal error: "@ + m@,
            FsError::LockPoisoned => "lock poisoned"@,
        }
    }

    /// The error as a line of text.
    pub fn to_text(&self) -> (r: String)
        ensures
            r@ == self.message(),
    {
        match self {
            FsError::NotFound => "not found".to_owned(),
            FsError::NotDirectory => "not a directory".to_owned(),
            FsError::IsDirectory => "is a directory".to_owned(),
            FsError::AlreadyExists => "already exists".to_owned(),
            FsError::DirectoryNotEmpty => "directory not empty".to_owned(),
            FsError::StaleHandle => "stale file handle".to_owned(),
            FsError::PermissionDenied => "permission denied".to_owned(),
            FsError::ReadOnlyFileSystem => "read-only file system".to_owned(),
            FsError::NotPermitted => "operation not permitted".to_owned(),
            FsError::InvalidArgument => "invalid argument".to_owned(),
            FsError::FileTooLarge(m) => text::concat2("file too large: ", m.as_str()),
            FsError::NameTooLong => "name too long".to_owned(),
            FsError::CorruptTorrent(m) => text::concat2("corrupt torrent: ", m.as_str()),
            FsError::CorruptPiece(m) => text::concat2("corrupt piece: ", m.as_str()),
            FsError::Database(m) => text::concat2("database error: ", m.as_str()),
            FsError::Migration(m) => text::concat2("migration error: ", m.as_str()),
            FsError::NoPeers(m) => text::concat2("no peers available: ", m.as_str()),
            FsError::PieceNotReady(m) => text::concat2("piece not ready: ", m.as_str()),
            FsError::DownloadTimeout(m) => text::concat2("download timeout: ", m.as_str()),
            FsError::DownloadFailed(m) => text::concat2("download failed: ", m.as_str()),
            FsError::Io(m) => text::concat2("io error: ", m.as_str()),
            FsError::NoSpace(m) => text::concat2("no space left on device: ", m.as_str()),
            FsError::OutOfMemory(m) => text::concat2("out of memory: ", m.as_str()),
            FsError::Internal(m) => text::concat2("internal error: ", m.as_str()),
            FsError::LockPoisoned => "lock poisoned".to_owned(),
        }
    }
}

/// `r` is the filesystem error for a failure of the catalogue.
pub open spec fn stands_for_db_error(e: DbError, r: FsError) -> bool {
    match e {
        DbError::Sqlite(m) => r matches FsError::Database(t) && t@ == m@,
        DbError::SourcePathExists(_) => r is AlreadyExists,
        DbError::Migration(m) => r matches FsError::Migration(t) && t@ == m@,
    }
}

impl vstd::std_specs::convert::FromSpecImpl<DbError> for FsError {
    open spec fn obeys_from_spec() -> bool {
        true
    }

    open spec fn from_spec(e: DbError) -> FsError {
        match e {
            DbError::Sqlite(m) => FsError::Database(m),
            DbError::SourcePathExists(_) => FsError::AlreadyExists,
            DbError::Migration(m) => FsError::Migration(m),
        }
    }
}

/// A failure of the catalogue as a filesystem error.
impl From<DbError> for FsError {
    fn from(e: DbError) -> (r: FsError)
        ensures
            stands_for_db_error(e, r),
    {
        match e {
            DbError::Sqlite(m) => FsError::Database(m),
            DbError::SourcePathExists(_) => FsError::AlreadyExists,
            DbError::Migration(m) => FsError::Migration(m),
        }
    }
}

/// `r` is the filesystem error for a failure of the BitTorrent side.
pub open spec fn stands_for_torrent_error(e: TorrentError, r: FsError) -> bool {
    match e {
        TorrentError::InvalidFile(m) => r matches FsError::CorruptTorrent(t) && t@ == m@,
        TorrentError::ParseError(m) => r matches FsError::CorruptTorrent(t) && t@ == m@,
        TorrentError::IoError(m) => r matches FsError::Io(t) && t@ == m@,
        TorrentError::NullPointer => r matches FsError::Internal(t) && t@ == "null pointer"@,
        TorrentError::NoPeers(m) => r matches FsError::NoPeers(t) && t@ == m@,
        TorrentError::PieceNotReady(m) => r matches FsError::PieceNotReady(t) && t@ == m@,
        TorrentError::Timeout(m) => r matches FsError::DownloadTimeout(t) && t@ == m@,
        TorrentError::Unknown { code, message } => r matches FsError::DownloadFailed(t) && t@
            == "code "@ + text::dec_signed(code as int) + ": "@ + message@,
    }
}

impl vstd::std_specs::convert::FromSpecImpl<TorrentError> for FsError {
    open spec fn obeys_from_spec() -> bool {
        false
    }

    open spec fn from_spec(e: TorrentError) -> FsError {
        vstd::pervasive::arbitrary()
    }
}

/// A failure of the BitTorrent side as a filesystem error.
impl From<TorrentError> for FsError {
    fn from(e: TorrentError) -> (r: FsError)
        ensures
            stands_for_torrent_error(e, r),
    {
        match e {
            TorrentError::InvalidFile(m) => FsError::CorruptTorrent(m),
            TorrentError::ParseError(m) => FsError::CorruptTorrent(m),
            TorrentError::IoError(m) => FsError::Io(m),
            TorrentError::NullPointer => FsError::Internal("null pointer".to_owned()),
            TorrentError::NoPeers(m) => FsError::NoPeers(m),
            TorrentError::PieceNotReady(m) => FsError::PieceNotReady(m),
            TorrentError::Timeout(m) => FsError::DownloadTimeout(m),
            TorrentError::Unknown { code, message } => {
                let mut text = text::concat3(
                    "code ",
                    text::decimal_signed(code as i64).as_str(),
                    ": ",
                );
                text.append(message.as_str());
                FsError::DownloadFailed(text)
            },
        }
    }
}

/// What failed on the BitTorrent side is the same failure for the filesystem: what may pass by itself
/// still may, a bad file is a bad torrent, and the reason is told on.
pub proof fn failure_keeps_its_meaning(e: TorrentError, r: FsError)
    requires
        stands_for_torrent_error(e, r),
    ensures
        e is NoPeers <==> r is NoPeers,
        e is PieceNotReady <==> r is PieceNotReady,
        e is Timeout <==> r is DownloadTimeout,
        e is IoError <==> r is Io,
        e is InvalidFile || e is ParseError <==> r is CorruptTorrent,
        e is NullPointer <==> r is Internal,
        e is Unknown <==> r is DownloadFailed,
        e matches TorrentError::NoPeers(m) ==> r->NoPeers_0@ == m@,
        e matches TorrentError::PieceNotReady(m) ==> r->PieceNotReady_0@ == m@,
        e matches TorrentError::Timeout(m) ==> r->DownloadTimeout_0@ == m@,
        e matches TorrentError::IoError(m) ==> r->Io_0@ == m@,
        e matches TorrentError::InvalidFile(m) ==> r->CorruptTorrent_0@ == m@,
        e matches TorrentError::ParseError(m) ==> r->CorruptTorrent_0@ == m@,
        e matches TorrentError::Unknown { message, .. } ==> r->DownloadFailed_0@.skip(
            r->DownloadFailed_0@.len() - message@.len(),
        ) == message@,
{
    if let TorrentError::Unknown { message, .. } = e {
        let t = r->DownloadFailed_0@;
        assert(t.skip(t.len() - message@.len()) =~= message@);
    }
}

/// The line of an error ends in the reason that came with it.
pub proof fn line_ends_in_the_reason(e: FsError)
    ensures
        e matches FsError::FileTooLarge(m) ==> text::ends(e.message(), m@),
        e matches FsError::CorruptTorrent(m) ==> text::ends(e.message(), m@),
        e matches FsError::CorruptPiece(m) ==> text::ends(e.message(), m@),
        e matches FsError::Database(m) ==> text::ends(e.message(), m@),
        e matches FsError::Migration(m) ==> text::ends(e.message(), m@),
        e matches FsError::NoPeers(m) ==> text::ends(e.message(), m@),
        e matches FsError::PieceNotReady(m) ==> text::ends(e.message(), m@),
        e matches FsError::DownloadTimeout(m) ==> text::ends(e.message(), m@),
        e matches FsError::DownloadFailed(m) ==> text::ends(e.message(), m@),
        e matches FsError::Io(m) ==> text::ends(e.message(), m@),
        e matches FsError::NoSpace(m) ==> text::ends(e.message(), m@),
        e matches FsError::OutOfMemory(m) ==> text::ends(e.message(), m@),
        e matches FsError::Internal(m) ==> text::ends(e.message(), m@),
{
    let none = Seq::<char>::empty();
    match e {
        FsError::FileTooLarge(m) => {
            text::joined_text_holds_its_parts("file too large: "@, m@, none);
        },
        FsError::CorruptTorrent(m) => {
            text::joined_text_holds_its_parts("corrupt torrent: "@, m@, none);
        },
        FsError::CorruptPiece(m) => {
            text::joined_text_holds_its_parts("corrupt piece: "@, m@, none);
        },
        FsError::Database(m) => {
            text::joined_text_holds_its_parts("database error: "@, m@, none);
        },
        FsError::Migration(m) => {
            text::joined_text_holds_its_parts("migration error: "@, m@, none);
        },
        FsError::NoPeers(m) => {
            text::joined_text_holds_its_parts("no peers available: "@, m@, none);
        },
        FsError::PieceNotReady(m) => {
            text::joined_text_holds_its_parts("piece not ready: "@, m@, none);
        },
        FsError::DownloadTimeout(m) => {
            text::joined_text_holds_its_parts("download timeout: "@, m@, none);
        },
        FsError::DownloadFailed(m) => {
            text::joined_text_holds_its_parts("download failed: "@, m@, none);
        },
        FsError::Io(m) => {
            text::joined_text_holds_its_parts("io error: "@, m@, none);
        },
        FsError::NoSpace(m) => {
            text::joined_text_holds_its_parts("no space left on device: "@, m@, none);
        },
        FsError::OutOfMemory(m) => {
            text::joined_text_holds_its_parts("out of memory: "@, m@, none);
        },
        FsError::Internal(m) => {
            text::joined_text_holds_its_parts("internal error: "@, m@, none);
        },
        _ => {},
    }
}

} // verus!

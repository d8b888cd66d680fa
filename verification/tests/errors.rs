//! Errors: which of them pass, what they are called and what they become.

use torrentfs::domain::error::{
    check_code, classify_failure, error_for_class, error_from_c, is_transient_read_error,
    FailureClass, LibtorrentFailure, TorrentError,
};
use torrentfs::domain::fs_error::FsError;
use torrentfs::domain::types::DbError;
use torrentfs::fuse::errno::Errno;

// is_transient()

#[test]
fn test_is_transient_true_for_no_peers() {
    assert!(TorrentError::NoPeers("no peers".into()).is_transient());
}

#[test]
fn test_is_transient_true_for_piece_not_ready() {
    assert!(TorrentError::PieceNotReady("piece 0".into()).is_transient());
}

#[test]
fn test_is_transient_true_for_timeout() {
    assert!(TorrentError::Timeout("timed out".into()).is_transient());
}

#[test]
fn test_is_transient_false_for_invalid_file() {
    assert!(!TorrentError::InvalidFile("bad file".into()).is_transient());
}

#[test]
fn test_is_transient_false_for_parse_error() {
    assert!(!TorrentError::ParseError("bad parse".into()).is_transient());
}

#[test]
fn test_is_transient_false_for_io_error() {
    assert!(!TorrentError::IoError("disk full".into()).is_transient());
}

#[test]
fn test_is_transient_false_for_null_pointer() {
    assert!(!TorrentError::NullPointer.is_transient());
}

#[test]
fn test_is_transient_false_for_unknown() {
    assert!(!TorrentError::Unknown {
        code: -1,
        message: "unknown".into()
    }
    .is_transient());
}

// error_from_c

/// A failure of the session with the given message.
fn failure(msg: &str) -> LibtorrentFailure {
    LibtorrentFailure {
        code: 0,
        message: Some(msg.to_string()),
    }
}

#[test]
fn test_error_from_c_null_returns_unknown() {
    let result = error_from_c(None);
    assert!(matches!(result, TorrentError::Unknown { .. }));
}

#[test]
fn test_error_from_c_timeout_lowercase() {
    let result = error_from_c(Some(failure("operation timed out")));
    assert!(matches!(result, TorrentError::Timeout(_)));
}

#[test]
fn test_error_from_c_timeout_titlecase() {
    let result = error_from_c(Some(failure("Timed out waiting for peers")));
    assert!(matches!(result, TorrentError::Timeout(_)));
}

#[test]
fn test_error_from_c_timeout_uppercase() {
    let result = error_from_c(Some(failure("TIMEOUT: connection failed")));
    assert!(matches!(result, TorrentError::Timeout(_)));
}

#[test]
fn test_error_from_c_timeout_as_substring() {
    let result = error_from_c(Some(failure("request timed out after 30s")));
    assert!(matches!(result, TorrentError::Timeout(_)));
}

#[test]
fn test_error_from_c_bdecode_maps_to_parse_error() {
    let result = error_from_c(Some(failure("bdecode error: invalid encoding")));
    assert!(matches!(result, TorrentError::ParseError(_)));
}

#[test]
fn test_error_from_c_invalid_maps_to_parse_error() {
    let result = error_from_c(Some(failure("invalid torrent file")));
    assert!(matches!(result, TorrentError::ParseError(_)));
}

#[test]
fn test_error_from_c_file_maps_to_invalid_file() {
    let result = error_from_c(Some(failure("file not found: /path/to/torrent")));
    assert!(matches!(result, TorrentError::InvalidFile(_)));
}

#[test]
fn test_error_from_c_unclassified_maps_to_unknown() {
    let result = error_from_c(Some(failure("some random error text")));
    assert!(matches!(result, TorrentError::Unknown { .. }));
}

// is_transient_read_error — transient (should return true)

#[test]
fn test_piece_not_ready_is_transient() {
    let err = TorrentError::PieceNotReady("piece 42 not available".into());
    assert!(
        is_transient_read_error(&err),
        "PieceNotReady should be transient"
    );
}

#[test]
fn test_no_peers_is_transient() {
    let err = TorrentError::NoPeers("tracker returned 0 peers".into());
    assert!(is_transient_read_error(&err), "NoPeers should be transient");
}

#[test]
fn test_timeout_is_transient() {
    let err = TorrentError::Timeout("timed out".into());
    assert!(is_transient_read_error(&err), "Timeout should be transient");
}

#[test]
fn test_io_error_is_transient() {
    let err = TorrentError::IoError("disk busy".into());
    assert!(is_transient_read_error(&err), "IoError should be transient");
}

#[test]
fn test_unknown_is_transient() {
    let err = TorrentError::Unknown {
        code: 42,
        message: "something went wrong".into(),
    };
    assert!(is_transient_read_error(&err), "Unknown should be transient");
}

#[test]
fn test_unknown_zero_code_is_transient() {
    let err = TorrentError::Unknown {
        code: 0,
        message: String::new(),
    };
    assert!(
        is_transient_read_error(&err),
        "Unknown with code 0 should be transient"
    );
}

// is_transient_read_error — non-transient (should return false)

#[test]
fn test_invalid_file_is_not_transient() {
    let err = TorrentError::InvalidFile("path not found".into());
    assert!(
        !is_transient_read_error(&err),
        "InvalidFile should NOT be transient"
    );
}

#[test]
fn test_parse_error_is_not_transient() {
    let err = TorrentError::ParseError("bdecode failed".into());
    assert!(
        !is_transient_read_error(&err),
        "ParseError should NOT be transient"
    );
}

#[test]
fn test_null_pointer_is_not_transient() {
    let err = TorrentError::NullPointer;
    assert!(
        !is_transient_read_error(&err),
        "NullPointer should NOT be transient"
    );
}

// is_transient_read_error — edge cases

#[test]
fn test_empty_piece_not_ready() {
    let err = TorrentError::PieceNotReady(String::new());
    assert!(
        is_transient_read_error(&err),
        "PieceNotReady with empty message should be transient"
    );
}

#[test]
fn test_empty_no_peers() {
    let err = TorrentError::NoPeers(String::new());
    assert!(
        is_transient_read_error(&err),
        "NoPeers with empty message should be transient"
    );
}

#[test]
fn test_empty_io_error() {
    let err = TorrentError::IoError(String::new());
    assert!(
        is_transient_read_error(&err),
        "IoError with empty message should be transient"
    );
}

#[test]
fn test_empty_invalid_file() {
    let err = TorrentError::InvalidFile(String::new());
    assert!(
        !is_transient_read_error(&err),
        "InvalidFile with empty message should NOT be transient"
    );
}

#[test]
fn test_empty_parse_error() {
    let err = TorrentError::ParseError(String::new());
    assert!(
        !is_transient_read_error(&err),
        "ParseError with empty message should NOT be transient"
    );
}

#[test]
fn test_negative_unknown_code() {
    let err = TorrentError::Unknown {
        code: -1,
        message: "error".into(),
    };
    assert!(
        is_transient_read_error(&err),
        "Unknown with negative code should be transient"
    );
}

// Helper with exhaustive match — adding a new TorrentError variant
// causes a compile-time error here, forcing the author to classify it.
fn classify_via_match(err: &TorrentError) -> bool {
    match err {
        TorrentError::PieceNotReady(_)
        | TorrentError::NoPeers(_)
        | TorrentError::Timeout(_)
        | TorrentError::IoError(_)
        | TorrentError::Unknown { .. } => true,
        TorrentError::InvalidFile(_)
        | TorrentError::ParseError(_)
        | TorrentError::NullPointer => false,
    }
}

#[test]
fn test_all_variants_covered_explicitly() {
    // Every variant must be reachable in the exhaustive match above,
    // and is_transient_read_error must agree with it on every variant.
    let variants: &[TorrentError] = &[
        TorrentError::PieceNotReady("p".into()),
        TorrentError::NoPeers("n".into()),
        TorrentError::Timeout("t".into()),
        TorrentError::IoError("i".into()),
        TorrentError::Unknown {
            code: 1,
            message: "u".into(),
        },
        TorrentError::InvalidFile("f".into()),
        TorrentError::ParseError("p".into()),
        TorrentError::NullPointer,
    ];

    for err in variants {
        assert_eq!(
            is_transient_read_error(err),
            classify_via_match(err),
            "mismatch for variant: {:?}",
            err
        );
    }
}

#[test]
fn db_error_source_path_exists_maps_to_already_exists() {
    let e: FsError = DbError::SourcePathExists("a/b".to_string()).into();
    assert!(matches!(e, FsError::AlreadyExists));
}

#[test]
fn db_error_sqlite_maps_to_database() {
    let e: FsError = DbError::Migration("v5".to_string()).into();
    assert!(matches!(e, FsError::Migration(_)));
}

#[test]
fn torrent_error_parse_maps_to_corrupt_torrent() {
    let e: FsError = TorrentError::ParseError("bad bencode".to_string()).into();
    assert!(matches!(e, FsError::CorruptTorrent(_)));
}

#[test]
fn torrent_error_timeout_maps_to_download_timeout() {
    let e: FsError = TorrentError::Timeout("slow".to_string()).into();
    assert!(matches!(e, FsError::DownloadTimeout(_)));
}

/// The number of an error name on this machine.
fn number(e: Errno) -> libc::c_int {
    match e {
        Errno::EACCES => libc::EACCES,
        Errno::EEXIST => libc::EEXIST,
        Errno::EFBIG => libc::EFBIG,
        Errno::EINVAL => libc::EINVAL,
        Errno::EIO => libc::EIO,
        Errno::EISDIR => libc::EISDIR,
        Errno::ENAMETOOLONG => libc::ENAMETOOLONG,
        Errno::ENODATA => libc::ENODATA,
        Errno::ENOENT => libc::ENOENT,
        Errno::ENOMEM => libc::ENOMEM,
        Errno::ENOSPC => libc::ENOSPC,
        Errno::ENOTDIR => libc::ENOTDIR,
        Errno::ENOTEMPTY => libc::ENOTEMPTY,
        Errno::EPERM => libc::EPERM,
        Errno::EROFS => libc::EROFS,
        Errno::ESTALE => libc::ESTALE,
    }
}

#[test]
fn no_peers_maps_to_enodata_not_eio() {
    let e: libc::c_int = number(FsError::NoPeers("no seeder".to_string()).into());
    assert_eq!(e, libc::ENODATA);
    assert_ne!(e, libc::EIO);
}

#[test]
fn download_timeout_still_maps_to_eio() {
    let e: libc::c_int = number(FsError::DownloadTimeout("slow".to_string()).into());
    assert_eq!(e, libc::EIO);
}

#[test]
fn download_failed_still_maps_to_eio() {
    let e: libc::c_int = number(FsError::DownloadFailed("boom".to_string()).into());
    assert_eq!(e, libc::EIO);
}

#[test]
fn piece_not_ready_still_maps_to_eio() {
    let e: libc::c_int = number(FsError::PieceNotReady("waiting".to_string()).into());
    assert_eq!(e, libc::EIO);
}

#[test]
fn every_fs_error_has_its_number_and_its_text() {
    let m = || "why".to_string();
    let table: Vec<(FsError, Errno, &str)> = vec![
        (FsError::NotFound, Errno::ENOENT, "not found"),
        (FsError::NotDirectory, Errno::ENOTDIR, "not a directory"),
        (FsError::IsDirectory, Errno::EISDIR, "is a directory"),
        (FsError::AlreadyExists, Errno::EEXIST, "already exists"),
        (FsError::DirectoryNotEmpty, Errno::ENOTEMPTY, "directory not empty"),
        (FsError::StaleHandle, Errno::ESTALE, "stale file handle"),
        (FsError::PermissionDenied, Errno::EACCES, "permission denied"),
        (FsError::ReadOnlyFileSystem, Errno::EROFS, "read-only file system"),
        (FsError::NotPermitted, Errno::EPERM, "operation not permitted"),
        (FsError::InvalidArgument, Errno::EINVAL, "invalid argument"),
        (FsError::FileTooLarge(m()), Errno::EFBIG, "file too large: why"),
        (FsError::NameTooLong, Errno::ENAMETOOLONG, "name too long"),
        (FsError::CorruptTorrent(m()), Errno::EINVAL, "corrupt torrent: why"),
        (FsError::CorruptPiece(m()), Errno::EIO, "corrupt piece: why"),
        (FsError::Database(m()), Errno::EIO, "database error: why"),
        (FsError::Migration(m()), Errno::EIO, "migration error: why"),
        (FsError::NoPeers(m()), Errno::ENODATA, "no peers available: why"),
        (FsError::PieceNotReady(m()), Errno::EIO, "piece not ready: why"),
        (FsError::DownloadTimeout(m()), Errno::EIO, "download timeout: why"),
        (FsError::DownloadFailed(m()), Errno::EIO, "download failed: why"),
        (FsError::Io(m()), Errno::EIO, "io error: why"),
        (FsError::NoSpace(m()), Errno::ENOSPC, "no space left on device: why"),
        (FsError::OutOfMemory(m()), Errno::ENOMEM, "out of memory: why"),
        (FsError::Internal(m()), Errno::EIO, "internal error: why"),
        (FsError::LockPoisoned, Errno::EIO, "lock poisoned"),
    ];
    for (error, errno, text) in table {
        assert_eq!(error.to_text(), text);
        assert_eq!(Errno::from(error), errno);
    }
}

#[test]
fn every_torrent_error_becomes_its_fs_error() {
    let m = || "why".to_string();
    let table: Vec<(TorrentError, FsError)> = vec![
        (TorrentError::InvalidFile(m()), FsError::CorruptTorrent(m())),
        (TorrentError::ParseError(m()), FsError::CorruptTorrent(m())),
        (TorrentError::IoError(m()), FsError::Io(m())),
        (
            TorrentError::NullPointer,
            FsError::Internal("null pointer".to_string()),
        ),
        (TorrentError::NoPeers(m()), FsError::NoPeers(m())),
        (TorrentError::PieceNotReady(m()), FsError::PieceNotReady(m())),
        (TorrentError::Timeout(m()), FsError::DownloadTimeout(m())),
        (
            TorrentError::Unknown {
                code: -7,
                message: m(),
            },
            FsError::DownloadFailed("code -7: why".to_string()),
        ),
    ];
    for (from, to) in table {
        assert_eq!(FsError::from(from), to);
    }
    assert_eq!(
        FsError::from(DbError::Sqlite("disk I/O error".to_string())),
        FsError::Database("disk I/O error".to_string())
    );
}

#[test]
fn errors_have_their_texts() {
    assert_eq!(
        TorrentError::NoPeers("x".to_string()).to_text(),
        "No peers available: x. Tracker returned 0 peers and 0 seeds. Check tracker health or try \
         again later."
    );
    assert_eq!(
        TorrentError::Unknown {
            code: 3,
            message: "m".to_string()
        }
        .to_text(),
        "Unknown error: code 3, message: m"
    );
    assert_eq!(
        TorrentError::NullPointer.to_text(),
        "Null pointer encountered"
    );
    assert_eq!(
        DbError::SourcePathExists("a/b".to_string()).to_text(),
        "torrent with source_path already exists: a/b"
    );
}

#[test]
fn failures_are_told_apart_in_any_case() {
    // The words are looked for in the lower-case form of the message.
    assert!(matches!(
        error_from_c(Some(failure("BDECODE failed"))),
        TorrentError::ParseError(m) if m == "BDECODE failed"
    ));
    assert!(matches!(
        error_from_c(Some(LibtorrentFailure {
            code: 5,
            message: None
        })),
        TorrentError::Unknown { code: 5, message } if message == "Unknown error"
    ));
    assert_eq!(classify_failure("nothing known"), FailureClass::Other);
    assert!(matches!(
        error_for_class(FailureClass::File, 0, "m".to_string()),
        TorrentError::InvalidFile(_)
    ));
}

#[test]
fn codes_other_than_zero_are_failures() {
    assert!(check_code(0, "Failed to get session stats").is_ok());
    assert!(matches!(
        check_code(-2, "Failed to get session stats"),
        Err(TorrentError::Unknown { code: -2, message }) if message == "Failed to get session stats"
    ));
}

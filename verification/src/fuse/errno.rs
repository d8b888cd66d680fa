//! The error number for each filesystem error.

use vstd::prelude::*;

use crate::domain::fs_error::FsError;

verus! {

/// The POSIX names of the error numbers that the filesystem answers with.
#[allow(clippy::upper_case_acronyms)]
#[derive(Debug, Clone, Copy, PartialEq, Eq, Structural)]
pub enum Errno {
    EACCES,
    EEXIST,
    EFBIG,
    EINVAL,
    EIO,
    EISDIR,
    ENAMETOOLONG,
    ENODATA,
    ENOENT,
    ENOMEM,
    ENOSPC,
    ENOTDIR,
    ENOTEMPTY,
    EPERM,
    EROFS,
    ESTALE,
}

/// The error number for an error.
///
/// A swarm without peers is `ENODATA`, so that a reader sees that there is no seeder; every
/// other failure of a download is `EIO`.
pub open spec fn errno_of(e: FsError) -> Errno {
    match e {
        FsError::NotFound => Errno::ENOENT,
        FsError::NotDirectory => Errno::ENOTDIR,
        FsError::IsDirectory => Errno::EISDIR,
        FsError::AlreadyExists => Errno::EEXIST,
        FsError::DirectoryNotEmpty => Errno::ENOTEMPTY,
        FsError::StaleHandle => Errno::ESTALE,
        FsError::PermissionDenied => Errno::EACCES,
        FsError::ReadOnlyFileSystem => Errno::EROFS,
        FsError::NotPermitted => Errno::EPERM,
        FsError::InvalidArgument => Errno::EINVAL,
        FsError::FileTooLarge(_) => Errno::EFBIG,
        FsError::NameTooLong => Errno::ENAMETOOLONG,
        FsError::CorruptTorrent(_) => Errno::EINVAL,
        FsError::CorruptPiece(_) => Errno::EIO,
        FsError::Database(_) => Errno::EIO,
        FsError::Migration(_) => Errno::EIO,
        FsError::NoPeers(_) => Errno::ENODATA,
        FsError::PieceNotReady(_) => Errno::EIO,
        FsError::DownloadTimeout(_) => Errno::EIO,
        FsError::DownloadFailed(_) => Errno::EIO,
        FsError::Io(_) => Errno::EIO,
        FsError::NoSpace(_) => Errno::ENOSPC,
        FsError::OutOfMemory(_) => Errno::ENOMEM,
        FsError::Internal(_) => Errno::EIO,
        FsError::LockPoisoned => Errno::EIO,
    }
}

impl vstd::std_specs::convert::FromSpecImpl<FsError> for Errno {
    open spec fn obeys_from_spec() -> bool {
        true
    }

    open spec fn from_spec(e: FsError) -> Errno {
        errno_of(e)
    }
}

impl From<FsError> for Errno {
    fn from(e: FsError) -> Errno {
        match e {
            FsError::NotFound => Errno::ENOENT,
            FsError::NotDirectory => Errno::ENOTDIR,
            FsError::IsDirectory => Errno::EISDIR,
            FsError::AlreadyExists => Errno::EEXIST,
            FsError::DirectoryNotEmpty => Errno::ENOTEMPTY,
            FsError::StaleHandle => Errno::ESTALE,
            FsError::PermissionDenied => Errno::EACCES,
            FsError::ReadOnlyFileSystem => Errno::EROFS,
            FsError::NotPermitted => Errno::EPERM,
            FsError::InvalidArgument | FsError::CorruptTorrent(_) => Errno::EINVAL,
            FsError::FileTooLarge(_) => Errno::EFBIG,
            FsError::NameTooLong => Errno::ENAMETOOLONG,
            FsError::NoPeers(_) => Errno::ENODATA,
            FsError::NoSpace(_) => Errno::ENOSPC,
            FsError::OutOfMemory(_) => Errno::ENOMEM,
            FsError::CorruptPiece(_) | FsError::Database(_) | FsError::Migration(_) => Errno::EIO,
            FsError::PieceNotReady(_) | FsError::DownloadTimeout(_) => Errno::EIO,
            FsError::DownloadFailed(_) | FsError::Io(_) => Errno::EIO,
            FsError::Internal(_) | FsError::LockPoisoned => Errno::EIO,
        }
    }
}

/// Of the failures of a download, a swarm without peers alone is `ENODATA`.
pub proof fn only_no_peers_is_enodata(e: FsError)
    ensures
        errno_of(e) == Errno::ENODATA <==> e is NoPeers,
{
}

/// Errors that a caller can act upon have error numbers of their own; what is wrong with the machine
/// or the swarm is an input or output error, and what is wrong with an argument an invalid one.
pub proof fn errors_are_told_apart(a: FsError, b: FsError)
    ensures
        errno_of(a) == Errno::ENOENT <==> a is NotFound,
        errno_of(a) == Errno::EEXIST <==> a is AlreadyExists,
        errno_of(a) == Errno::EROFS <==> a is ReadOnlyFileSystem,
        errno_of(a) == Errno::EACCES <==> a is PermissionDenied,
        errno_of(a) == Errno::EPERM <==> a is NotPermitted,
        errno_of(a) == Errno::ENOTEMPTY <==> a is DirectoryNotEmpty,
        errno_of(a) == Errno::EISDIR <==> a is IsDirectory,
        errno_of(a) == Errno::ENOTDIR <==> a is NotDirectory,
        errno_of(a) == Errno::EFBIG <==> a is FileTooLarge,
        errno_of(a) == Errno::EINVAL <==> a is InvalidArgument || a is CorruptTorrent,
        errno_of(a) == errno_of(b) && errno_of(a) != Errno::EIO && errno_of(a) != Errno::EINVAL
            ==> (a is NotFound == b is NotFound) && (a is NoPeers == b is NoPeers) && (a is NoSpace
            == b is NoSpace) && (a is OutOfMemory == b is OutOfMemory) && (a is StaleHandle
            == b is StaleHandle) && (a is NameTooLong == b is NameTooLong),
        a is CorruptPiece || a is Database || a is Migration || a is PieceNotReady || a
            is DownloadTimeout || a is DownloadFailed || a is Io || a is Internal || a
            is LockPoisoned <==> errno_of(a) == Errno::EIO,
{
}

} // verus!

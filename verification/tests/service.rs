//! The filesystem's operations.

use torrentfs::domain::error::TorrentError;
use torrentfs::domain::fs_error::FsError;
use torrentfs::domain::types::{Torrent, TorrentDirectory, TorrentFile, TorrentStatus};
use torrentfs::fuse::fs_service::{
    get_torrent_raw_data, move_path, slice_bytes, AttrStep, DataRead, FsService, LookupStep,
    ParsedTorrent, PiecesNext, ReadStep, ReaddirStep, ReleaseAction, RenameAction, StatsSource,
    TorrentAnswer, TorrentRows, UnlinkRemoval,
};
use torrentfs::fuse::fs_types::{FileKind, ReadOutcome, StatsKind};
use torrentfs::fuse::inodes::{
    DataInode, InodeData, InodeManager, DATA_DIR_INO_BASE, DATA_FILE_INO_BASE, DATA_INO,
    METADATA_INO, ROOT_INO, STATS_INO,
};
use torrentfs::fuse::lookup::{join_path, parent_source_path, DataQuery, DataResolver, DataRows};

fn bare_service() -> FsService {
    FsService::new(0, String::new())
}

#[test]
fn torrent_info_cached_by_info_hash() {
    let mut svc = bare_service();
    let info_hash = "c0ffee";

    // First lookup: miss, then parse and insert.
    assert_eq!(svc.get_or_parse_torrent_info(info_hash), None);
    svc.remember_torrent_info(info_hash, 17);
    assert_eq!(svc.metrics.l3_misses, 1);
    assert_eq!(svc.metrics.l3_hits, 0);

    // Second lookup: hit, and the same parsed torrent.
    assert_eq!(svc.get_or_parse_torrent_info(info_hash), Some(17));
    assert_eq!(svc.metrics.l3_misses, 1);
    assert_eq!(svc.metrics.l3_hits, 1);
}

#[test]
fn data_namespace_write_returns_erofs() {
    let mut svc = bare_service();
    // DATA_INO (the `data/` root) is a directory → would be EISDIR
    // without the read-only guard, but the guard fires first.
    let err = svc.write(DATA_INO, 0, b"x").unwrap_err();
    assert_eq!(err, FsError::ReadOnlyFileSystem);

    // A data file inode (not in `inodes`, only in `data_inodes`).
    let data_file_ino = DATA_FILE_INO_BASE + 1;
    let err = svc.write(data_file_ino, 0, b"x").unwrap_err();
    assert_eq!(err, FsError::ReadOnlyFileSystem);
}

#[test]
fn data_namespace_create_mknod_mkdir_return_erofs() {
    let mut svc = bare_service();

    let err = svc.create(DATA_INO, "foo").unwrap_err();
    assert_eq!(err, FsError::ReadOnlyFileSystem);

    let err = svc.mknod(DATA_INO, "foo").unwrap_err();
    assert_eq!(err, FsError::ReadOnlyFileSystem);

    let err = svc.mkdir(DATA_INO, "foo").unwrap_err();
    assert_eq!(err, FsError::ReadOnlyFileSystem);

    // A nested data inode as parent.
    let data_dir_ino = DATA_DIR_INO_BASE + 5;
    let err = svc.mkdir(data_dir_ino, "foo").unwrap_err();
    assert_eq!(err, FsError::ReadOnlyFileSystem);
}

#[test]
fn data_namespace_unlink_rmdir_return_erofs() {
    let mut svc = bare_service();

    let err = svc.unlink(DATA_INO, "foo").unwrap_err();
    assert_eq!(err, FsError::ReadOnlyFileSystem);

    let err = svc.rmdir(DATA_INO, "foo").unwrap_err();
    assert_eq!(err, FsError::ReadOnlyFileSystem);

    let data_dir_ino = DATA_DIR_INO_BASE + 5;
    let err = svc.unlink(data_dir_ino, "foo").unwrap_err();
    assert_eq!(err, FsError::ReadOnlyFileSystem);
    let err = svc.rmdir(data_dir_ino, "foo").unwrap_err();
    assert_eq!(err, FsError::ReadOnlyFileSystem);
}

#[test]
fn data_namespace_rename_returns_erofs() {
    let mut svc = bare_service();

    // Rename *into* data/ as the new parent.
    let err = svc
        .rename(METADATA_INO, "foo", DATA_INO, "bar")
        .unwrap_err();
    assert_eq!(err, FsError::ReadOnlyFileSystem);

    // Rename *out of* data/ as the source parent.
    let err = svc
        .rename(DATA_INO, "foo", METADATA_INO, "bar")
        .unwrap_err();
    assert_eq!(err, FsError::ReadOnlyFileSystem);

    // Both parents in data/ namespace.
    let data_dir_ino = DATA_DIR_INO_BASE + 5;
    let err = svc
        .rename(data_dir_ino, "foo", DATA_INO, "bar")
        .unwrap_err();
    assert_eq!(err, FsError::ReadOnlyFileSystem);
}

#[test]
fn open_data_torrent_file_sets_direct_io() {
    let mut svc = bare_service();
    let ino = DATA_FILE_INO_BASE + 1;
    svc.inode_mgr.data_inodes.insert(
        ino,
        DataInode::TorrentFile {
            torrent_id: 1,
            file_id: 1,
            name: "foo".to_string(),
            size: 16,
        },
    );
    let outcome = svc.open(ino).expect("open data file");
    assert!(outcome.direct_io, "data torrent file must request direct_io");
    assert_ne!(outcome.fh, 0, "data torrent file must get a real fh");
}

#[test]
fn open_metadata_file_does_not_set_direct_io() {
    let mut svc = bare_service();
    let ino = svc.inode_mgr.next_ino;
    svc.inode_mgr.next_ino = ino + 1;
    svc.inode_mgr.inodes.insert(
        ino,
        InodeData::File {
            parent: ROOT_INO,
            name: "x".to_string(),
            data: vec![b'x'],
        },
    );
    let outcome = svc.open(ino).expect("open metadata file");
    assert!(
        !outcome.direct_io,
        "metadata file must not request direct_io"
    );
}

#[test]
fn open_stats_file_does_not_set_direct_io() {
    let mut svc = bare_service();
    // STATS_INO is the global `.stats` file.
    let outcome = svc.open(STATS_INO).expect("open stats");
    assert!(
        !outcome.direct_io,
        "stats file must not request direct_io"
    );
}

#[test]
fn a_read_gives_back_what_was_written() {
    let mut svc = bare_service();
    let made = svc.create(METADATA_INO, "a.torrent").unwrap();
    let ino = made.attr.ino;
    assert_eq!(svc.write(ino, 4, b"data").unwrap(), 4);
    assert!(matches!(svc.read(ino, 4, 4), ReadStep::Ready(d) if d == b"data"));
    // What lies before is filled with zeros; what lies behind the end is not there.
    assert!(matches!(svc.read(ino, 0, 100), ReadStep::Ready(d) if d == b"\0\0\0\0data"));
    assert!(matches!(svc.read(ino, 8, 1), ReadStep::Ready(d) if d.is_empty()));
    // A write in the middle leaves the rest.
    assert_eq!(svc.write(ino, 5, b"o").unwrap(), 1);
    assert!(matches!(svc.read(ino, 4, 4), ReadStep::Ready(d) if d == b"dota"));
    assert!(matches!(svc.read(METADATA_INO, 0, 1), ReadStep::Failed(FsError::IsDirectory)));
    assert!(matches!(svc.read(4242, 0, 1), ReadStep::Failed(FsError::NotFound)));
}

#[test]
fn names_are_taken_once() {
    let mut svc = bare_service();
    let dir = svc.mkdir(METADATA_INO, "os").unwrap();
    assert_eq!(dir.source_path, "os");
    assert_eq!(svc.mkdir(METADATA_INO, "os").unwrap_err(), FsError::AlreadyExists);
    let inner = svc.mkdir(dir.attr.ino, "linux").unwrap();
    assert_eq!(inner.source_path, "os/linux");
    assert_eq!(
        svc.mknod(inner.attr.ino, "linux").unwrap_err(),
        FsError::PermissionDenied,
        "only torrent files can be made"
    );
    svc.mknod(inner.attr.ino, "a.torrent").unwrap();
    assert_eq!(
        svc.mknod(inner.attr.ino, "a.torrent").unwrap_err(),
        FsError::AlreadyExists
    );
    let plan = svc.unlink(inner.attr.ino, "a.torrent").unwrap();
    svc.finish_unlink(&plan, UnlinkRemoval::NoCatalogue, &vec![]).unwrap();
    assert_eq!(svc.mkdir(ROOT_INO, "x").unwrap_err(), FsError::PermissionDenied);
    assert!(matches!(
        svc.lookup(METADATA_INO, "os"),
        LookupStep::Answer(Some(e)) if e.ino == dir.attr.ino
    ));
    assert!(matches!(svc.lookup(METADATA_INO, "bsd"), LookupStep::Answer(None)));
    assert!(matches!(svc.lookup(DATA_INO, "os"), LookupStep::Data));
    assert!(matches!(
        svc.getattr(dir.attr.ino),
        AttrStep::Answer(a) if a.kind == FileKind::Directory && a.perm == 0o755
    ));
    // A directory goes only when it is empty.
    assert_eq!(
        svc.rmdir(METADATA_INO, "os").unwrap_err(),
        FsError::DirectoryNotEmpty
    );
    assert_eq!(svc.rmdir(dir.attr.ino, "linux").unwrap(), "os/linux");
    assert_eq!(svc.rmdir(METADATA_INO, "os").unwrap(), "os");
    assert!(matches!(svc.lookup(METADATA_INO, "os"), LookupStep::Answer(None)));
}

#[test]
fn listings_go_on_where_they_were_left() {
    let mut svc = bare_service();
    for name in ["a", "b", "c"] {
        svc.mkdir(METADATA_INO, name).unwrap();
    }
    let all = match svc.readdir(METADATA_INO, 0) {
        ReaddirStep::Entries(e) => e,
        other => panic!("unexpected {:?}", other),
    };
    assert!(all.len() >= 5);
    assert_eq!(all[0].name, ".");
    assert_eq!(all[1].name, "..");
    for n in 0..all.len() {
        match svc.readdir(METADATA_INO, n as i64) {
            ReaddirStep::Entries(rest) => {
                let names: Vec<&String> = rest.iter().map(|e| &e.name).collect();
                let expected: Vec<&String> = all[n..].iter().map(|e| &e.name).collect();
                assert_eq!(names, expected);
            }
            other => panic!("unexpected {:?}", other),
        }
    }
    assert!(matches!(svc.readdir(DATA_INO, 0), ReaddirStep::Data));
}

#[test]
fn a_closed_torrent_file_is_added_once() {
    let mut svc = bare_service();
    let dir = svc.mkdir(METADATA_INO, "os").unwrap();
    let made = svc.create(dir.attr.ino, "a.torrent").unwrap();
    svc.write(made.attr.ino, 0, b"d4:infoe").unwrap();
    assert_eq!(svc.torrent_to_validate(made.attr.ino), Some(b"d4:infoe".to_vec()));
    assert_eq!(
        svc.torrent_to_validate_for_handle(made.fh),
        Some(b"d4:infoe".to_vec())
    );
    assert!(svc.flush(made.attr.ino, true).is_ok());
    match svc.release(made.fh, true) {
        ReleaseAction::AddTorrent { data, source_path, name } => {
            assert_eq!(data, b"d4:infoe");
            assert_eq!(source_path, "os");
            assert_eq!(name, "a.torrent");
        }
        other => panic!("unexpected {:?}", other),
    }
    // The handle is gone.
    assert!(matches!(svc.release(made.fh, true), ReleaseAction::Nothing));
}

#[test]
fn renames_carry_paths_along() {
    let mut svc = bare_service();
    let dir = svc.mkdir(METADATA_INO, "os").unwrap();
    let file = svc.create(dir.attr.ino, "a.torrent").unwrap();
    match svc.rename(METADATA_INO, "os", METADATA_INO, "sys").unwrap() {
        RenameAction::Directory { old_path, new_name, new_path } => {
            assert_eq!((old_path.as_str(), new_name.as_str(), new_path.as_str()), ("os", "sys", "sys"));
        }
        other => panic!("unexpected {:?}", other),
    }
    assert_eq!(svc.inode_mgr.get_full_path(file.attr.ino), "metadata/sys/a.torrent");
    match svc.rename(dir.attr.ino, "a.torrent", METADATA_INO, "b.torrent").unwrap() {
        RenameAction::File { old_name, old_source_path, new_name, new_source_path } => {
            assert_eq!(old_name, "a.torrent");
            assert_eq!(old_source_path, "sys");
            assert_eq!(new_name, "b.torrent");
            assert_eq!(new_source_path, "");
        }
        other => panic!("unexpected {:?}", other),
    }
    assert_eq!(
        svc.rename(METADATA_INO, "no", METADATA_INO, "x").unwrap_err(),
        FsError::NotFound
    );
    assert_eq!(move_path("os/linux", "os", "sys"), "sys/linux");
    assert_eq!(move_path(&move_path("os/linux", "os", "sys"), "sys", "os"), "os/linux");
    assert_eq!(move_path("osx", "os", "sys"), "osx");
}

#[test]
fn a_removed_file_leaves_the_tree() {
    let mut svc = bare_service();
    svc.create(METADATA_INO, "a.torrent").unwrap();
    let plan = svc.unlink(METADATA_INO, "a.torrent").unwrap();
    assert_eq!(plan.filename, "a.torrent");
    assert_eq!(plan.source_path, "");
    let gone = svc
        .finish_unlink(&plan, UnlinkRemoval::Removed { torrent_id: 5 }, &vec![])
        .unwrap();
    assert_eq!(gone, Some(5));
    assert!(matches!(svc.lookup(METADATA_INO, "a.torrent"), LookupStep::Answer(None)));
    assert_eq!(
        svc.unlink(METADATA_INO, "a.torrent").unwrap_err(),
        FsError::NotFound
    );
}

#[test]
fn stats_files_know_their_source() {
    let mut svc = bare_service();
    assert!(matches!(svc.read_stats(StatsKind::Global), StatsSource::Global));
    assert!(matches!(svc.stats_source(STATS_INO), StatsSource::Notice { .. }));
    assert!(matches!(
        svc.read_stats(StatsKind::StatsInode { ino: InodeManager::make_stats_ino(DATA_INO) }),
        StatsSource::Directory { path } if path.is_empty()
    ));
    let dir = svc.mkdir(METADATA_INO, "os").unwrap();
    assert!(matches!(
        svc.lookup(dir.attr.ino, ".stats"),
        LookupStep::Stats { .. } | LookupStep::Answer(_)
    ));
    let ino = 5000;
    svc.inode_mgr.data_inodes.insert(
        ino,
        DataInode::SourcePathDir { path: "os".to_string() },
    );
    assert!(matches!(
        svc.stats_source(InodeManager::make_stats_ino(ino)),
        StatsSource::Directory { path } if path == "os"
    ));
}

fn file(id: i64, name: &str, size: i64) -> TorrentFile {
    TorrentFile {
        id,
        torrent_id: 1,
        directory_id: None,
        name: name.to_string(),
        path: name.to_string(),
        size,
        first_piece: 0,
        last_piece: 0,
        piece_start: None,
        piece_end: None,
    }
}

fn torrent(id: i64, source_path: &str, name: &str) -> Torrent {
    Torrent {
        id,
        source_path: source_path.to_string(),
        name: name.to_string(),
        filename: format!("{}.torrent", name),
        total_size: 1,
        info_hash: "h".to_string(),
        file_count: 1,
        status: TorrentStatus::Pending,
        torrent_data: None,
        resume_data: None,
        created_at: String::new(),
    }
}

fn no_rows() -> DataRows {
    DataRows {
        prefixes: None,
        torrents: None,
        parent_torrents: vec![],
        directories: None,
        files: None,
        named_directory: None,
        own_directory: None,
    }
}

#[test]
fn the_data_tree_mirrors_the_catalogue() {
    let mut m = InodeManager::new(0);
    assert!(matches!(DataResolver::data_query(&m, DATA_INO), DataQuery::SourcePath { path } if path.is_empty()));
    let rows = DataRows {
        prefixes: Some(vec!["os".to_string()]),
        torrents: Some(vec![torrent(3, "", "movie")]),
        ..no_rows()
    };
    let (os, kind, _) = DataResolver::lookup_data_inode(&mut m, DATA_INO, "os", &rows).unwrap();
    assert_eq!(kind, FileKind::Directory);
    assert_eq!(os, InodeManager::make_source_path_dir_ino("os"));
    let (movie, _, _) = DataResolver::lookup_data_inode(&mut m, DATA_INO, "movie.torrent", &rows).unwrap();
    assert_eq!(movie, InodeManager::make_torrent_root_ino(3));
    assert!(DataResolver::lookup_data_inode(&mut m, DATA_INO, "none", &rows).is_none());

    let rows = DataRows {
        named_directory: Some(Some(TorrentDirectory {
            id: 9,
            torrent_id: 3,
            parent_id: None,
            name: "sub".to_string(),
        })),
        directories: Some(vec![]),
        files: Some(vec![file(4, "a.bin", 16)]),
        ..no_rows()
    };
    let (sub, kind, _) = DataResolver::lookup_data_inode(&mut m, movie, "sub", &rows).unwrap();
    assert_eq!((sub, kind), (InodeManager::make_torrent_dir_ino(9), FileKind::Directory));
    let listed = DataResolver::readdir_data(&mut m, movie, 0, &rows).unwrap();
    let names: Vec<String> = listed.iter().map(|e| e.name.clone()).collect();
    assert_eq!(names, vec![".", "..", "a.bin"]);
    assert_eq!(listed[2].ino, InodeManager::make_torrent_file_ino(4));
    assert_eq!(join_path("", "os"), "os");
    assert_eq!(join_path("os", "linux"), "os/linux");
    assert_eq!(parent_source_path("os/linux"), Some("os".to_string()));
    assert_eq!(parent_source_path("os"), None);
}

#[test]
fn reads_of_torrent_files_find_their_pieces() {
    let mut svc = bare_service();
    let rows = || {
        TorrentAnswer::Found(TorrentRows {
            info_hash: "h".to_string(),
            files: vec![file(7, "a", 1), file(8, "b", 2)],
        })
    };
    assert!(matches!(
        svc.read_data(8, 0, 1, rows(), true).unwrap(),
        DataRead::NeedPieces { info_hash, file_index: 1 } if info_hash == "h"
    ));
    assert_eq!(
        svc.read_data(9, 0, 1, rows(), true).unwrap_err(),
        FsError::NotFound
    );
    assert_eq!(
        svc.read_data(8, 0, 1, TorrentAnswer::NotListed, true).unwrap_err(),
        FsError::NotFound
    );
    assert!(matches!(
        svc.pieces_checked(Ok(true), 1, "h".to_string(), 1, 0, 1).unwrap(),
        PiecesNext::ReadNow
    ));
    assert!(matches!(
        svc.pieces_checked(Ok(false), 1, "h".to_string(), 1, 0, 1).unwrap(),
        PiecesNext::Wait(ReadOutcome::Pending { file_index: 1, torrent_id: 1, .. })
    ));
    assert!(svc
        .pieces_checked(
            Err(TorrentError::ParseError("bad".to_string())),
            1,
            "h".to_string(),
            1,
            0,
            1
        )
        .is_err());
}

#[test]
fn torrents_are_found_by_their_hash() {
    let candidates = vec![
        ParsedTorrent { data: vec![1], info_hash: None },
        ParsedTorrent { data: vec![2], info_hash: Some(vec![0xab]) },
    ];
    assert_eq!(
        get_torrent_raw_data(Some(vec![9]), "ab", &candidates).unwrap(),
        vec![9]
    );
    assert_eq!(
        get_torrent_raw_data(None, "ab", &candidates).unwrap(),
        vec![2]
    );
    assert!(get_torrent_raw_data(None, "cd", &candidates).is_err());
    assert_eq!(slice_bytes(&vec![1, 2, 3], 1, 5), vec![2, 3]);
}

fn found(svc: &FsService, dir: u64, name: &str) -> Option<u64> {
    match svc.lookup(dir, name) {
        LookupStep::Answer(e) => e.map(|e| e.ino),
        other => panic!("{other:?}"),
    }
}

#[test]
fn what_is_listed_is_found_with_the_same_attributes() {
    let mut svc = bare_service();
    let dir = svc.mkdir(METADATA_INO, "music").unwrap().attr.ino;
    let sub = svc.mkdir(dir, "live").unwrap().attr.ino;
    let file = svc.create(dir, "a.torrent").unwrap().attr.ino;
    svc.write(file, 0, b"abc").unwrap();
    let entries = match svc.readdir(dir, 2) {
        ReaddirStep::Entries(entries) => entries,
        other => panic!("{other:?}"),
    };
    let mut shown: Vec<u64> = entries.iter().map(|e| e.ino).collect();
    shown.sort();
    assert_eq!(shown, vec![sub, file]);
    for entry in entries {
        match svc.lookup(dir, &entry.name) {
            LookupStep::Answer(Some(e)) => {
                assert_eq!(e.ino, entry.ino);
                assert_eq!(e.attr.kind, entry.kind);
                match svc.getattr(e.ino) {
                    AttrStep::Answer(attr) => assert_eq!(attr, e.attr),
                    other => panic!("{other:?}"),
                }
            }
            other => panic!("{other:?}"),
        }
    }
}

#[test]
fn a_made_and_removed_directory_leaves_the_tree_as_it_was() {
    let mut svc = bare_service();
    let count = svc.inode_mgr.inodes.len();
    svc.mkdir(METADATA_INO, "music").unwrap();
    assert!(found(&svc, METADATA_INO, "music").is_some());
    assert_eq!(svc.rmdir(METADATA_INO, "music").unwrap(), "music");
    assert_eq!(found(&svc, METADATA_INO, "music"), None);
    assert_eq!(svc.inode_mgr.inodes.len(), count);
}

#[test]
fn a_renamed_file_is_found_under_its_new_name_alone() {
    let mut svc = bare_service();
    let dir = svc.mkdir(METADATA_INO, "music").unwrap().attr.ino;
    let file = svc.create(METADATA_INO, "a.torrent").unwrap().attr.ino;
    svc.write(file, 0, b"abc").unwrap();
    svc.rename(METADATA_INO, "a.torrent", dir, "b.torrent")
        .unwrap();
    assert_eq!(found(&svc, METADATA_INO, "a.torrent"), None);
    assert_eq!(found(&svc, dir, "b.torrent"), Some(file));
    match svc.read(file, 0, 10) {
        ReadStep::Ready(bytes) => assert_eq!(bytes, b"abc"),
        other => panic!("{other:?}"),
    }
}

//! The table of inodes.

use torrentfs::domain::types::{Torrent, TorrentStatus};
use torrentfs::fuse::inodes::{
    InodeData, InodeManager, DATA_DIR_INO_BASE, DATA_FILE_INO_BASE, DATA_INO,
    DATA_TORRENT_INO_BASE, METADATA_INO, ROOT_INO, SOURCE_PATH_DIR_INO_BASE, STATS_INO,
    STATS_INO_OFFSET,
};

#[test]
fn test_make_stats_ino_derives_from_dir_ino() {
    assert_eq!(
        InodeManager::make_stats_ino(DATA_INO),
        DATA_INO + STATS_INO_OFFSET
    );
    assert_eq!(
        InodeManager::make_stats_ino(ROOT_INO),
        ROOT_INO + STATS_INO_OFFSET
    );
    assert_eq!(
        InodeManager::make_stats_ino(METADATA_INO),
        METADATA_INO + STATS_INO_OFFSET
    );
}

#[test]
fn test_is_stats_ino_true_for_derived_inos() {
    assert!(InodeManager::is_stats_ino(InodeManager::make_stats_ino(
        DATA_INO
    )));
    assert!(InodeManager::is_stats_ino(InodeManager::make_stats_ino(
        ROOT_INO
    )));
}

#[test]
fn test_is_stats_ino_false_for_regular_inos() {
    assert!(!InodeManager::is_stats_ino(DATA_INO));
    assert!(!InodeManager::is_stats_ino(ROOT_INO));
    assert!(!InodeManager::is_stats_ino(METADATA_INO));
    assert!(!InodeManager::is_stats_ino(0));
}

#[test]
fn test_is_stats_ino_boundaries() {
    // STATS_INO_OFFSET (10_000_000) is included, STATS_INO_OFFSET + 10_000_000 is excluded
    assert!(InodeManager::is_stats_ino(STATS_INO_OFFSET));
    assert!(InodeManager::is_stats_ino(
        STATS_INO_OFFSET + 10_000_000 - 1
    ));
    assert!(!InodeManager::is_stats_ino(STATS_INO_OFFSET + 10_000_000));
    assert!(!InodeManager::is_stats_ino(STATS_INO_OFFSET - 1));
}

#[test]
fn test_stats_ino_to_dir_ino_round_trip() {
    let dir_ino = DATA_INO;
    let stats_ino = InodeManager::make_stats_ino(dir_ino);
    assert_eq!(InodeManager::stats_ino_to_dir_ino(stats_ino), Some(dir_ino));
}

#[test]
fn test_stats_ino_to_dir_ino_none_for_regular_ino() {
    assert_eq!(InodeManager::stats_ino_to_dir_ino(DATA_INO), None);
    assert_eq!(InodeManager::stats_ino_to_dir_ino(ROOT_INO), None);
    assert_eq!(InodeManager::stats_ino_to_dir_ino(0), None);
}

#[test]
fn data_namespace_inodes_correctly_identified() {
    assert!(InodeManager::is_data_namespace(DATA_INO));
    assert!(InodeManager::is_data_namespace(DATA_TORRENT_INO_BASE));
    assert!(InodeManager::is_data_namespace(DATA_TORRENT_INO_BASE + 42));
    assert!(InodeManager::is_data_namespace(DATA_DIR_INO_BASE + 1));
    assert!(InodeManager::is_data_namespace(DATA_FILE_INO_BASE + 1));
    assert!(InodeManager::is_data_namespace(SOURCE_PATH_DIR_INO_BASE));

    // Non-data inodes are not in the data namespace.
    assert!(!InodeManager::is_data_namespace(ROOT_INO));
    assert!(!InodeManager::is_data_namespace(METADATA_INO));
    assert!(!InodeManager::is_data_namespace(STATS_INO));
    assert!(!InodeManager::is_data_namespace(
        InodeManager::new(0).next_ino,
    ));
}

fn torrent(id: i64, source_path: &str, filename: &str) -> Torrent {
    Torrent {
        id,
        source_path: source_path.to_string(),
        name: "name".to_string(),
        filename: filename.to_string(),
        total_size: 1,
        info_hash: "h".to_string(),
        file_count: 1,
        status: TorrentStatus::Pending,
        torrent_data: Some(vec![1, 2, 3]),
        resume_data: None,
        created_at: String::new(),
    }
}

#[test]
fn restored_directories_and_files_lie_at_their_paths() {
    let mut m = InodeManager::new(7);
    let dirs = vec![
        (1, None, "os".to_string(), "os".to_string()),
        (2, Some(1), "linux".to_string(), "os/linux".to_string()),
    ];
    m.restore_metadata_inodes(dirs, vec![torrent(1, "os/linux", "a.torrent")]);
    let os = m.find_child_by_name(METADATA_INO, "os").unwrap();
    let linux = m.find_child_by_name(os, "linux").unwrap();
    let file = m.find_child_by_name(linux, "a.torrent").unwrap();
    assert_eq!(m.get_full_path(file), "metadata/os/linux/a.torrent");
    assert_eq!(m.find_ino_by_full_path("metadata/os/linux"), Some(linux));
    assert_eq!(m.extract_source_path(linux), "os/linux");
    assert_eq!(m.extract_source_path(METADATA_INO), "");
    assert!(m.is_metadata_child(linux));
    assert!(!m.is_metadata_child(DATA_INO));
    assert!(matches!(
        m.inodes.get(&file),
        Some(InodeData::File { data, .. }) if data == &vec![1, 2, 3]
    ));
}

#[test]
fn source_path_inodes_differ_and_stay_in_their_range() {
    let a = InodeManager::make_source_path_dir_ino("os");
    let b = InodeManager::make_source_path_dir_ino("os/linux");
    assert_ne!(a, b);
    assert_eq!(a, InodeManager::make_source_path_dir_ino("os"));
    assert!(InodeManager::is_data_namespace(a));
    assert!(InodeManager::is_data_namespace(b));
    assert_eq!(
        InodeManager::source_path_dir_ino_for_hash(0),
        SOURCE_PATH_DIR_INO_BASE
    );
}

#[test]
fn attributes_of_entries() {
    let m = InodeManager::new(7);
    let dir = m.attr_for_dir(METADATA_INO, true);
    assert_eq!((dir.perm, dir.nlink), (0o755, 2));
    assert_eq!(m.attr_for_dir(DATA_INO, false).perm, 0o555);
    let file = m.attr_for_file(9, 513);
    assert_eq!((file.size, file.perm, file.nlink), (513, 0o444, 1));
    assert_eq!(file.blocks(), 2);
}

#[test]
fn paths_lead_back_to_their_entries() {
    let mut m = InodeManager::new(7);
    // The rows come in any order.
    let dirs = vec![
        (5, Some(2), "c".to_string(), "a/b/c".to_string()),
        (2, Some(9), "b".to_string(), "a/b".to_string()),
        (9, None, "a".to_string(), "a".to_string()),
        (4, None, "metadata".to_string(), "metadata".to_string()),
    ];
    let paths: Vec<String> = dirs.iter().map(|d| d.3.clone()).collect();
    let torrents = vec![torrent(1, "a/b", "x.torrent"), torrent(2, "", "y.torrent")];
    m.restore_metadata_inodes(dirs, torrents);
    for path in paths {
        let full = format!("metadata/{path}");
        let ino = m.find_ino_by_full_path(&full).expect("a directory for each row");
        assert_eq!(m.get_full_path(ino), full);
        assert_eq!(m.extract_source_path(ino), path);
    }
    assert!(m.find_ino_by_full_path("metadata/a/b/x.torrent").is_some());
    assert!(m.find_ino_by_full_path("metadata/y.torrent").is_some());
    for ino in m.inodes.keys() {
        let path = m.get_full_path(*ino);
        assert_eq!(m.find_ino_by_full_path(&path), Some(*ino));
        let told = path == "metadata" || path.starts_with("metadata/");
        assert_eq!(m.is_metadata_child(*ino), told);
        if told && *ino != METADATA_INO {
            assert_eq!(path, format!("metadata/{}", m.extract_source_path(*ino)));
        }
    }
}

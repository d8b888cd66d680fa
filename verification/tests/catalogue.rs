//! The rules of the catalogue.

use torrentfs::domain::types::{Torrent, TorrentStatus};
use torrentfs::infrastructure::db::counts::{get_torrent_counts_by_status, StatusCount};
use torrentfs::infrastructure::db::file_tree::{FileTree, LookupStep, PathLookup, TreeStep};
use torrentfs::infrastructure::db::metadata::{
    get_torrents_by_source_path_prefix, rename_metadata_directory, DirectoryChain, PathRow,
};
use torrentfs::infrastructure::db::migrations::{run_migrations, Migration};

/// Rows of directories and files, as a table would hold them.
struct Rows {
    directories: Vec<(i64, Option<i64>, String)>,
    files: Vec<(Option<i64>, String)>,
}

fn insert(tree: &mut FileTree, rows: &mut Rows) {
    loop {
        match tree.step() {
            TreeStep::Directory { parent, name } => {
                let known = rows
                    .directories
                    .iter()
                    .find(|d| d.1 == parent && d.2 == name)
                    .map(|d| d.0);
                let id = match known {
                    Some(id) => id,
                    None => {
                        let id = 100 + rows.directories.len() as i64;
                        rows.directories.push((id, parent, name));
                        id
                    }
                };
                tree.directory_is(id);
            }
            TreeStep::File { parent, name } => {
                rows.files.push((parent, name));
                return;
            }
        }
    }
}

#[test]
fn directories_on_the_paths_of_files_are_made_once() {
    let mut rows = Rows { directories: vec![], files: vec![] };
    let mut tree = FileTree::new("dir/sub/a.txt");
    insert(&mut tree, &mut rows);
    for path in ["dir/sub/b.txt", "dir/c.txt", "d.txt", "other/sub/e.txt"] {
        tree.next_file(path);
        insert(&mut tree, &mut rows);
    }
    assert_eq!(
        rows.directories,
        vec![
            (100, None, "dir".to_string()),
            (101, Some(100), "sub".to_string()),
            (102, None, "other".to_string()),
            (103, Some(102), "sub".to_string()),
        ]
    );
    assert_eq!(
        rows.files,
        vec![
            (Some(101), "a.txt".to_string()),
            (Some(101), "b.txt".to_string()),
            (Some(100), "c.txt".to_string()),
            (None, "d.txt".to_string()),
            (Some(103), "e.txt".to_string()),
        ]
    );
}

#[test]
fn files_are_looked_for_directory_by_directory() {
    let mut lookup = PathLookup::new("dir/sub/a.txt");
    assert!(matches!(
        lookup.step(),
        LookupStep::Directory { parent: None, name } if name == "dir"
    ));
    lookup.directory_is(Some(1));
    assert!(matches!(
        lookup.step(),
        LookupStep::Directory { parent: Some(1), name } if name == "sub"
    ));
    lookup.directory_is(Some(2));
    assert!(matches!(
        lookup.step(),
        LookupStep::File { parent: Some(2), name } if name == "a.txt"
    ));
    let mut lookup = PathLookup::new("no/a.txt");
    lookup.directory_is(None);
    assert!(matches!(lookup.step(), LookupStep::Missing));
    assert!(matches!(
        PathLookup::new("a.txt").step(),
        LookupStep::File { parent: None, name } if name == "a.txt"
    ));
}

#[test]
fn a_path_leads_through_its_directories() {
    let mut chain = DirectoryChain::new("/os//linux/");
    let first = chain.wanted().unwrap();
    assert_eq!((first.parent, first.name.as_str(), first.path.as_str()), (None, "os", "os"));
    chain.directory_is(5);
    let second = chain.wanted().unwrap();
    assert_eq!(
        (second.parent, second.name.as_str(), second.path.as_str()),
        (Some(5), "linux", "os/linux")
    );
    chain.directory_is(6);
    assert!(chain.wanted().is_none());
    assert!(DirectoryChain::new("").wanted().is_none());
}

fn row(id: i64, path: &str) -> PathRow {
    PathRow { id, path: path.to_string() }
}

#[test]
fn a_renamed_directory_takes_along_what_is_beneath() {
    let rows = vec![
        row(1, "os"),
        row(2, "os/linux"),
        row(3, "osx"),
        row(4, "os/linux/дистрибутив"),
        row(5, "o_/x"),
    ];
    let moved = rename_metadata_directory(&rows, "os", "система");
    let pairs: Vec<(i64, &str)> = moved.iter().map(|r| (r.id, r.path.as_str())).collect();
    assert_eq!(
        pairs,
        vec![(1, "система"), (2, "система/linux"), (4, "система/linux/дистрибутив")]
    );
    // Signs that stand for others in a pattern stand for themselves in a path.
    let moved = rename_metadata_directory(&rows, "o_", "p");
    assert_eq!(moved.len(), 1);
    assert_eq!(moved[0].path, "p/x");
}

fn named(id: i64, source_path: &str, name: &str) -> Torrent {
    Torrent {
        id,
        source_path: source_path.to_string(),
        name: name.to_string(),
        filename: "n.torrent".to_string(),
        total_size: 1,
        info_hash: "h".to_string(),
        file_count: 1,
        status: TorrentStatus::Pending,
        torrent_data: None,
        resume_data: None,
        created_at: String::new(),
    }
}

#[test]
fn test_get_torrents_by_source_path_prefix() {
    let all = || {
        vec![
            named(1, "os", "Ubuntu"),
            named(2, "os/linux", "Debian"),
            named(3, "os/bsd", "FreeBSD"),
            named(4, "other", "Other"),
        ]
    };
    // Prefix "os" should return torrents at "os", "os/linux", "os/bsd" (3 total)
    let torrents = get_torrents_by_source_path_prefix(all(), "os");
    assert_eq!(torrents.len(), 3);
    let names: Vec<&str> = torrents.iter().map(|t| t.name.as_str()).collect();
    assert!(names.contains(&"Ubuntu"));
    assert!(names.contains(&"Debian"));
    assert!(names.contains(&"FreeBSD"));

    // Prefix "os/linux" should return only the exact match and any deeper children
    let torrents = get_torrents_by_source_path_prefix(all(), "os/linux");
    assert_eq!(torrents.len(), 1);
    assert_eq!(torrents[0].name, "Debian");

    // Prefix "other" should return only "other" (no deeper children)
    let torrents = get_torrents_by_source_path_prefix(all(), "other");
    assert_eq!(torrents.len(), 1);
    assert_eq!(torrents[0].name, "Other");

    // Non-existent prefix returns empty
    let torrents = get_torrents_by_source_path_prefix(all(), "nonexistent");
    assert_eq!(torrents.len(), 0);

    // Everything lies beneath the empty prefix, in its order.
    let torrents = get_torrents_by_source_path_prefix(all(), "");
    let ids: Vec<i64> = torrents.iter().map(|t| t.id).collect();
    assert_eq!(ids, vec![1, 2, 3, 4]);
}

/// The paths of rows after a rename.
fn renamed(paths: &[&str], old: &str, new: &str) -> Vec<String> {
    let mut rows: Vec<PathRow> = paths
        .iter()
        .enumerate()
        .map(|(i, p)| row(i as i64, p))
        .collect();
    for change in rename_metadata_directory(&rows, old, new) {
        rows[change.id as usize].path = change.path;
    }
    rows.into_iter().map(|r| r.path).collect()
}

#[test]
fn test_rename_metadata_directory() {
    // Directories "movies" and "movies/action", and a torrent in "movies/action".
    let dir_paths = renamed(&["movies", "movies/action"], "movies", "films");
    assert!(dir_paths.contains(&"films".to_string()));
    assert!(dir_paths.contains(&"films/action".to_string()));
    assert!(!dir_paths.contains(&"movies".to_string()));
    assert!(!dir_paths.contains(&"movies/action".to_string()));
    assert_eq!(renamed(&["movies/action"], "movies", "films"), vec!["films/action"]);
}

#[test]
fn test_rename_metadata_directory_simple() {
    let dir_paths = renamed(&["old_dir"], "old_dir", "new_dir");
    assert!(dir_paths.contains(&"new_dir".to_string()));
    assert!(!dir_paths.contains(&"old_dir".to_string()));
    // The source path of the torrent in it.
    assert_eq!(renamed(&["old_dir"], "old_dir", "new_dir"), vec!["new_dir"]);
}

#[test]
fn test_rename_metadata_directory_nested_torrents() {
    // Both torrents should have updated source_paths
    let torrents = renamed(&["a/b", "a/c"], "a", "z");
    assert_eq!(torrents[0], "z/b");
    assert_eq!(torrents[1], "z/c");
}

#[test]
fn test_insert_files() {
    let mut rows = Rows { directories: vec![], files: vec![] };
    let mut tree = FileTree::new("dir1/file1.txt");
    insert(&mut tree, &mut rows);
    for path in ["dir1/file2.txt", "dir2/file3.txt"] {
        tree.next_file(path);
        insert(&mut tree, &mut rows);
    }
    assert_eq!(rows.files.len(), 3);
}

#[test]
fn test_nested_directory_structure() {
    let mut rows = Rows { directories: vec![], files: vec![] };
    insert(&mut FileTree::new("a/b/c/file.txt"), &mut rows);
    assert_eq!(rows.files.len(), 1);
    assert_eq!(rows.directories.len(), 3);
}

#[test]
fn torrents_are_counted_by_status() {
    let count = |status: &str, count: i64| StatusCount { status: status.to_string(), count };
    assert_eq!(
        get_torrent_counts_by_status(&vec![
            count("seeding", 2),
            count("strange", 50),
            count("pending", 1),
        ]),
        (1, 0, 2, 0, 3)
    );
}

#[test]
fn statuses_read_back_from_their_words() {
    for status in [
        TorrentStatus::Pending,
        TorrentStatus::Downloading,
        TorrentStatus::Seeding,
        TorrentStatus::Error,
    ] {
        assert_eq!(TorrentStatus::from(status.as_str()), status);
        assert_eq!(TorrentStatus::from(status.as_str().to_string()), status);
    }
    assert_eq!(TorrentStatus::from("strange"), TorrentStatus::Pending);
}

#[test]
fn catalogues_are_brought_up_to_date() {
    assert_eq!(
        run_migrations(0),
        vec![
            Migration::CreateTables,
            Migration::SetVersion(2),
            Migration::CreateMetadataDirectories,
            Migration::SetVersion(3),
            Migration::AddFilename,
            Migration::SetVersion(4),
            Migration::Commit,
            Migration::ForeignKeysOff,
            Migration::UniqueByFilename,
            Migration::ForeignKeysOn,
            Migration::SetVersion(5),
            Migration::RebuildMetadataDirectories,
        ]
    );
    assert_eq!(run_migrations(1)[0], Migration::AddColumns);
    assert_eq!(run_migrations(4).len(), 5);
    assert_eq!(run_migrations(5), vec![Migration::Commit]);
}

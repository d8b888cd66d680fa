//! Lookups and listings below `data/`, by what the catalogue answered.

use vstd::prelude::*;

use super::fs_service;
use super::fs_service::{contains_text, entries_after};
use super::fs_types::{DirEntry, FileKind, Listed};
use super::inodes;
use super::inodes::{
    DataInode, DataNode, InodeManager, DATA_DIR_INO_BASE, DATA_FILE_INO_BASE, DATA_INO,
    DATA_TORRENT_INO_BASE, ROOT_INO,
};
use crate::domain::types::{Torrent, TorrentDirectory, TorrentFile};
use crate::text;

verus! {

broadcast use vstd::std_specs::hash::group_hash_axioms;

/// What the catalogue has to be asked for about an entry below `data/`.
#[derive(Debug)]
pub enum DataQuery {
    /// The directories and the torrents at a source path.
    SourcePath { path: String },
    /// The top directories and files of a torrent, and the torrents at the parent of its source
    /// path.
    TorrentRoot { torrent_id: i64, source_path: String },
    /// The directories and files in a directory of a torrent, and the row of the directory.
    TorrentDir { torrent_id: i64, dir_id: i64 },
    /// Nothing: the entry has no children, or is not known.
    Nothing,
}

/// What the catalogue answered. A query that failed has no answer.
pub struct DataRows {
    /// The names of the directories at the source path.
    pub prefixes: Option<Vec<String>>,
    /// The torrents at the source path.
    pub torrents: Option<Vec<Torrent>>,
    /// The torrents at the parent of the source path; none where the query failed.
    pub parent_torrents: Vec<Torrent>,
    /// The directories in the torrent or in its directory.
    pub directories: Option<Vec<TorrentDirectory>>,
    /// The files in the torrent or in its directory.
    pub files: Option<Vec<TorrentFile>>,
    /// The directory with the name that is looked up, where there is one.
    pub named_directory: Option<Option<TorrentDirectory>>,
    /// The row of the directory that is listed.
    pub own_directory: Option<TorrentDirectory>,
}

pub open spec fn torrents_fit(v: Option<Vec<Torrent>>) -> bool {
    v matches Some(t) ==> forall|i: int|
        0 <= i < t@.len() ==> inodes::id_fits(DATA_TORRENT_INO_BASE, (#[trigger] t@[i]).id)
}

pub open spec fn directories_fit(v: Option<Vec<TorrentDirectory>>) -> bool {
    v matches Some(d) ==> forall|i: int|
        0 <= i < d@.len() ==> inodes::id_fits(DATA_DIR_INO_BASE, (#[trigger] d@[i]).id)
}

pub open spec fn files_fit(v: Option<Vec<TorrentFile>>) -> bool {
    v matches Some(f) ==> forall|i: int|
        0 <= i < f@.len() ==> inodes::id_fits(DATA_FILE_INO_BASE, (#[trigger] f@[i]).id)
}

pub open spec fn rows_in<T>(v: Option<Vec<T>>) -> nat {
    match v {
        Some(rows) => rows@.len(),
        None => 0,
    }
}

impl DataRows {
    /// The inode numbers for all rows can be written, and their offsets in a listing as well.
    pub open spec fn fit(&self) -> bool {
        &&& torrents_fit(self.torrents)
        &&& torrents_fit(Some(self.parent_torrents))
        &&& directories_fit(self.directories)
        &&& files_fit(self.files)
        &&& self.named_directory matches Some(Some(d)) ==> inodes::id_fits(DATA_DIR_INO_BASE, d.id)
        &&& self.own_directory matches Some(d) ==> (d.parent_id matches Some(p) ==> inodes::id_fits(
            DATA_DIR_INO_BASE,
            p,
        ))
        &&& rows_in(self.prefixes) + rows_in(self.torrents) < i64::MAX - 2
        &&& rows_in(self.directories) + rows_in(self.files) < i64::MAX - 2
    }
}

/// The inode number of a torrent's root.
pub open spec fn torrent_ino(id: i64) -> u64 {
    (DATA_TORRENT_INO_BASE + inodes::as_unsigned(id)) as u64
}

/// The inode number of a directory of a torrent.
pub open spec fn directory_ino(id: i64) -> u64 {
    (DATA_DIR_INO_BASE + inodes::as_unsigned(id)) as u64
}

/// The inode number of a file of a torrent.
pub open spec fn file_ino(id: i64) -> u64 {
    (DATA_FILE_INO_BASE + inodes::as_unsigned(id)) as u64
}

/// The path of `name` in the directory `prefix`.
pub open spec fn joined_path(prefix: Seq<char>, name: Seq<char>) -> Seq<char> {
    if prefix.len() == 0 {
        name
    } else {
        prefix + "/"@ + name
    }
}

/// The path of `name` in the directory `prefix`.
pub fn join_path(prefix: &str, name: &str) -> (r: String)
    ensures
        r@ == joined_path(prefix@, name@),
{
    if prefix.is_empty() {
        name.to_owned()
    } else {
        text::concat3(prefix, "/", name)
    }
}

/// The place of the first occurrence of a name.
pub open spec fn first_place(names: Seq<Seq<char>>, name: Seq<char>) -> Option<int>
    decreases names.len(),
{
    if names.len() == 0 {
        None
    } else {
        match first_place(names.drop_last(), name) {
            Some(i) => Some(i),
            None => if names.last() == name {
                Some(names.len() - 1)
            } else {
                None
            },
        }
    }
}

/// The first place is one, and there is none before it.
pub proof fn first_place_is_first(names: Seq<Seq<char>>, name: Seq<char>)
    ensures
        match first_place(names, name) {
            Some(i) => 0 <= i < names.len() && names[i] == name && forall|j: int|
                0 <= j < i ==> #[trigger] names[j] != name,
            None => !names.contains(name),
        },
    decreases names.len(),
{
    if names.len() > 0 {
        let head = names.drop_last();
        first_place_is_first(head, name);
        match first_place(head, name) {
            Some(i) => {
                assert forall|j: int| 0 <= j < i implies #[trigger] names[j] != name by {
                    assert(head[j] != name);
                }
            },
            None => {
                assert forall|j: int| 0 <= j < head.len() implies names[j] != name by {
                    assert(head.contains(head[j]));
                }
            },
        }
    }
}

proof fn first_place_stays(names: Seq<Seq<char>>, name: Seq<char>, n: int)
    requires
        0 <= n <= names.len(),
        first_place(names.take(n), name) is Some,
    ensures
        first_place(names, name) == first_place(names.take(n), name),
    decreases names.len() - n,
{
    if n < names.len() {
        assert(names.take(n + 1).drop_last() =~= names.take(n));
        first_place_stays(names, name, n + 1);
    } else {
        assert(names.take(n) =~= names);
    }
}

/// What the root of a torrent holds.
pub open spec fn torrent_root(t: Torrent) -> DataNode {
    DataNode::TorrentRoot {
        torrent_id: t.id,
        source_path: t.source_path@,
        name: t.name@,
        filename: t.filename@,
    }
}

pub open spec fn torrent_dir(torrent_id: i64, d: TorrentDirectory) -> DataNode {
    DataNode::TorrentDir { torrent_id, dir_id: d.id, name: d.name@ }
}

pub open spec fn torrent_file(torrent_id: i64, f: TorrentFile) -> DataNode {
    DataNode::TorrentFile { torrent_id, file_id: f.id, name: f.name@, size: f.size }
}

pub open spec fn filenames(ts: Seq<Torrent>) -> Seq<Seq<char>> {
    Seq::new(ts.len(), |i: int| ts[i].filename@)
}

pub open spec fn file_names(fs: Seq<TorrentFile>) -> Seq<Seq<char>> {
    Seq::new(fs.len(), |i: int| fs[i].name@)
}

/// What `name` leads to at a source path: a directory before a torrent.
pub open spec fn at_source_path(
    prefix: Seq<char>,
    name: Seq<char>,
    prefixes: Option<Vec<String>>,
    torrents: Option<Vec<Torrent>>,
) -> Option<(u64, DataNode)> {
    match prefixes {
        None => None,
        Some(ps) => if text::views(ps@).contains(name) {
            let path = joined_path(prefix, name);
            Some((inodes::source_path_dir_ino(path), DataNode::SourcePathDir { path }))
        } else {
            match torrents {
                None => None,
                Some(ts) => match first_place(filenames(ts@), name) {
                    Some(i) => Some((torrent_ino(ts@[i].id), torrent_root(ts@[i]))),
                    None => None,
                },
            }
        },
    }
}

/// What `name` leads to in a torrent: a directory before a file.
pub open spec fn in_torrent(
    torrent_id: i64,
    name: Seq<char>,
    directory: Option<Option<TorrentDirectory>>,
    files: Option<Vec<TorrentFile>>,
) -> Option<(u64, DataNode)> {
    match directory {
        None => None,
        Some(Some(d)) => Some((directory_ino(d.id), torrent_dir(torrent_id, d))),
        Some(None) => match files {
            None => None,
            Some(fs) => match first_place(file_names(fs@), name) {
                Some(i) => Some((file_ino(fs@[i].id), torrent_file(torrent_id, fs@[i]))),
                None => None,
            },
        },
    }
}

/// `r` is what the specification finds.
pub open spec fn finds(r: Option<(u64, DataInode)>, found: Option<(u64, DataNode)>) -> bool {
    match r {
        Some((ino, node)) => found == Some((ino, node@)),
        None => found is None,
    }
}

/// What `name` leads to in the entry `parent` below `data/`.
pub open spec fn data_lookup(
    data: Map<u64, DataNode>,
    parent: u64,
    name: Seq<char>,
    rows: &DataRows,
) -> Option<(u64, DataNode)> {
    if parent == DATA_INO {
        at_source_path(Seq::empty(), name, rows.prefixes, rows.torrents)
    } else if !data.contains_key(parent) {
        None
    } else {
        match data[parent] {
            DataNode::SourcePathDir { path } => at_source_path(
                path,
                name,
                rows.prefixes,
                rows.torrents,
            ),
            DataNode::TorrentRoot { torrent_id, .. } => in_torrent(
                torrent_id,
                name,
                rows.named_directory,
                rows.files,
            ),
            DataNode::TorrentDir { torrent_id, .. } => in_torrent(
                torrent_id,
                name,
                rows.named_directory,
                rows.files,
            ),
            DataNode::TorrentFile { .. } => None,
        }
    }
}

/// A child in a listing below `data/`.
pub struct Child {
    pub ino: u64,
    pub node: DataNode,
    pub name: Seq<char>,
}

pub open spec fn kind_of(node: DataNode) -> FileKind {
    if node is TorrentFile {
        FileKind::RegularFile
    } else {
        FileKind::Directory
    }
}

pub open spec fn prefix_children(path: Seq<char>, names: Seq<String>) -> Seq<Child> {
    Seq::new(
        names.len(),
        |i: int|
            Child {
                ino: inodes::source_path_dir_ino(joined_path(path, names[i]@)),
                node: DataNode::SourcePathDir { path: joined_path(path, names[i]@) },
                name: names[i]@,
            },
    )
}

pub open spec fn torrent_children(ts: Seq<Torrent>) -> Seq<Child> {
    Seq::new(
        ts.len(),
        |i: int|
            Child { ino: torrent_ino(ts[i].id), node: torrent_root(ts[i]), name: ts[i].filename@ },
    )
}

pub open spec fn directory_children(torrent_id: i64, ds: Seq<TorrentDirectory>) -> Seq<Child> {
    Seq::new(
        ds.len(),
        |i: int|
            Child {
                ino: directory_ino(ds[i].id),
                node: torrent_dir(torrent_id, ds[i]),
                name: ds[i].name@,
            },
    )
}

pub open spec fn file_children(torrent_id: i64, fs: Seq<TorrentFile>) -> Seq<Child> {
    Seq::new(
        fs.len(),
        |i: int|
            Child {
                ino: file_ino(fs[i].id),
                node: torrent_file(torrent_id, fs[i]),
                name: fs[i].name@,
            },
    )
}

/// The children of the entry `ino` below `data/`, or nothing where a query failed or where the
/// entry is no directory.
pub open spec fn data_children(
    data: Map<u64, DataNode>,
    ino: u64,
    rows: &DataRows,
) -> Option<Seq<Child>> {
    if ino == DATA_INO {
        match (rows.torrents, rows.prefixes) {
            (Some(ts), Some(ps)) => Some(torrent_children(ts@) + prefix_children(Seq::empty(), ps@)),
            _ => None,
        }
    } else if !data.contains_key(ino) {
        None
    } else {
        match data[ino] {
            DataNode::SourcePathDir { path } => match (rows.prefixes, rows.torrents) {
                (Some(ps), Some(ts)) => Some(prefix_children(path, ps@) + torrent_children(ts@)),
                _ => None,
            },
            DataNode::TorrentRoot { torrent_id, .. } => match (rows.directories, rows.files) {
                (Some(ds), Some(fs)) => Some(
                    directory_children(torrent_id, ds@) + file_children(torrent_id, fs@),
                ),
                _ => None,
            },
            DataNode::TorrentDir { torrent_id, .. } => match (rows.directories, rows.files) {
                (Some(ds), Some(fs)) => Some(
                    directory_children(torrent_id, ds@) + file_children(torrent_id, fs@),
                ),
                _ => None,
            },
            DataNode::TorrentFile { .. } => None,
        }
    }
}

/// The directory above a source path, or nothing at the top.
pub open spec fn path_above(path: Seq<char>) -> Option<Seq<char>> {
    let parts = text::split(path, '/');
    if path.len() == 0 || parts.len() == 1 {
        None
    } else {
        Some(text::join(parts.drop_last(), "/"@))
    }
}

/// What `..` leads to from the entry `ino` below `data/`.
pub open spec fn data_parent(data: Map<u64, DataNode>, ino: u64, rows: &DataRows) -> u64 {
    if ino == DATA_INO {
        ROOT_INO
    } else {
        match data[ino] {
            DataNode::SourcePathDir { path } => match path_above(path) {
                Some(above) => inodes::source_path_dir_ino(above),
                None => DATA_INO,
            },
            DataNode::TorrentRoot { source_path, .. } => if path_above(source_path) is Some
                && rows.parent_torrents@.len() > 0 {
                torrent_ino(rows.parent_torrents@[0].id)
            } else {
                DATA_INO
            },
            DataNode::TorrentDir { torrent_id, .. } => match rows.own_directory {
                Some(d) => match d.parent_id {
                    Some(p) => directory_ino(p),
                    None => torrent_ino(torrent_id),
                },
                None => torrent_ino(torrent_id),
            },
            DataNode::TorrentFile { .. } => DATA_INO,
        }
    }
}

/// A listing below `data/`: the directory itself, its parent, and its children.
pub open spec fn data_listing(ino: u64, parent: u64, children: Seq<Child>) -> Seq<Listed> {
    Seq::new(
        children.len() + 2,
        |i: int|
            if i == 0 {
                Listed { ino, offset: 1, kind: FileKind::Directory, name: "."@ }
            } else if i == 1 {
                Listed { ino: parent, offset: 2, kind: FileKind::Directory, name: ".."@ }
            } else {
                Listed {
                    ino: children[i - 2].ino,
                    offset: (i + 1) as i64,
                    kind: kind_of(children[i - 2].node),
                    name: children[i - 2].name,
                }
            },
    )
}

/// The table of `data/` entries with the given children; of two with one inode number the later
/// stays.
pub open spec fn with_children(m: Map<u64, DataNode>, children: Seq<Child>) -> Map<u64, DataNode>
    decreases children.len(),
{
    if children.len() == 0 {
        m
    } else {
        with_children(m, children.drop_last()).insert(children.last().ino, children.last().node)
    }
}

/// Whether `r` is what the catalogue has to be asked for about `ino`.
pub open spec fn asks_for(inode_mgr: InodeManager, ino: u64, r: DataQuery) -> bool {
    if ino == DATA_INO {
        r matches DataQuery::SourcePath { path } && path@ == Seq::<char>::empty()
    } else if !inode_mgr.data_nodes().contains_key(ino) {
        r is Nothing
    } else {
        match inode_mgr.data_nodes()[ino] {
            DataNode::SourcePathDir { path: p } => r matches DataQuery::SourcePath { path }
                && path@ == p,
            DataNode::TorrentRoot { torrent_id: t, source_path: s, .. } => r matches
                DataQuery::TorrentRoot { torrent_id, source_path } && torrent_id == t
                && source_path@ == s,
            DataNode::TorrentDir { torrent_id: t, dir_id: d, .. } => r matches
                DataQuery::TorrentDir { torrent_id, dir_id } && torrent_id == t && dir_id == d,
            DataNode::TorrentFile { .. } => r is Nothing,
        }
    }
}

/// Whether `r` is what a lookup of `name` in an entry below `data/` comes to, and `after` what is
/// known of `data/` then.
pub open spec fn looks_up_data(
    before: InodeManager,
    after: InodeManager,
    parent: u64,
    name: Seq<char>,
    rows: &DataRows,
    r: Option<(u64, FileKind, u64)>,
) -> bool {
    match data_lookup(before.data_nodes(), parent, name, rows) {
        Some((ino, node)) => {
            &&& after.data_nodes() == before.data_nodes().insert(ino, node)
            &&& r == Some(
                (
                    ino,
                    kind_of(node),
                    match node {
                        DataNode::TorrentFile { size, .. } => inodes::as_unsigned(size) as u64,
                        _ => 0,
                    },
                ),
            )
        },
        None => {
            &&& r is None
            &&& after.data_nodes() == before.data_nodes()
        },
    }
}

/// Whether `r` is what a listing of an entry below `data/` after `offset` comes to, and `after`
/// what is known of `data/` then.
pub open spec fn lists_data(
    before: InodeManager,
    after: InodeManager,
    ino: u64,
    offset: i64,
    rows: &DataRows,
    r: Option<Vec<DirEntry>>,
) -> bool {
    match data_children(before.data_nodes(), ino, rows) {
        Some(children) => {
            &&& after.data_nodes() == with_children(before.data_nodes(), children)
            &&& r matches Some(entries) && fs_service::entry_views(entries@)
                == fs_service::listed_after(
                data_listing(ino, data_parent(before.data_nodes(), ino, rows), children),
                offset,
            )
        },
        None => {
            &&& r is None
            &&& after.data_nodes() == before.data_nodes()
        },
    }
}

struct DataChild {
    ino: u64,
    node: DataInode,
    name: String,
}

spec fn child_views(v: Seq<DataChild>) -> Seq<Child> {
    Seq::new(v.len(), |i: int| Child { ino: v[i].ino, node: v[i].node@, name: v[i].name@ })
}

fn add_prefixes(out: &mut Vec<DataChild>, path: &str, names: &Vec<String>)
    ensures
        child_views(final(out)@) == child_views(old(out)@) + prefix_children(path@, names@),
{
    let ghost start = child_views(out@);
    let ghost all = prefix_children(path@, names@);
    let mut i: usize = 0;
    proof {
        assert(start + all.take(0) =~= start);
    }
    while i < names.len()
        invariant
            i <= names@.len(),
            all == prefix_children(path@, names@),
            child_views(out@) == start + all.take(i as int),
        decreases names@.len() - i,
    {
        let ghost before = child_views(out@);
        let child_path = join_path(path, names[i].as_str());
        let child = DataChild {
            ino: InodeManager::make_source_path_dir_ino(child_path.as_str()),
            node: DataInode::SourcePathDir { path: child_path },
            name: names[i].clone(),
        };
        out.push(child);
        proof {
            assert(child_views(out@) =~= before.push(all[i as int]));
            assert(start + all.take(i as int + 1) =~= (start + all.take(i as int)).push(
                all[i as int],
            ));
        }
        i = i + 1;
    }
    proof {
        assert(all.take(names@.len() as int) =~= all);
    }
}

fn add_torrents(out: &mut Vec<DataChild>, torrents: &Vec<Torrent>)
    requires
        forall|i: int|
            0 <= i < torrents@.len() ==> inodes::id_fits(
                DATA_TORRENT_INO_BASE,
                (#[trigger] torrents@[i]).id,
            ),
    ensures
        child_views(final(out)@) == child_views(old(out)@) + torrent_children(torrents@),
{
    let ghost start = child_views(out@);
    let ghost all = torrent_children(torrents@);
    let mut i: usize = 0;
    proof {
        assert(start + all.take(0) =~= start);
    }
    while i < torrents.len()
        invariant
            i <= torrents@.len(),
            forall|i: int|
                0 <= i < torrents@.len() ==> inodes::id_fits(
                    DATA_TORRENT_INO_BASE,
                    (#[trigger] torrents@[i]).id,
                ),
            all == torrent_children(torrents@),
            child_views(out@) == start + all.take(i as int),
        decreases torrents@.len() - i,
    {
        let ghost before = child_views(out@);
        let t = &torrents[i];
        let child = DataChild {
            ino: InodeManager::make_torrent_root_ino(t.id),
            node: torrent_root_inode(t),
            name: t.filename.clone(),
        };
        out.push(child);
        proof {
            assert(child_views(out@) =~= before.push(all[i as int]));
            assert(start + all.take(i as int + 1) =~= (start + all.take(i as int)).push(
                all[i as int],
            ));
        }
        i = i + 1;
    }
    proof {
        assert(all.take(torrents@.len() as int) =~= all);
    }
}

fn add_directories(out: &mut Vec<DataChild>, torrent_id: i64, dirs: &Vec<TorrentDirectory>)
    requires
        forall|i: int|
            0 <= i < dirs@.len() ==> inodes::id_fits(DATA_DIR_INO_BASE, (#[trigger] dirs@[i]).id),
    ensures
        child_views(final(out)@) == child_views(old(out)@) + directory_children(torrent_id, dirs@),
{
    let ghost start = child_views(out@);
    let ghost all = directory_children(torrent_id, dirs@);
    let mut i: usize = 0;
    proof {
        assert(start + all.take(0) =~= start);
    }
    while i < dirs.len()
        invariant
            i <= dirs@.len(),
            forall|i: int|
                0 <= i < dirs@.len() ==> inodes::id_fits(DATA_DIR_INO_BASE, (#[trigger] dirs@[i]).id),
            all == directory_children(torrent_id, dirs@),
            child_views(out@) == start + all.take(i as int),
        decreases dirs@.len() - i,
    {
        let ghost before = child_views(out@);
        let d = &dirs[i];
        let child = DataChild {
            ino: InodeManager::make_torrent_dir_ino(d.id),
            node: DataInode::TorrentDir { torrent_id, dir_id: d.id, name: d.name.clone() },
            name: d.name.clone(),
        };
        out.push(child);
        proof {
            assert(child_views(out@) =~= before.push(all[i as int]));
            assert(start + all.take(i as int + 1) =~= (start + all.take(i as int)).push(
                all[i as int],
            ));
        }
        i = i + 1;
    }
    proof {
        assert(all.take(dirs@.len() as int) =~= all);
    }
}

fn add_files(out: &mut Vec<DataChild>, torrent_id: i64, files: &Vec<TorrentFile>)
    requires
        forall|i: int|
            0 <= i < files@.len() ==> inodes::id_fits(DATA_FILE_INO_BASE, (#[trigger] files@[i]).id),
    ensures
        child_views(final(out)@) == child_views(old(out)@) + file_children(torrent_id, files@),
{
    let ghost start = child_views(out@);
    let ghost all = file_children(torrent_id, files@);
    let mut i: usize = 0;
    proof {
        assert(start + all.take(0) =~= start);
    }
    while i < files.len()
        invariant
            i <= files@.len(),
            forall|i: int|
                0 <= i < files@.len() ==> inodes::id_fits(DATA_FILE_INO_BASE, (#[trigger] files@[i]).id),
            all == file_children(torrent_id, files@),
            child_views(out@) == start + all.take(i as int),
        decreases files@.len() - i,
    {
        let ghost before = child_views(out@);
        let f = &files[i];
        let child = DataChild {
            ino: InodeManager::make_torrent_file_ino(f.id),
            node: DataInode::TorrentFile {
                torrent_id,
                file_id: f.id,
                name: f.name.clone(),
                size: f.size,
            },
            name: f.name.clone(),
        };
        out.push(child);
        proof {
            assert(child_views(out@) =~= before.push(all[i as int]));
            assert(start + all.take(i as int + 1) =~= (start + all.take(i as int)).push(
                all[i as int],
            ));
        }
        i = i + 1;
    }
    proof {
        assert(all.take(files@.len() as int) =~= all);
    }
}

fn torrent_root_inode(t: &Torrent) -> (r: DataInode)
    ensures
        r@ == torrent_root(*t),
{
    DataInode::TorrentRoot {
        torrent_id: t.id,
        source_path: t.source_path.clone(),
        name: t.name.clone(),
        filename: t.filename.clone(),
    }
}

/// The directory above a source path, or nothing at the top.
pub fn parent_source_path(path: &str) -> (r: Option<String>)
    ensures
        match r {
            Some(above) => path_above(path@) == Some(above@),
            None => path_above(path@) is None,
        },
{
    if path.is_empty() {
        return None;
    }
    let parts = text::split_on(path, '/');
    proof {
        assert(text::views(parts@).len() == parts@.len());
    }
    if parts.len() == 1 {
        return None;
    }
    proof {
        assert(text::views(parts@).take(parts@.len() - 1) =~= text::views(parts@).drop_last());
    }
    Some(text::join_first(&parts, parts.len() - 1, "/"))
}

pub struct DataResolver;

impl DataResolver {
    /// What the catalogue has to be asked for before a lookup in `ino` or a listing of it.
    pub fn data_query(inode_mgr: &InodeManager, ino: u64) -> (r: DataQuery)
        ensures
            asks_for(*inode_mgr, ino, r),
    {
        if ino == DATA_INO {
            return DataQuery::SourcePath { path: String::new() };
        }
        match inode_mgr.data_inodes.get(&ino) {
            None => DataQuery::Nothing,
            Some(node) => {
                proof {
                    assert(inode_mgr.data_nodes()[ino] == node@);
                }
                match node {
                    DataInode::SourcePathDir { path } => DataQuery::SourcePath {
                        path: path.clone(),
                    },
                    DataInode::TorrentRoot { torrent_id, source_path, .. } =>
                        DataQuery::TorrentRoot {
                            torrent_id: *torrent_id,
                            source_path: source_path.clone(),
                        },
                    DataInode::TorrentDir { torrent_id, dir_id, .. } => DataQuery::TorrentDir {
                        torrent_id: *torrent_id,
                        dir_id: *dir_id,
                    },
                    DataInode::TorrentFile { .. } => DataQuery::Nothing,
                }
            },
        }
    }

    /// What `name` leads to in `data/` itself.
    pub fn resolve_data_root_lookup(
        name: &str,
        prefixes: &Option<Vec<String>>,
        torrents: &Option<Vec<Torrent>>,
    ) -> (r: Option<(u64, DataInode)>)
        requires
            torrents_fit(*torrents),
        ensures
            finds(r, at_source_path(Seq::empty(), name@, *prefixes, *torrents)),
    {
        let top = String::new();
        Self::resolve_source_path_dir_lookup(top.as_str(), name, prefixes, torrents)
    }

    /// What `name` leads to in the directory of a source path.
    pub fn resolve_source_path_dir_lookup(
        prefix: &str,
        name: &str,
        prefixes: &Option<Vec<String>>,
        torrents: &Option<Vec<Torrent>>,
    ) -> (r: Option<(u64, DataInode)>)
        requires
            torrents_fit(*torrents),
        ensures
            finds(r, at_source_path(prefix@, name@, *prefixes, *torrents)),
    {
        let names = match prefixes {
            Some(names) => names,
            None => {
                return None;
            },
        };
        if contains_text(names, name) {
            let path = join_path(prefix, name);
            let ino = InodeManager::make_source_path_dir_ino(path.as_str());
            return Some((ino, DataInode::SourcePathDir { path }));
        }
        let rows = match torrents {
            Some(rows) => rows,
            None => {
                return None;
            },
        };
        let ghost all = filenames(rows@);
        let mut i: usize = 0;
        proof {
            assert(all.take(0) =~= Seq::empty());
        }
        while i < rows.len()
            invariant
                i <= rows@.len(),
                all == filenames(rows@),
                first_place(all.take(i as int), name@) is None,
                torrents_fit(*torrents),
                *torrents == Some(*rows),
                prefixes matches Some(ps) && !text::views(ps@).contains(name@),
            decreases rows@.len() - i,
        {
            proof {
                assert(all.take(i as int + 1).drop_last() =~= all.take(i as int));
            }
            let t = &rows[i];
            if text::same(t.filename.as_str(), name) {
                proof {
                    first_place_stays(all, name@, i as int + 1);
                }
                return Some((InodeManager::make_torrent_root_ino(t.id), torrent_root_inode(t)));
            }
            i = i + 1;
        }
        proof {
            assert(all.take(rows@.len() as int) =~= all);
        }
        None
    }

    /// What `name` leads to at the top of a torrent.
    pub fn resolve_torrent_root_lookup(
        torrent_id: i64,
        name: &str,
        directory: &Option<Option<TorrentDirectory>>,
        files: &Option<Vec<TorrentFile>>,
    ) -> (r: Option<(u64, DataInode)>)
        requires
            files_fit(*files),
            *directory matches Some(Some(d)) ==> inodes::id_fits(DATA_DIR_INO_BASE, d.id),
        ensures
            finds(r, in_torrent(torrent_id, name@, *directory, *files)),
    {
        Self::resolve_torrent_dir_lookup(torrent_id, name, directory, files)
    }

    /// What `name` leads to in a directory of a torrent.
    pub fn resolve_torrent_dir_lookup(
        torrent_id: i64,
        name: &str,
        directory: &Option<Option<TorrentDirectory>>,
        files: &Option<Vec<TorrentFile>>,
    ) -> (r: Option<(u64, DataInode)>)
        requires
            files_fit(*files),
            *directory matches Some(Some(d)) ==> inodes::id_fits(DATA_DIR_INO_BASE, d.id),
        ensures
            finds(r, in_torrent(torrent_id, name@, *directory, *files)),
    {
        match directory {
            None => {
                return None;
            },
            Some(Some(d)) => {
                return Some(
                    (
                        InodeManager::make_torrent_dir_ino(d.id),
                        DataInode::TorrentDir { torrent_id, dir_id: d.id, name: d.name.clone() },
                    ),
                );
            },
            Some(None) => {},
        }
        let rows = match files {
            Some(rows) => rows,
            None => {
                return None;
            },
        };
        let ghost all = file_names(rows@);
        let mut i: usize = 0;
        proof {
            assert(all.take(0) =~= Seq::empty());
        }
        while i < rows.len()
            invariant
                i <= rows@.len(),
                all == file_names(rows@),
                first_place(all.take(i as int), name@) is None,
                files_fit(*files),
                *files == Some(*rows),
                *directory == Some(None::<TorrentDirectory>),
            decreases rows@.len() - i,
        {
            proof {
                assert(all.take(i as int + 1).drop_last() =~= all.take(i as int));
            }
            let f = &rows[i];
            if text::same(f.name.as_str(), name) {
                proof {
                    first_place_stays(all, name@, i as int + 1);
                }
                return Some(
                    (
                        InodeManager::make_torrent_file_ino(f.id),
                        DataInode::TorrentFile {
                            torrent_id,
                            file_id: f.id,
                            name: f.name.clone(),
                            size: f.size,
                        },
                    ),
                );
            }
            i = i + 1;
        }
        proof {
            assert(all.take(rows@.len() as int) =~= all);
        }
        None
    }

    /// What `name` leads to in an entry below `data/`.
    pub fn resolve_data_lookup(
        inode_mgr: &InodeManager,
        parent: u64,
        name: &str,
        rows: &DataRows,
    ) -> (r: Option<(u64, DataInode)>)
        requires
            rows.fit(),
        ensures
            finds(r, data_lookup(inode_mgr.data_nodes(), parent, name@, rows)),
    {
        if parent == DATA_INO {
            return Self::resolve_data_root_lookup(name, &rows.prefixes, &rows.torrents);
        }
        match inode_mgr.data_inodes.get(&parent) {
            None => None,
            Some(node) => {
                proof {
                    assert(inode_mgr.data_nodes()[parent] == node@);
                }
                match node {
                    DataInode::SourcePathDir { path } => Self::resolve_source_path_dir_lookup(
                        path.as_str(),
                        name,
                        &rows.prefixes,
                        &rows.torrents,
                    ),
                    DataInode::TorrentRoot { torrent_id, .. } => Self::resolve_torrent_root_lookup(
                        *torrent_id,
                        name,
                        &rows.named_directory,
                        &rows.files,
                    ),
                    DataInode::TorrentDir { torrent_id, .. } => Self::resolve_torrent_dir_lookup(
                        *torrent_id,
                        name,
                        &rows.named_directory,
                        &rows.files,
                    ),
                    DataInode::TorrentFile { .. } => None,
                }
            },
        }
    }

    /// Looks a name up in an entry below `data/` and remembers what it leads to: the inode
    /// number, the kind and the size.
    pub fn lookup_data_inode(
        inode_mgr: &mut InodeManager,
        parent: u64,
        name: &str,
        rows: &DataRows,
    ) -> (r: Option<(u64, FileKind, u64)>)
        requires
            rows.fit(),
        ensures
            final(inode_mgr).inodes == old(inode_mgr).inodes,
            final(inode_mgr).open_files == old(inode_mgr).open_files,
            final(inode_mgr).creation_time == old(inode_mgr).creation_time,
            final(inode_mgr).next_ino == old(inode_mgr).next_ino,
            final(inode_mgr).next_fh == old(inode_mgr).next_fh,
            looks_up_data(*old(inode_mgr), *final(inode_mgr), parent, name@, rows, r),
    {
        let ghost before = inode_mgr.data_nodes();
        match Self::resolve_data_lookup(inode_mgr, parent, name, rows) {
            None => None,
            Some((ino, node)) => {
                let answer = match &node {
                    DataInode::TorrentFile { size, .. } => {
                        let s: i64 = *size;
                        assert(s < 0 ==> (s as u64) == s + 0x1_0000_0000_0000_0000)
                            by (bit_vector);
                        (ino, FileKind::RegularFile, s as u64)
                    },
                    _ => (ino, FileKind::Directory, 0),
                };
                let ghost v = node@;
                inode_mgr.data_inodes.insert(ino, node);
                proof {
                    assert(inode_mgr.data_nodes() =~= before.insert(ino, v));
                }
                Some(answer)
            },
        }
    }

    /// Lists an entry below `data/` from the entry after `offset`, and remembers its children.
    pub fn readdir_data(
        inode_mgr: &mut InodeManager,
        ino: u64,
        offset: i64,
        rows: &DataRows,
    ) -> (r: Option<Vec<DirEntry>>)
        requires
            rows.fit(),
            old(inode_mgr).data_nodes().contains_key(ino) ==> (old(
                inode_mgr,
            ).data_nodes()[ino] matches DataNode::TorrentDir { torrent_id, .. } ==> inodes::id_fits(
                DATA_TORRENT_INO_BASE,
                torrent_id,
            )),
        ensures
            final(inode_mgr).inodes == old(inode_mgr).inodes,
            final(inode_mgr).open_files == old(inode_mgr).open_files,
            final(inode_mgr).creation_time == old(inode_mgr).creation_time,
            final(inode_mgr).next_ino == old(inode_mgr).next_ino,
            final(inode_mgr).next_fh == old(inode_mgr).next_fh,
            lists_data(*old(inode_mgr), *final(inode_mgr), ino, offset, rows, r),
    {
        let mut children: Vec<DataChild> = Vec::new();
        proof {
            assert(child_views(children@) =~= Seq::empty());
        }
        let parent: u64;
        if ino == DATA_INO {
            match (&rows.torrents, &rows.prefixes) {
                (Some(torrents), Some(prefixes)) => {
                    add_torrents(&mut children, torrents);
                    let top = String::new();
                    add_prefixes(&mut children, top.as_str(), prefixes);
                    proof {
                        assert(top@ =~= Seq::empty());
                        assert(child_views(children@) =~= torrent_children(torrents@)
                            + prefix_children(Seq::empty(), prefixes@));
                    }
                },
                _ => {
                    return None;
                },
            }
            parent = ROOT_INO;
        } else {
            let node = match inode_mgr.data_inodes.get(&ino) {
                None => {
                    return None;
                },
                Some(node) => node.clone(),
            };
            proof {
                assert(inode_mgr.data_nodes()[ino] == node@);
            }
            match node {
                DataInode::SourcePathDir { path } => {
                    match (&rows.prefixes, &rows.torrents) {
                        (Some(prefixes), Some(torrents)) => {
                            add_prefixes(&mut children, path.as_str(), prefixes);
                            add_torrents(&mut children, torrents);
                            proof {
                                assert(child_views(children@) =~= prefix_children(
                                    path@,
                                    prefixes@,
                                ) + torrent_children(torrents@));
                            }
                        },
                        _ => {
                            return None;
                        },
                    }
                    parent = match parent_source_path(path.as_str()) {
                        Some(above) => InodeManager::make_source_path_dir_ino(above.as_str()),
                        None => DATA_INO,
                    };
                },
                DataInode::TorrentRoot { torrent_id, source_path, .. } => {
                    match (&rows.directories, &rows.files) {
                        (Some(dirs), Some(files)) => {
                            add_directories(&mut children, torrent_id, dirs);
                            add_files(&mut children, torrent_id, files);
                            proof {
                                assert(child_views(children@) =~= directory_children(
                                    torrent_id,
                                    dirs@,
                                ) + file_children(torrent_id, files@));
                            }
                        },
                        _ => {
                            return None;
                        },
                    }
                    parent = if parent_source_path(source_path.as_str()).is_some()
                        && rows.parent_torrents.len() > 0 {
                        InodeManager::make_torrent_root_ino(rows.parent_torrents[0].id)
                    } else {
                        DATA_INO
                    };
                },
                DataInode::TorrentDir { torrent_id, .. } => {
                    match (&rows.directories, &rows.files) {
                        (Some(dirs), Some(files)) => {
                            add_directories(&mut children, torrent_id, dirs);
                            add_files(&mut children, torrent_id, files);
                            proof {
                                assert(child_views(children@) =~= directory_children(
                                    torrent_id,
                                    dirs@,
                                ) + file_children(torrent_id, files@));
                            }
                        },
                        _ => {
                            return None;
                        },
                    }
                    let above: Option<i64> = match &rows.own_directory {
                        Some(d) => d.parent_id,
                        None => None,
                    };
                    parent = match above {
                        Some(p) => InodeManager::make_torrent_dir_ino(p),
                        None => InodeManager::make_torrent_root_ino(torrent_id),
                    };
                },
                DataInode::TorrentFile { .. } => {
                    return None;
                },
            }
        }
        Some(list_children(inode_mgr, ino, parent, children, offset))
    }
}

fn list_children(
    inode_mgr: &mut InodeManager,
    ino: u64,
    parent: u64,
    children: Vec<DataChild>,
    offset: i64,
) -> (r: Vec<DirEntry>)
    requires
        children@.len() < i64::MAX - 2,
    ensures
        final(inode_mgr).inodes == old(inode_mgr).inodes,
        final(inode_mgr).open_files == old(inode_mgr).open_files,
        final(inode_mgr).creation_time == old(inode_mgr).creation_time,
        final(inode_mgr).next_ino == old(inode_mgr).next_ino,
        final(inode_mgr).next_fh == old(inode_mgr).next_fh,
        final(inode_mgr).data_nodes() == with_children(
            old(inode_mgr).data_nodes(),
            child_views(children@),
        ),
        fs_service::entry_views(r@) == fs_service::listed_after(
            data_listing(ino, parent, child_views(children@)),
            offset,
        ),
{
    let ghost all = child_views(children@);
    let mut entries: Vec<DirEntry> = Vec::new();
    entries.push(DirEntry { ino, offset: 1, kind: FileKind::Directory, name: ".".to_owned() });
    entries.push(
        DirEntry { ino: parent, offset: 2, kind: FileKind::Directory, name: "..".to_owned() },
    );
    let mut i: usize = 0;
    proof {
        assert(all.take(0) =~= Seq::empty());
        assert(fs_service::entry_views(entries@) =~= data_listing(ino, parent, all.take(0)));
    }
    while i < children.len()
        invariant
            i <= children@.len(),
            children@.len() < i64::MAX - 2,
            all == child_views(children@),
            inode_mgr.inodes == old(inode_mgr).inodes,
            inode_mgr.open_files == old(inode_mgr).open_files,
            inode_mgr.creation_time == old(inode_mgr).creation_time,
            inode_mgr.next_ino == old(inode_mgr).next_ino,
            inode_mgr.next_fh == old(inode_mgr).next_fh,
            inode_mgr.data_nodes() == with_children(
                old(inode_mgr).data_nodes(),
                all.take(i as int),
            ),
            fs_service::entry_views(entries@) == data_listing(ino, parent, all.take(i as int)),
        decreases children@.len() - i,
    {
        let child = &children[i];
        let ghost table = inode_mgr.data_nodes();
        let ghost before = fs_service::entry_views(entries@);
        let ghost c = all[i as int];
        proof {
            assert(all.take(i as int + 1).drop_last() =~= all.take(i as int));
        }
        let kind = match &child.node {
            DataInode::TorrentFile { .. } => FileKind::RegularFile,
            _ => FileKind::Directory,
        };
        let entry = DirEntry {
            ino: child.ino,
            offset: i as i64 + 3,
            kind,
            name: child.name.clone(),
        };
        entries.push(entry);
        let node = child.node.clone();
        inode_mgr.data_inodes.insert(child.ino, node);
        proof {
            assert(fs_service::entry_views(entries@) =~= before.push(entry@));
            assert(data_listing(ino, parent, all.take(i as int + 1)) =~= data_listing(
                ino,
                parent,
                all.take(i as int),
            ).push(entry@));
            assert(inode_mgr.data_nodes() =~= table.insert(c.ino, c.node));
        }
        i = i + 1;
    }
    proof {
        assert(all.take(children@.len() as int) =~= all);
    }
    entries_after(&entries, offset)
}

/// A listing below `data/` counts its entries from one.
pub proof fn data_listing_counts_entries(ino: u64, parent: u64, children: Seq<Child>)
    requires
        children.len() < i64::MAX - 2,
    ensures
        fs_service::counts_entries(data_listing(ino, parent, children)),
{
}

/// No two children have the same name.
pub open spec fn distinct_names(children: Seq<Child>) -> bool {
    forall|a: int, b: int|
        #![trigger children[a], children[b]]
        0 <= a < children.len() && 0 <= b < children.len() && children[a].name == children[b].name
            ==> a == b
}

/// The catalogue's answer on the directory `name` fits its answer on all directories.
pub open spec fn names_directory(rows: &DataRows, name: Seq<char>) -> bool {
    &&& rows.directories is Some
    &&& match rows.named_directory {
        Some(Some(d)) => rows.directories->0@.contains(d) && d.name@ == name,
        Some(None) => forall|i: int|
            0 <= i < rows.directories->0@.len() ==> (#[trigger] rows.directories->0@[i]).name@
                != name,
        None => false,
    }
}

/// What a listing below `data/` shows, a lookup of its name finds, as long as names are distinct
/// and the catalogue does not contradict itself.
pub proof fn listed_data_entry_is_found(
    data: Map<u64, DataNode>,
    ino: u64,
    rows: &DataRows,
    children: Seq<Child>,
    i: int,
)
    requires
        data_children(data, ino, rows) == Some(children),
        0 <= i < children.len(),
        distinct_names(children),
        ino != DATA_INO && !(data[ino] is SourcePathDir) ==> names_directory(
            rows,
            children[i].name,
        ),
    ensures
        data_lookup(data, ino, children[i].name, rows) == Some((children[i].ino, children[i].node)),
{
    let name = children[i].name;
    if ino == DATA_INO || data[ino] is SourcePathDir {
        let path = if ino == DATA_INO {
            Seq::empty()
        } else {
            data[ino]->SourcePathDir_path
        };
        let ps = rows.prefixes->0@;
        let ts = rows.torrents->0@;
        let before = if ino == DATA_INO {
            ts.len() as int
        } else {
            0
        };
        if text::views(ps).contains(name) {
            let k = text::views(ps).index_of(name);
            assert(children[before + k].name == name);
        } else {
            first_place_is_first(filenames(ts), name);
            let start = if ino == DATA_INO {
                0
            } else {
                ps.len() as int
            };
            if before <= i < before + ps.len() {
                assert(text::views(ps)[i - before] == name);
            }
            assert(filenames(ts)[i - start] == name);
            let k = first_place(filenames(ts), name)->0;
            assert(children[start + k].name == name);
        }
    } else {
        let ds = rows.directories->0@;
        let fs = rows.files->0@;
        match rows.named_directory->0 {
            Some(d) => {
                let k = ds.index_of(d);
                assert(children[k].name == name);
            },
            None => {
                if i < ds.len() {
                    assert(ds[i].name@ == name);
                }
                first_place_is_first(file_names(fs), name);
                assert(file_names(fs)[i - ds.len()] == name);
                let k = first_place(file_names(fs), name)->0;
                assert(children[ds.len() + k].name == name);
            },
        }
    }
}

} // verus!

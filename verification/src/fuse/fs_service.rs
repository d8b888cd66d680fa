//! The filesystem operations: inode resolution, the life of `.torrent` files, reads and stats.
//!
//! An operation that needs the catalogue, the torrent parser or a rendered `.stats` file stops
//! at a step that says what is needed; a second function takes what came back.

use vstd::prelude::*;

use super::fs_types::{
    Attr, Created, DirEntry, Entry, FileKind, Listed, OpenOutcome, ReadOutcome, StatsKind,
};
use super::inodes;
use super::inodes::{
    copy_bytes, keys_of, DataInode, DataNode, InodeData, InodeManager, Node, DATA_DIR_INO_BASE,
    DATA_INO, DATA_TORRENT_INO_BASE, MAX_TORRENT_SIZE, METADATA_INO, ROOT_INO, STATS_INO,
    STATS_INO_OFFSET,
};
use crate::domain::error::TorrentResult;
use crate::domain::fs_error;
use crate::domain::fs_error::{FsError, FsResult};
use crate::domain::types::TorrentFile;
use crate::infrastructure::digest;
use crate::infrastructure::digest::hex_encode;
use crate::infrastructure::metrics;
use crate::infrastructure::metrics::{count, MetricsSnapshot};
use crate::table::TextMap;
use crate::text;

verus! {

broadcast use vstd::std_specs::hash::group_hash_axioms;

/// The state of the filesystem.
pub struct FsService {
    pub inode_mgr: InodeManager,
    /// The source paths at which a torrent is being added.
    pub processing_torrents: TextMap<()>,
    /// File contents by info hash and file.
    pub torrent_data_cache: TextMap<Vec<u8>>,
    /// Where the caller keeps each parsed torrent, by info hash.
    pub torrent_info_cache: TextMap<u64>,
    pub listen_addr: String,
    pub metrics: MetricsSnapshot,
}

/// Where the content of a `.stats` file comes from.
#[derive(Debug)]
pub enum StatsSource {
    Global,
    Directory { path: String },
    Torrent { torrent_id: i64 },
    /// There is nothing to show; the text says so.
    Notice { text: String },
}

/// Where the content of a `.stats` file comes from.
pub enum StatsOrigin {
    Global,
    Directory { path: Seq<char> },
    Torrent { torrent_id: i64 },
    Notice { text: Seq<char> },
}

impl View for StatsSource {
    type V = StatsOrigin;

    open spec fn view(&self) -> StatsOrigin {
        match *self {
            StatsSource::Global => StatsOrigin::Global,
            StatsSource::Directory { path } => StatsOrigin::Directory { path: path@ },
            StatsSource::Torrent { torrent_id } => StatsOrigin::Torrent { torrent_id },
            StatsSource::Notice { text } => StatsOrigin::Notice { text: text@ },
        }
    }
}

/// What a lookup comes to.
#[derive(Debug)]
pub enum LookupStep {
    Answer(Option<Entry>),
    /// A `.stats` file: its entry has the size of the rendered content.
    Stats { ino: u64, source: StatsSource },
    /// An entry below `data/`: the catalogue knows.
    Data,
}

/// What a request for attributes comes to.
#[derive(Debug)]
pub enum AttrStep {
    Answer(Attr),
    Missing,
    /// A `.stats` file: its size is that of the rendered content.
    Stats { source: StatsSource },
    /// The root of a torrent, if the catalogue has it.
    Torrent { torrent_id: i64 },
}

/// What a listing comes to.
#[derive(Debug)]
pub enum ReaddirStep {
    Entries(Vec<DirEntry>),
    Failed(FsError),
    /// A directory below `data/`: the catalogue knows.
    Data,
}

/// What closing a file asks for.
#[derive(Debug)]
pub enum ReleaseAction {
    Nothing,
    /// Add the torrent to the catalogue, then report the end with `release_done`.
    AddTorrent { data: Vec<u8>, source_path: String, name: String },
}

/// A made directory and its path in the catalogue.
#[derive(Debug)]
pub struct MadeDirectory {
    pub attr: Attr,
    pub source_path: String,
}

/// A file that is to be removed, and how the catalogue knows it.
#[derive(Debug)]
pub struct UnlinkPlan {
    pub ino: u64,
    pub filename: String,
    pub source_path: String,
}

/// What the catalogue has to take over from a rename.
#[derive(Debug)]
pub enum RenameAction {
    Nothing,
    Directory { old_path: String, new_name: String, new_path: String },
    File {
        old_name: String,
        old_source_path: String,
        new_name: String,
        new_source_path: String,
    },
}

/// What a read comes to.
#[derive(Debug)]
pub enum ReadStep {
    Ready(Vec<u8>),
    Failed(FsError),
    /// A range of a rendered `.stats` file.
    Stats { source: StatsSource },
    /// A range of a file of a torrent.
    Torrent { torrent_id: i64, file_id: i64, offset: u64, size: u32 },
}

/// The bytes of a read of `size` bytes at `offset`: fewer where the content ends before.
pub open spec fn byte_range(data: Seq<u8>, offset: int, size: int) -> Seq<u8> {
    if offset >= data.len() {
        Seq::empty()
    } else if offset + size < data.len() {
        data.subrange(offset, offset + size)
    } else {
        data.subrange(offset, data.len() as int)
    }
}

/// What a file holds after `data` was written at `offset`; a gap is filled with zeros.
pub open spec fn written(before: Seq<u8>, offset: int, data: Seq<u8>) -> Seq<u8> {
    Seq::new(
        if offset + data.len() > before.len() {
            (offset + data.len()) as nat
        } else {
            before.len()
        },
        |i: int|
            if offset <= i < offset + data.len() {
                data[i - offset]
            } else if i < before.len() {
                before[i]
            } else {
                0u8
            },
    )
}

/// What is read where something was written is what was written.
pub proof fn read_gives_back_write(before: Seq<u8>, offset: int, data: Seq<u8>)
    requires
        0 <= offset,
    ensures
        byte_range(written(before, offset, data), offset, data.len() as int) == data,
{
    assert(byte_range(written(before, offset, data), offset, data.len() as int) =~= data);
}

/// A write changes nothing before its start, nothing after its end, and never shortens a file.
pub proof fn write_leaves_the_rest(before: Seq<u8>, offset: int, data: Seq<u8>, i: int)
    requires
        0 <= offset,
        0 <= i < before.len(),
        i < offset || offset + data.len() <= i,
    ensures
        written(before, offset, data).len() >= before.len(),
        written(before, offset, data)[i] == before[i],
{
}

/// Adds zeros until there are at least `len` bytes.
fn pad_to(data: &mut Vec<u8>, len: usize)
    ensures
        final(data)@ == old(data)@ + Seq::new(
            if len > old(data)@.len() {
                (len - old(data)@.len()) as nat
            } else {
                0
            },
            |i: int| 0u8,
        ),
{
    let ghost before = data@;
    while data.len() < len
        invariant
            before.len() <= data@.len(),
            data@.len() <= len || data@.len() == before.len(),
            data@ == before + Seq::new((data@.len() - before.len()) as nat, |i: int| 0u8),
        decreases len - data@.len(),
    {
        let ghost n = data@.len();
        data.push(0);
        proof {
            assert(data@ =~= before + Seq::new((n + 1 - before.len()) as nat, |i: int| 0u8));
        }
    }
    proof {
        assert(data@ =~= before + Seq::new(
            if len > before.len() {
                (len - before.len()) as nat
            } else {
                0
            },
            |i: int| 0u8,
        ));
    }
}

/// The bytes of a read of `size` bytes at `offset`.
pub fn slice_bytes(data: &Vec<u8>, offset: i64, size: u32) -> (r: Vec<u8>)
    ensures
        r@ == byte_range(data@, inodes::as_unsigned(offset), size as int),
{
    assert(offset < 0 ==> (offset as u64) == offset + 0x1_0000_0000_0000_0000) by (bit_vector);
    slice_from(data, offset as u64, size)
}

/// The bytes of a read of `size` bytes at `start`.
pub fn slice_from(data: &Vec<u8>, start: u64, size: u32) -> (r: Vec<u8>)
    ensures
        r@ == byte_range(data@, start as int, size as int),
{
    let mut r: Vec<u8> = Vec::new();
    if start >= data.len() as u64 {
        return r;
    }
    let first: usize = start as usize;
    let end: usize = if (size as u64) < (data.len() - first) as u64 {
        first + size as usize
    } else {
        data.len()
    };
    let mut i: usize = first;
    while i < end
        invariant
            first <= i <= end <= data@.len(),
            r@ == data@.subrange(first as int, i as int),
        decreases end - i,
    {
        r.push(data[i]);
        proof {
            assert(r@ =~= data@.subrange(first as int, i as int + 1));
        }
        i = i + 1;
    }
    r
}

/// The entry of an inode of the tree.
pub open spec fn entry_of(nodes: Map<u64, Node>, ino: u64) -> Entry {
    Entry {
        ino,
        attr: match nodes[ino] {
            Node::Directory { .. } => Attr::dir(ino, true),
            Node::File { data, .. } => Attr::file(ino, data.len() as u64),
        },
    }
}

/// Where the `.stats` file `ino` of a directory gets its content from.
pub open spec fn data_stats_origin(data: Map<u64, DataNode>, ino: u64) -> StatsOrigin {
    match InodeManager::stats_owner(ino) {
        None => StatsOrigin::Notice { text: "Invalid stats inode\n"@ },
        Some(dir) => if dir == DATA_INO {
            StatsOrigin::Directory { path: Seq::empty() }
        } else if data.contains_key(dir) {
            match data[dir] {
                DataNode::SourcePathDir { path } => StatsOrigin::Directory { path },
                DataNode::TorrentRoot { torrent_id, .. } => StatsOrigin::Torrent { torrent_id },
                _ => StatsOrigin::Notice { text: "Stats not available for this inode\n"@ },
            }
        } else {
            StatsOrigin::Notice { text: "Stats not available for this inode\n"@ }
        },
    }
}

/// The error that a new entry `name` in `parent` meets, if any. A file has to be a `.torrent`.
pub open spec fn new_entry_error(
    nodes: Map<u64, Node>,
    parent: u64,
    name: Seq<char>,
    file: bool,
) -> Option<FsError> {
    if InodeManager::in_data_namespace(parent) {
        Some(FsError::ReadOnlyFileSystem)
    } else if !inodes::beneath(nodes, parent, METADATA_INO) {
        Some(FsError::PermissionDenied)
    } else if file && !text::ends(name, ".torrent"@) {
        Some(FsError::PermissionDenied)
    } else if exists|ino: u64| #[trigger] inodes::is_child(nodes, ino, parent, name) {
        Some(FsError::AlreadyExists)
    } else {
        None
    }
}

/// The path in the catalogue of the directory `name` in `parent`.
pub open spec fn child_source_path(nodes: Map<u64, Node>, parent: u64, name: Seq<char>) -> Seq<
    char,
> {
    if inodes::source_path(nodes, parent).len() == 0 {
        name
    } else {
        inodes::source_path(nodes, parent) + "/"@ + name
    }
}

/// Whether a listing of `ino` shows the entry.
pub open spec fn listed_in(node: Node, ino: u64) -> bool {
    node.parent() == ino && (node is File || node.name().len() > 0)
}

/// The children that a listing of `ino` shows, in some order.
pub open spec fn are_children(nodes: Map<u64, Node>, ino: u64, children: Seq<u64>) -> bool {
    children.no_duplicates() && forall|k: u64| #[trigger]
        children.contains(k) <==> nodes.contains_key(k) && listed_in(nodes[k], ino)
}

/// A listing: the directory itself, its parent, and the given children.
pub open spec fn listing(nodes: Map<u64, Node>, ino: u64, children: Seq<u64>) -> Seq<Listed> {
    Seq::new(
        children.len() + 2,
        |i: int|
            if i == 0 {
                Listed { ino, offset: 1, kind: FileKind::Directory, name: "."@ }
            } else if i == 1 {
                Listed {
                    ino: nodes[ino].parent(),
                    offset: 2,
                    kind: FileKind::Directory,
                    name: ".."@,
                }
            } else {
                Listed {
                    ino: children[i - 2],
                    offset: (i + 1) as i64,
                    kind: if nodes[children[i - 2]] is Directory {
                        FileKind::Directory
                    } else {
                        FileKind::RegularFile
                    },
                    name: nodes[children[i - 2]].name(),
                }
            },
    )
}

/// The listing of the root.
pub open spec fn root_listing() -> Seq<Listed> {
    seq![
        Listed { ino: ROOT_INO, offset: 1, kind: FileKind::Directory, name: "."@ },
        Listed { ino: ROOT_INO, offset: 2, kind: FileKind::Directory, name: ".."@ },
        Listed { ino: METADATA_INO, offset: 3, kind: FileKind::Directory, name: "metadata"@ },
        Listed { ino: DATA_INO, offset: 4, kind: FileKind::Directory, name: "data"@ },
        Listed { ino: STATS_INO, offset: 5, kind: FileKind::RegularFile, name: ".stats"@ },
    ]
}

/// The part of a listing that comes after `offset`.
pub open spec fn listed_after(all: Seq<Listed>, offset: i64) -> Seq<Listed> {
    all.filter(|e: Listed| e.offset > offset)
}

pub open spec fn entry_views(entries: Seq<DirEntry>) -> Seq<Listed> {
    Seq::new(entries.len(), |i: int| entries[i]@)
}

/// The entries of a listing that come after `offset`.
pub(crate) fn entries_after(entries: &Vec<DirEntry>, offset: i64) -> (r: Vec<DirEntry>)
    ensures
        entry_views(r@) == listed_after(entry_views(entries@), offset),
{
    let mut r: Vec<DirEntry> = Vec::new();
    let mut i: usize = 0;
    let ghost all = entry_views(entries@);
    proof {
        reveal(Seq::filter);
        assert(all.take(0) =~= Seq::empty());
        assert(entry_views(r@) =~= listed_after(all.take(0), offset));
    }
    while i < entries.len()
        invariant
            i <= entries@.len(),
            all == entry_views(entries@),
            entry_views(r@) == listed_after(all.take(i as int), offset),
        decreases entries@.len() - i,
    {
        proof {
            reveal(Seq::filter);
            assert(all.take(i as int + 1).drop_last() =~= all.take(i as int));
        }
        let ghost before = entry_views(r@);
        if entries[i].offset > offset {
            let e = entries[i].clone();
            r.push(e);
            proof {
                assert(entry_views(r@) =~= before.push(e@));
            }
        }
        i = i + 1;
    }
    proof {
        assert(all.take(entries@.len() as int) =~= all);
    }
    r
}

impl FsService {
    pub open spec fn wf(&self) -> bool {
        &&& self.inode_mgr.wf()
        &&& self.processing_torrents.wf()
        &&& self.torrent_data_cache.wf()
        &&& self.torrent_info_cache.wf()
    }

    pub open spec fn nodes(&self) -> Map<u64, Node> {
        self.inode_mgr.nodes()
    }

    pub open spec fn data_nodes(&self) -> Map<u64, DataNode> {
        self.inode_mgr.data_nodes()
    }

    /// Nothing but the inode tables differs.
    pub open spec fn same_but_inodes(&self, other: &FsService) -> bool {
        &&& self.processing_torrents == other.processing_torrents
        &&& self.torrent_data_cache == other.torrent_data_cache
        &&& self.torrent_info_cache == other.torrent_info_cache
        &&& self.listen_addr == other.listen_addr
        &&& self.metrics == other.metrics
    }

    pub fn new(creation_time: u64, listen_addr: String) -> (r: FsService)
        ensures
            r.wf(),
            r.nodes().dom() == set![ROOT_INO, METADATA_INO, DATA_INO, STATS_INO],
            r.data_nodes() == Map::<u64, DataNode>::empty(),
            r.inode_mgr.open_files@ == Map::<u64, u64>::empty(),
            r.inode_mgr.creation_time == creation_time,
            r.inode_mgr.next_ino == inodes::FIRST_FREE_INO,
            r.inode_mgr.next_fh == 1,
            r.processing_torrents@ == Map::<Seq<char>, ()>::empty(),
            r.torrent_data_cache@ == Map::<Seq<char>, Vec<u8>>::empty(),
            r.torrent_info_cache@ == Map::<Seq<char>, u64>::empty(),
            r.listen_addr == listen_addr,
            r.metrics == MetricsSnapshot::zero(),
    {
        FsService {
            inode_mgr: InodeManager::new(creation_time),
            processing_torrents: TextMap::new(),
            torrent_data_cache: TextMap::new(),
            torrent_info_cache: TextMap::new(),
            listen_addr,
            metrics: MetricsSnapshot::new(),
        }
    }

    /// Whether `r` is what a lookup of `name` in `parent` comes to.
    pub open spec fn looks_up(&self, parent: u64, name: Seq<char>, r: LookupStep) -> bool {
        if parent == ROOT_INO {
            if name == "metadata"@ {
                r == LookupStep::Answer(
                    Some(Entry { ino: METADATA_INO, attr: Attr::dir(METADATA_INO, true) }),
                )
            } else if name == "data"@ {
                r == LookupStep::Answer(
                    Some(Entry { ino: DATA_INO, attr: Attr::dir(DATA_INO, false) }),
                )
            } else if name == ".stats"@ {
                r matches LookupStep::Stats { ino, source } && ino == STATS_INO && source@
                    == StatsOrigin::Global
            } else {
                r == LookupStep::Answer(None)
            }
        } else if name == ".stats"@ && parent == DATA_INO {
            r matches LookupStep::Stats { ino, source } && ino == DATA_INO + STATS_INO_OFFSET
                && source@ == (StatsOrigin::Directory { path: Seq::empty() })
        } else if name == ".stats"@ && self.data_nodes().contains_key(parent) {
            match self.data_nodes()[parent] {
                DataNode::SourcePathDir { path } => r matches LookupStep::Stats { ino, source }
                    && ino == parent + STATS_INO_OFFSET && source@ == (StatsOrigin::Directory {
                    path,
                }),
                DataNode::TorrentRoot { torrent_id, .. } => r matches LookupStep::Stats {
                    ino,
                    source,
                } && ino == parent + STATS_INO_OFFSET && source@ == (StatsOrigin::Torrent {
                    torrent_id,
                }),
                _ => r == LookupStep::Answer(None),
            }
        } else if InodeManager::in_data_namespace(parent) {
            r is Data
        } else {
            match r {
                LookupStep::Answer(Some(e)) => inodes::is_child(self.nodes(), e.ino, parent, name) && e
                    == entry_of(self.nodes(), e.ino),
                LookupStep::Answer(None) => forall|ino: u64|
                    !#[trigger] inodes::is_child(self.nodes(), ino, parent, name),
                _ => false,
            }
        }
    }

    /// Looks a name up in a directory.
    pub fn lookup(&self, parent: u64, name: &str) -> (r: LookupStep)
        requires
            self.wf(),
            self.data_nodes().contains_key(parent) ==> parent + STATS_INO_OFFSET <= u64::MAX,
        ensures
            self.looks_up(parent, name@, r),
    {
        if parent == ROOT_INO {
            if text::same(name, "metadata") {
                return LookupStep::Answer(
                    Some(
                        Entry {
                            ino: METADATA_INO,
                            attr: self.inode_mgr.attr_for_dir(METADATA_INO, true),
                        },
                    ),
                );
            }
            if text::same(name, "data") {
                return LookupStep::Answer(
                    Some(
                        Entry { ino: DATA_INO, attr: self.inode_mgr.attr_for_dir(DATA_INO, false) },
                    ),
                );
            }
            if text::same(name, ".stats") {
                return LookupStep::Stats { ino: STATS_INO, source: StatsSource::Global };
            }
            return LookupStep::Answer(None);
        }
        if text::same(name, ".stats") {
            if parent == DATA_INO {
                return LookupStep::Stats {
                    ino: InodeManager::make_stats_ino(parent),
                    source: StatsSource::Directory { path: String::new() },
                };
            }
            match self.inode_mgr.data_inodes.get(&parent) {
                Some(data_inode) => {
                    proof {
                        assert(self.data_nodes()[parent] == data_inode@);
                    }
                    match data_inode {
                        DataInode::SourcePathDir { path } => {
                            return LookupStep::Stats {
                                ino: InodeManager::make_stats_ino(parent),
                                source: StatsSource::Directory { path: path.clone() },
                            };
                        },
                        DataInode::TorrentRoot { torrent_id, .. } => {
                            return LookupStep::Stats {
                                ino: InodeManager::make_stats_ino(parent),
                                source: StatsSource::Torrent { torrent_id: *torrent_id },
                            };
                        },
                        _ => {
                            return LookupStep::Answer(None);
                        },
                    }
                },
                None => {},
            }
        }
        if InodeManager::is_data_namespace(parent) {
            return LookupStep::Data;
        }
        match self.inode_mgr.find_child_by_name(parent, name) {
            Some(ino) => {
                match self.inode_mgr.inodes.get(&ino) {
                    Some(data) => {
                        proof {
                            assert(self.nodes()[ino] == data@);
                        }
                        let attr = match data {
                            InodeData::Directory { .. } => self.inode_mgr.attr_for_dir(ino, true),
                            InodeData::File { data: file_data, .. } => self.inode_mgr.attr_for_file(
                                ino,
                                file_data.len() as u64,
                            ),
                        };
                        LookupStep::Answer(Some(Entry { ino, attr }))
                    },
                    None => LookupStep::Answer(None),
                }
            },
            None => LookupStep::Answer(None),
        }
    }

    /// The entry of a `.stats` file whose rendered content has `len` bytes.
    pub fn stats_entry(&self, ino: u64, len: u64) -> (r: Entry)
        ensures
            r == (Entry { ino, attr: Attr::file(ino, len) }),
    {
        Entry { ino, attr: self.inode_mgr.attr_for_file(ino, len) }
    }

    /// Where the content of a directory's `.stats` file comes from.
    pub fn stats_source(&self, ino: u64) -> (r: StatsSource)
        ensures
            r@ == data_stats_origin(self.data_nodes(), ino),
    {
        let dir: u64 = match InodeManager::stats_ino_to_dir_ino(ino) {
            Some(d) => d,
            None => {
                return StatsSource::Notice { text: "Invalid stats inode\n".to_owned() };
            },
        };
        if dir == DATA_INO {
            return StatsSource::Directory { path: String::new() };
        }
        match self.inode_mgr.data_inodes.get(&dir) {
            Some(data_inode) => {
                proof {
                    assert(self.data_nodes()[dir] == data_inode@);
                }
                match data_inode {
                    DataInode::SourcePathDir { path } => StatsSource::Directory {
                        path: path.clone(),
                    },
                    DataInode::TorrentRoot { torrent_id, .. } => StatsSource::Torrent {
                        torrent_id: *torrent_id,
                    },
                    _ => StatsSource::Notice {
                        text: "Stats not available for this inode\n".to_owned(),
                    },
                }
            },
            None => StatsSource::Notice { text: "Stats not available for this inode\n".to_owned() },
        }
    }

    /// Where the content of a `.stats` file comes from.
    pub fn read_stats(&self, kind: StatsKind) -> (r: StatsSource)
        ensures
            r@ == (match kind {
                StatsKind::Global => StatsOrigin::Global,
                StatsKind::StatsInode { ino } => data_stats_origin(self.data_nodes(), ino),
            }),
    {
        match kind {
            StatsKind::Global => StatsSource::Global,
            StatsKind::StatsInode { ino } => self.stats_source(ino),
        }
    }

    /// Whether `r` is what a request for the attributes of `ino` comes to.
    pub open spec fn has_attr(&self, ino: u64, r: AttrStep) -> bool {
        if ino == ROOT_INO || ino == DATA_INO {
            r == AttrStep::Answer(Attr::dir(ino, false))
        } else if ino == METADATA_INO {
            r == AttrStep::Answer(Attr::dir(ino, true))
        } else if ino == STATS_INO {
            r matches AttrStep::Stats { source } && source@ == StatsOrigin::Global
        } else if InodeManager::stats_ino(ino) {
            r matches AttrStep::Stats { source } && source@ == data_stats_origin(
                self.data_nodes(),
                ino,
            )
        } else if InodeManager::data_ino(ino) {
            if self.data_nodes().contains_key(ino) {
                match self.data_nodes()[ino] {
                    DataNode::TorrentFile { size, .. } => r == AttrStep::Answer(
                        Attr::file(ino, inodes::as_unsigned(size) as u64),
                    ),
                    _ => r == AttrStep::Answer(Attr::dir(ino, false)),
                }
            } else if ino < DATA_DIR_INO_BASE {
                r matches AttrStep::Torrent { torrent_id } && torrent_id == ino
                    - DATA_TORRENT_INO_BASE
            } else {
                r is Missing
            }
        } else if self.nodes().contains_key(ino) {
            match self.nodes()[ino] {
                Node::Directory { .. } => r == AttrStep::Answer(
                    Attr::dir(ino, inodes::beneath(self.nodes(), ino, METADATA_INO)),
                ),
                Node::File { data, .. } => r == AttrStep::Answer(
                    Attr::file(ino, data.len() as u64),
                ),
            }
        } else {
            r is Missing
        }
    }

    /// The attributes of an inode.
    pub fn getattr(&self, ino: u64) -> (r: AttrStep)
        requires
            self.wf(),
        ensures
            self.has_attr(ino, r),
    {
        if ino == ROOT_INO || ino == DATA_INO {
            return AttrStep::Answer(self.inode_mgr.attr_for_dir(ino, false));
        }
        if ino == METADATA_INO {
            return AttrStep::Answer(self.inode_mgr.attr_for_dir(ino, true));
        }
        if ino == STATS_INO {
            return AttrStep::Stats { source: StatsSource::Global };
        }
        if InodeManager::is_stats_ino(ino) {
            return AttrStep::Stats { source: self.stats_source(ino) };
        }
        if InodeManager::is_data_ino(ino) {
            match self.inode_mgr.data_inodes.get(&ino) {
                Some(data_inode) => {
                    proof {
                        assert(self.data_nodes()[ino] == data_inode@);
                    }
                    return match data_inode {
                        DataInode::TorrentFile { size, .. } => {
                            let s: i64 = *size;
                            assert(s < 0 ==> (s as u64) == s + 0x1_0000_0000_0000_0000)
                                by (bit_vector);
                            AttrStep::Answer(self.inode_mgr.attr_for_file(ino, s as u64))
                        },
                        _ => AttrStep::Answer(self.inode_mgr.attr_for_dir(ino, false)),
                    };
                },
                None => {},
            }
            if ino < DATA_DIR_INO_BASE {
                return AttrStep::Torrent { torrent_id: (ino - DATA_TORRENT_INO_BASE) as i64 };
            }
            return AttrStep::Missing;
        }
        match self.inode_mgr.inodes.get(&ino) {
            Some(data) => {
                proof {
                    assert(self.nodes()[ino] == data@);
                }
                match data {
                    InodeData::Directory { .. } => AttrStep::Answer(
                        self.inode_mgr.attr_for_dir(ino, self.inode_mgr.is_metadata_child(ino)),
                    ),
                    InodeData::File { data: file_data, .. } => AttrStep::Answer(
                        self.inode_mgr.attr_for_file(ino, file_data.len() as u64),
                    ),
                }
            },
            None => AttrStep::Missing,
        }
    }

    /// The attributes of the root of a torrent, by whether the catalogue has it.
    pub fn torrent_attr(&self, ino: u64, exists_in_catalogue: bool) -> (r: FsResult<Attr>)
        ensures
            r == (if exists_in_catalogue {
                Ok::<Attr, FsError>(Attr::dir(ino, false))
            } else {
                Err(FsError::NotFound)
            }),
    {
        if exists_in_catalogue {
            Ok(self.inode_mgr.attr_for_dir(ino, false))
        } else {
            Err(FsError::NotFound)
        }
    }
}

impl FsService {
    /// Whether `r` is what a listing of `ino` after `offset` comes to.
    pub open spec fn lists(&self, ino: u64, offset: i64, r: ReaddirStep) -> bool {
        if InodeManager::in_data_namespace(ino) {
            r is Data
        } else if ino == ROOT_INO {
            r matches ReaddirStep::Entries(entries) && entry_views(entries@) == listed_after(
                root_listing(),
                offset,
            )
        } else if self.nodes().contains_key(ino) && self.nodes()[ino] is Directory {
            r matches ReaddirStep::Entries(entries) && exists|children: Seq<u64>| #[trigger]
                are_children(self.nodes(), ino, children) && entry_views(entries@) == listed_after(
                    listing(self.nodes(), ino, children),
                    offset,
                )
        } else {
            r == ReaddirStep::Failed(FsError::NotDirectory)
        }
    }

    /// Lists a directory, from the entry after `offset`.
    pub fn readdir(&self, ino: u64, offset: i64) -> (r: ReaddirStep)
        requires
            self.nodes().dom().len() < i64::MAX - 2,
        ensures
            self.lists(ino, offset, r),
    {
        if InodeManager::is_data_namespace(ino) {
            return ReaddirStep::Data;
        }
        let mut entries: Vec<DirEntry> = Vec::new();
        entries.push(
            DirEntry { ino, offset: 1, kind: FileKind::Directory, name: ".".to_owned() },
        );
        if ino == ROOT_INO {
            entries.push(
                DirEntry {
                    ino: ROOT_INO,
                    offset: 2,
                    kind: FileKind::Directory,
                    name: "..".to_owned(),
                },
            );
            entries.push(
                DirEntry {
                    ino: METADATA_INO,
                    offset: 3,
                    kind: FileKind::Directory,
                    name: "metadata".to_owned(),
                },
            );
            entries.push(
                DirEntry {
                    ino: DATA_INO,
                    offset: 4,
                    kind: FileKind::Directory,
                    name: "data".to_owned(),
                },
            );
            entries.push(
                DirEntry {
                    ino: STATS_INO,
                    offset: 5,
                    kind: FileKind::RegularFile,
                    name: ".stats".to_owned(),
                },
            );
            proof {
                assert(entry_views(entries@) =~= root_listing());
            }
            return ReaddirStep::Entries(entries_after(&entries, offset));
        }
        let ghost nodes = self.nodes();
        let up: u64 = match self.inode_mgr.inodes.get(&ino) {
            Some(InodeData::Directory { parent, .. }) => *parent,
            _ => {
                return ReaddirStep::Failed(FsError::NotDirectory);
            },
        };
        proof {
            assert(nodes.contains_key(ino) && nodes[ino] is Directory);
            assert(nodes[ino].parent() == up);
        }
        entries.push(
            DirEntry { ino: up, offset: 2, kind: FileKind::Directory, name: "..".to_owned() },
        );
        let keys = keys_of(&self.inode_mgr.inodes);
        let ghost mut children: Seq<u64> = Seq::empty();
        proof {
            keys@.unique_seq_to_set();
            assert(nodes.dom() =~= self.inode_mgr.inodes@.dom());
            assert(entry_views(entries@) =~= listing(nodes, ino, children));
        }
        let mut i: usize = 0;
        while i < keys.len()
            invariant
                i <= keys@.len(),
                keys@.len() < i64::MAX - 2,
                nodes == self.nodes(),
                keys@.no_duplicates(),
                forall|k: u64| #[trigger]
                    self.inode_mgr.inodes@.contains_key(k) <==> keys@.contains(k),
                children.len() <= i,
                children.no_duplicates(),
                forall|k: u64| #[trigger]
                    children.contains(k) <==> (nodes.contains_key(k) && listed_in(nodes[k], ino)
                        && keys@.take(i as int).contains(k)),
                entry_views(entries@) == listing(nodes, ino, children),
                entries@.len() == children.len() + 2,
            decreases keys@.len() - i,
        {
            let k: u64 = keys[i];
            proof {
                assert(keys@.contains(k));
                assert(self.inode_mgr.inodes@.contains_key(k));
                assert forall|q: u64| #[trigger] keys@.take(i as int + 1).contains(q) <==> (
                keys@.take(i as int).contains(q) || q == k) by {
                    if keys@.take(i as int).contains(q) {
                        let j = choose|j: int|
                            0 <= j < i && #[trigger] keys@.take(i as int)[j] == q;
                        assert(keys@.take(i as int + 1)[j] == q);
                    }
                    if q == k {
                        assert(keys@.take(i as int + 1)[i as int] == q);
                    }
                }
                if keys@.take(i as int).contains(k) {
                    let j = choose|j: int| 0 <= j < i && #[trigger] keys@.take(i as int)[j] == k;
                    assert(keys@[j] == keys@[i as int]);
                }
            }
            let ghost grown = children.push(k);
            let found: Option<(FileKind, String)> = match self.inode_mgr.inodes.get(&k) {
                Some(InodeData::Directory { parent, name }) => {
                    if *parent == ino && !name.as_str().is_empty() {
                        Some((FileKind::Directory, name.clone()))
                    } else {
                        None
                    }
                },
                Some(InodeData::File { parent, name, .. }) => {
                    if *parent == ino {
                        Some((FileKind::RegularFile, name.clone()))
                    } else {
                        None
                    }
                },
                None => None,
            };
            proof {
                assert(found is Some <==> listed_in(nodes[k], ino));
            }
            match found {
                Some((kind, name)) => {
                    let entry = DirEntry {
                        ino: k,
                        offset: entries.len() as i64 + 1,
                        kind,
                        name,
                    };
                    let ghost before = entry_views(entries@);
                    entries.push(entry);
                    proof {
                        assert(entry_views(entries@) =~= before.push(entry@));
                        assert(listing(nodes, ino, grown) =~= listing(nodes, ino, children).push(
                            entry@,
                        ));
                        assert forall|q: u64| #[trigger] grown.contains(q) <==> (
                        children.contains(q) || q == k) by {
                            if children.contains(q) {
                                let j = choose|j: int|
                                    0 <= j < children.len() && #[trigger] children[j] == q;
                                assert(grown[j] == q);
                            }
                            if q == k {
                                assert(grown[children.len() as int] == q);
                            }
                        }
                        assert(!children.contains(k));
                        assert forall|a: int, b: int|
                            0 <= a < grown.len() && 0 <= b < grown.len() && a != b implies grown[a]
                            != grown[b] by {
                            if a < children.len() && b < children.len() {
                                assert(children[a] != children[b]);
                            } else if a < children.len() {
                                assert(children.contains(children[a]));
                            } else {
                                assert(children.contains(children[b]));
                            }
                        }
                        children = grown;
                    }
                },
                None => {},
            }
            i = i + 1;
        }
        proof {
            assert(keys@.take(keys@.len() as int) =~= keys@);
            assert forall|k: u64| #[trigger] children.contains(k) <==> (nodes.contains_key(k)
                && listed_in(nodes[k], ino)) by {
                assert(nodes.contains_key(k) <==> self.inode_mgr.inodes@.contains_key(k));
            }
            assert(are_children(nodes, ino, children));
        }
        ReaddirStep::Entries(entries_after(&entries, offset))
    }

    /// The handle that opening `ino` gives, where the next handle is `fh`: handle 0 where
    /// nothing has to be tracked.
    pub open spec fn opens(&self, ino: u64, fh: u64) -> FsResult<OpenOutcome> {
        if ino == ROOT_INO || ino == METADATA_INO || ino == DATA_INO {
            Ok(OpenOutcome { fh: 0, direct_io: false })
        } else if ino == STATS_INO || InodeManager::stats_ino(ino) {
            Ok(OpenOutcome { fh, direct_io: false })
        } else if InodeManager::data_ino(ino) {
            if self.data_nodes().contains_key(ino) && self.data_nodes()[ino] is TorrentFile {
                Ok(OpenOutcome { fh, direct_io: true })
            } else {
                Ok(OpenOutcome { fh: 0, direct_io: false })
            }
        } else if self.nodes().contains_key(ino) {
            Ok(OpenOutcome { fh, direct_io: false })
        } else {
            Err(FsError::NotFound)
        }
    }

    /// Whether `after` remembers what the handle that `r` gives out leads to.
    pub open spec fn keeps_handle(
        &self,
        ino: u64,
        r: FsResult<OpenOutcome>,
        after: &FsService,
    ) -> bool {
        match r {
            Ok(o) => if o.fh != 0 {
                &&& after.inode_mgr.next_fh == self.inode_mgr.next_fh + 1
                &&& after.inode_mgr.open_files@ == self.inode_mgr.open_files@.insert(o.fh, ino)
            } else {
                after.inode_mgr == self.inode_mgr
            },
            Err(_) => after.inode_mgr == self.inode_mgr,
        }
    }

    /// Opens a file. A file of a torrent is opened for direct I/O.
    pub fn open(&mut self, ino: u64) -> (r: FsResult<OpenOutcome>)
        requires
            0 < old(self).inode_mgr.next_fh < u64::MAX,
        ensures
            r == old(self).opens(ino, old(self).inode_mgr.next_fh),
            final(self).same_but_inodes(old(self)),
            final(self).inode_mgr.inodes == old(self).inode_mgr.inodes,
            final(self).inode_mgr.data_inodes == old(self).inode_mgr.data_inodes,
            final(self).inode_mgr.creation_time == old(self).inode_mgr.creation_time,
            final(self).inode_mgr.next_ino == old(self).inode_mgr.next_ino,
            old(self).keeps_handle(ino, r, final(self)),
    {
        if ino == ROOT_INO || ino == METADATA_INO || ino == DATA_INO {
            return Ok(OpenOutcome::from(0));
        }
        if ino == STATS_INO || InodeManager::is_stats_ino(ino) {
            let fh = self.new_handle(ino);
            return Ok(OpenOutcome::from(fh));
        }
        if InodeManager::is_data_ino(ino) {
            let is_file = match self.inode_mgr.data_inodes.get(&ino) {
                Some(DataInode::TorrentFile { .. }) => true,
                _ => false,
            };
            if is_file {
                let fh = self.new_handle(ino);
                return Ok(OpenOutcome { fh, direct_io: true });
            }
            return Ok(OpenOutcome::from(0));
        }
        if self.inode_mgr.inodes.contains_key(&ino) {
            let fh = self.new_handle(ino);
            return Ok(OpenOutcome::from(fh));
        }
        Err(FsError::NotFound)
    }

    fn new_handle(&mut self, ino: u64) -> (fh: u64)
        requires
            old(self).inode_mgr.next_fh < u64::MAX,
        ensures
            fh == old(self).inode_mgr.next_fh,
            final(self).same_but_inodes(old(self)),
            final(self).inode_mgr.inodes == old(self).inode_mgr.inodes,
            final(self).inode_mgr.data_inodes == old(self).inode_mgr.data_inodes,
            final(self).inode_mgr.creation_time == old(self).inode_mgr.creation_time,
            final(self).inode_mgr.next_ino == old(self).inode_mgr.next_ino,
            final(self).inode_mgr.next_fh == fh + 1,
            final(self).inode_mgr.open_files@ == old(self).inode_mgr.open_files@.insert(fh, ino),
    {
        let fh: u64 = self.inode_mgr.next_fh;
        self.inode_mgr.next_fh = fh + 1;
        self.inode_mgr.open_files.insert(fh, ino);
        fh
    }

    pub fn opendir(&self, ino: u64) -> (r: FsResult<()>)
        ensures
            r == (if ino == ROOT_INO || ino == METADATA_INO || ino == DATA_INO
                || InodeManager::data_ino(ino) || self.nodes().contains_key(ino) {
                Ok::<(), FsError>(())
            } else {
                Err(FsError::NotFound)
            }),
    {
        if ino == ROOT_INO || ino == METADATA_INO || ino == DATA_INO {
            return Ok(());
        }
        if InodeManager::is_data_ino(ino) || self.inode_mgr.inodes.contains_key(&ino) {
            Ok(())
        } else {
            Err(FsError::NotFound)
        }
    }

    fn check_new_entry(&self, parent: u64, name: &str, file: bool) -> (r: Option<FsError>)
        requires
            self.wf(),
        ensures
            r == new_entry_error(self.nodes(), parent, name@, file),
            r is None ==> parent < self.inode_mgr.next_ino,
    {
        if InodeManager::is_data_namespace(parent) {
            return Some(FsError::ReadOnlyFileSystem);
        }
        if !self.inode_mgr.is_metadata_child(parent) {
            return Some(FsError::PermissionDenied);
        }
        if file && !text::ends_with(name, ".torrent") {
            return Some(FsError::PermissionDenied);
        }
        match self.inode_mgr.find_child_by_name(parent, name) {
            Some(ino) => {
                proof {
                    assert(inodes::is_child(self.nodes(), ino, parent, name@));
                }
                Some(FsError::AlreadyExists)
            },
            None => {
                proof {
                    inodes::beneath_unfold(self.nodes(), parent, METADATA_INO);
                    assert(self.nodes().contains_key(METADATA_INO));
                    assert(self.nodes().contains_key(parent));
                }
                None
            },
        }
    }

    /// Whether `r` and `after` are what making the file `name` in `parent` comes to.
    pub open spec fn makes_file(
        &self,
        parent: u64,
        name: Seq<char>,
        r: FsResult<Entry>,
        after: &FsService,
    ) -> bool {
        match new_entry_error(self.nodes(), parent, name, true) {
            Some(e) => r == Err::<Entry, FsError>(e) && after.inode_mgr == self.inode_mgr,
            None => {
                let ino = self.inode_mgr.next_ino;
                &&& r == Ok::<Entry, FsError>(Entry { ino, attr: Attr::file(ino, 0) })
                &&& after.nodes() == self.nodes().insert(
                    ino,
                    Node::File { parent, name: name, data: Seq::empty() },
                )
                &&& after.inode_mgr.next_ino == ino + 1
                &&& after.inode_mgr.same_but_nodes(&self.inode_mgr)
            },
        }
    }

    /// Makes an empty `.torrent` file.
    pub fn mknod(&mut self, parent: u64, name: &str) -> (r: FsResult<Entry>)
        requires
            old(self).wf(),
            old(self).inode_mgr.next_ino < u64::MAX,
        ensures
            final(self).wf(),
            final(self).same_but_inodes(old(self)),
            old(self).makes_file(parent, name@, r, final(self)),
    {
        match self.check_new_entry(parent, name, true) {
            Some(e) => Err(e),
            None => {
                let ino = self.inode_mgr.add_node(
                    InodeData::File { parent, name: name.to_owned(), data: Vec::new() },
                );
                Ok(Entry { ino, attr: self.inode_mgr.attr_for_file(ino, 0) })
            },
        }
    }

    /// Whether `r` and `after` are what making and opening the file `name` in `parent` comes to.
    pub open spec fn creates(
        &self,
        parent: u64,
        name: Seq<char>,
        r: FsResult<Created>,
        after: &FsService,
    ) -> bool {
        match new_entry_error(self.nodes(), parent, name, true) {
            Some(e) => r == Err::<Created, FsError>(e) && after.inode_mgr == self.inode_mgr,
            None => {
                let ino = self.inode_mgr.next_ino;
                let fh = self.inode_mgr.next_fh;
                &&& r == Ok::<Created, FsError>(Created { attr: Attr::file(ino, 0), fh })
                &&& after.nodes() == self.nodes().insert(
                    ino,
                    Node::File { parent, name: name, data: Seq::empty() },
                )
                &&& after.inode_mgr.next_ino == ino + 1
                &&& after.inode_mgr.next_fh == fh + 1
                &&& after.inode_mgr.open_files@ == self.inode_mgr.open_files@.insert(fh, ino)
                &&& after.inode_mgr.data_inodes == self.inode_mgr.data_inodes
                &&& after.inode_mgr.creation_time == self.inode_mgr.creation_time
            },
        }
    }

    /// Makes an empty `.torrent` file and opens it.
    pub fn create(&mut self, parent: u64, name: &str) -> (r: FsResult<Created>)
        requires
            old(self).wf(),
            old(self).inode_mgr.next_ino < u64::MAX,
            old(self).inode_mgr.next_fh < u64::MAX,
        ensures
            final(self).wf(),
            final(self).same_but_inodes(old(self)),
            old(self).creates(parent, name@, r, final(self)),
    {
        match self.check_new_entry(parent, name, true) {
            Some(e) => Err(e),
            None => {
                let ino = self.inode_mgr.add_node(
                    InodeData::File { parent, name: name.to_owned(), data: Vec::new() },
                );
                let fh = self.new_handle(ino);
                Ok(Created { attr: self.inode_mgr.attr_for_file(ino, 0), fh })
            },
        }
    }

    /// Whether `r` and `after` are what writing `data` at `offset` comes to.
    pub open spec fn writes(
        &self,
        ino: u64,
        offset: i64,
        data: Seq<u8>,
        r: FsResult<u32>,
        after: &FsService,
    ) -> bool {
        if ino == STATS_INO || InodeManager::in_data_namespace(ino) {
            r == Err::<u32, FsError>(FsError::ReadOnlyFileSystem) && after.nodes() == self.nodes()
        } else if !self.nodes().contains_key(ino) {
            r == Err::<u32, FsError>(FsError::NotFound) && after.nodes() == self.nodes()
        } else {
            match self.nodes()[ino] {
                Node::Directory { .. } => r == Err::<u32, FsError>(FsError::IsDirectory)
                    && after.nodes() == self.nodes(),
                Node::File { parent, name, data: before } => {
                    &&& r == Ok::<u32, FsError>(data.len() as u32)
                    &&& after.nodes() == self.nodes().insert(
                        ino,
                        Node::File {
                            parent,
                            name,
                            data: written(before, inodes::as_unsigned(offset), data),
                        },
                    )
                },
            }
        }
    }

    /// Writes bytes into a file of `metadata/`.
    pub fn write(&mut self, ino: u64, offset: i64, data: &[u8]) -> (r: FsResult<u32>)
        requires
            old(self).wf(),
            ino != STATS_INO && !InodeManager::in_data_namespace(ino) && old(
                self,
            ).nodes().contains_key(ino) && old(self).nodes()[ino] is File ==> inodes::as_unsigned(offset)
                + data@.len() <= isize::MAX,
        ensures
            final(self).wf(),
            final(self).same_but_inodes(old(self)),
            final(self).inode_mgr.same_but_nodes(&old(self).inode_mgr),
            final(self).inode_mgr.next_ino == old(self).inode_mgr.next_ino,
            old(self).writes(ino, offset, data@, r, final(self)),
    {
        if ino == STATS_INO || InodeManager::is_stats_ino(ino) {
            return Err(FsError::ReadOnlyFileSystem);
        }
        if InodeManager::is_data_namespace(ino) {
            return Err(FsError::ReadOnlyFileSystem);
        }
        let ghost nodes = self.nodes();
        let target = match self.inode_mgr.inodes.get(&ino) {
            Some(target) => target.clone(),
            None => {
                return Err(FsError::NotFound);
            },
        };
        proof {
            assert(nodes[ino] == target@);
        }
        match target {
            InodeData::Directory { .. } => Err(FsError::IsDirectory),
            InodeData::File { parent, name, data: mut content } => {
                assert(offset < 0 ==> (offset as u64) == offset + 0x1_0000_0000_0000_0000)
                    by (bit_vector);
                let ghost before = content@;
                let start: usize = offset as u64 as usize;
                pad_to(&mut content, start + data.len());
                let ghost padded = content@;
                let mut i: usize = 0;
                while i < data.len()
                    invariant
                        i <= data@.len(),
                        start + data@.len() <= content.len(),
                        content@.len() == padded.len(),
                        forall|k: int|
                            0 <= k < content@.len() ==> #[trigger] content@[k] == (if start <= k
                                < start + i {
                                data@[k - start]
                            } else {
                                padded[k]
                            }),
                    decreases data@.len() - i,
                {
                    content.set(start + i, data[i]);
                    i = i + 1;
                }
                proof {
                    assert(content@ =~= written(before, start as int, data@));
                }
                let n = data.len();
                let updated = InodeData::File { parent, name, data: content };
                let ghost node = updated@;
                self.inode_mgr.inodes.insert(ino, updated);
                proof {
                    assert(self.nodes() =~= nodes.insert(ino, node));
                    inodes::update_keeps_tree(nodes, ino, node);
                    assert(inodes::has_fixed_entries(self.nodes()));
                    assert(nodes.contains_key(ino));
                    assert(inodes::inos_below(self.nodes(), self.inode_mgr.next_ino));
                }
                Ok(n as u32)
            },
        }
    }
}

/// What the bytes of a `.torrent` file are refused for on closing, before they are parsed.
pub open spec fn too_large(len: nat) -> bool {
    len > MAX_TORRENT_SIZE
}

/// Whether an entry is a `.torrent` file.
pub open spec fn is_torrent_file(nodes: Map<u64, Node>, ino: u64) -> bool {
    nodes.contains_key(ino) && nodes[ino] is File && text::ends(nodes[ino].name(), ".torrent"@)
}

/// The bytes of a file.
pub open spec fn file_data(node: Node) -> Seq<u8> {
    match node {
        Node::File { data, .. } => data,
        Node::Directory { .. } => Seq::empty(),
    }
}

/// The entries that stay below `data/` when the directory at `path` goes.
pub open spec fn stays_without(path: Seq<char>, node: DataNode) -> bool {
    match node {
        DataNode::SourcePathDir { path: p } => p != path && (path.len() == 0 || !text::begins(
            p,
            path + "/"@,
        )),
        _ => true,
    }
}

/// The torrent that an entry below `data/` belongs to.
pub open spec fn torrent_of(node: DataNode) -> Option<i64> {
    match node {
        DataNode::SourcePathDir { .. } => None,
        DataNode::TorrentRoot { torrent_id, .. } => Some(torrent_id),
        DataNode::TorrentDir { torrent_id, .. } => Some(torrent_id),
        DataNode::TorrentFile { torrent_id, .. } => Some(torrent_id),
    }
}

/// The entries that stay below `data/` when a torrent goes, and with it the given directories.
pub open spec fn stays_after_removal(
    torrent_id: i64,
    cleaned: Seq<Seq<char>>,
    node: DataNode,
) -> bool {
    match node {
        DataNode::SourcePathDir { path } => !cleaned.contains(path),
        _ => torrent_of(node) != Some(torrent_id),
    }
}

/// The part of a table whose values are to stay.
pub open spec fn kept<V>(m: Map<u64, V>, stays: spec_fn(V) -> bool) -> Map<u64, V> {
    Map::new(|k: u64| m.contains_key(k) && stays(m[k]), |k: u64| m[k])
}

/// Where a path leads after the directory `old` has become `new`.
pub open spec fn moved_path(p: Seq<char>, old: Seq<char>, new: Seq<char>) -> Seq<char> {
    if p == old {
        new
    } else if text::begins(p, old + "/"@) {
        new + "/"@ + p.skip(old.len() as int + 1)
    } else {
        p
    }
}

/// An entry below `data/` after the directory `old` has become `new`.
pub open spec fn moved_node(node: DataNode, old: Seq<char>, new: Seq<char>) -> DataNode {
    match node {
        DataNode::SourcePathDir { path } => DataNode::SourcePathDir {
            path: moved_path(path, old, new),
        },
        DataNode::TorrentRoot { torrent_id, source_path, name, filename } =>
            DataNode::TorrentRoot {
                torrent_id,
                source_path: moved_path(source_path, old, new),
                name,
                filename,
            },
        _ => node,
    }
}

pub open spec fn moved_nodes(
    m: Map<u64, DataNode>,
    old: Seq<char>,
    new: Seq<char>,
) -> Map<u64, DataNode> {
    Map::new(|k: u64| m.contains_key(k), |k: u64| moved_node(m[k], old, new))
}

/// A path is the directory `dir` or lies beneath it.
pub open spec fn path_within(p: Seq<char>, dir: Seq<char>) -> bool {
    p == dir || text::begins(p, dir + "/"@)
}

/// Renaming a directory and then back leads every path to where it was, unless the path was at
/// the new place before without having come from the old one.
pub proof fn rename_back_restores_path(p: Seq<char>, old: Seq<char>, new: Seq<char>)
    requires
        path_within(p, new) ==> path_within(p, old),
    ensures
        moved_path(moved_path(p, old, new), new, old) == p,
{
    reveal_strlit("/");
    assert("/"@ =~= seq!['/']);
    if p == old {
    } else if text::begins(p, old + "/"@) {
        let rest = p.skip(old.len() as int + 1);
        let q = new + "/"@ + rest;
        assert(q != new) by {
            assert(q.len() > new.len());
        }
        assert(q.subrange(0, (new + "/"@).len() as int) =~= new + "/"@);
        assert(text::begins(q, new + "/"@));
        assert(q.skip(new.len() as int + 1) =~= rest);
        assert(p.subrange(0, (old + "/"@).len() as int) == old + "/"@);
        assert(old + "/"@ + rest =~= p);
    }
}

/// What stands between a removed name and the removal of its directory.
pub open spec fn rmdir_error(nodes: Map<u64, Node>, ino: u64) -> Option<FsError> {
    if nodes[ino] is File {
        Some(FsError::NotDirectory)
    } else if exists|k: u64| #[trigger] nodes.contains_key(k) && nodes[k].parent() == ino {
        Some(FsError::DirectoryNotEmpty)
    } else {
        None
    }
}

/// What the catalogue answered to the removal of a torrent.
#[derive(Debug)]
pub enum UnlinkRemoval {
    NoCatalogue,
    NotListed,
    Removed { torrent_id: i64 },
    Failed(FsError),
}

pub(crate) fn contains_text(v: &Vec<String>, s: &str) -> (r: bool)
    ensures
        r == text::views(v@).contains(s@),
{
    let mut i: usize = 0;
    while i < v.len()
        invariant
            i <= v@.len(),
            forall|j: int| 0 <= j < i ==> #[trigger] v@[j]@ != s@,
        decreases v@.len() - i,
    {
        if text::same(v[i].as_str(), s) {
            proof {
                assert(text::views(v@)[i as int] == s@);
            }
            return true;
        }
        i = i + 1;
    }
    proof {
        assert forall|j: int| 0 <= j < v@.len() implies text::views(v@)[j] != s@ by {
            assert(v@[j]@ != s@);
        }
    }
    false
}

/// Where a path leads after the directory `old` has become `new`.
pub fn move_path(p: &str, old: &str, new: &str) -> (r: String)
    ensures
        r@ == moved_path(p@, old@, new@),
{
    if text::same(p, old) {
        return new.to_owned();
    }
    let prefix = text::concat2(old, "/");
    match text::strip_prefix(p, prefix.as_str()) {
        Some(rest) => {
            proof {
                reveal_strlit("/");
                assert(prefix@.len() == old@.len() + 1);
            }
            text::concat3(new, "/", rest.as_str())
        },
        None => p.to_owned(),
    }
}

impl InodeManager {
    /// Takes the given entries out of the `data/` table.
    fn forget_data(&mut self, gone: &Vec<u64>)
        ensures
            final(self).data_nodes() == Map::new(
                |k: u64| old(self).data_nodes().contains_key(k) && !gone@.contains(k),
                |k: u64| old(self).data_nodes()[k],
            ),
            final(self).inodes == old(self).inodes,
            final(self).open_files == old(self).open_files,
            final(self).creation_time == old(self).creation_time,
            final(self).next_ino == old(self).next_ino,
            final(self).next_fh == old(self).next_fh,
    {
        let ghost before = self.data_inodes@;
        let mut i: usize = 0;
        proof {
            assert(self.data_inodes@ =~= before.remove_keys(gone@.take(0).to_set()));
        }
        while i < gone.len()
            invariant
                i <= gone@.len(),
                self.data_inodes@ == before.remove_keys(gone@.take(i as int).to_set()),
                self.inodes == old(self).inodes,
                self.open_files == old(self).open_files,
                self.creation_time == old(self).creation_time,
                self.next_ino == old(self).next_ino,
                self.next_fh == old(self).next_fh,
            decreases gone@.len() - i,
        {
            self.data_inodes.remove(&gone[i]);
            proof {
                let next = gone@.take(i as int + 1);
                assert(next =~= gone@.take(i as int).push(gone@[i as int]));
                assert forall|k: u64| #[trigger] next.contains(k) <==> (gone@.take(
                    i as int,
                ).contains(k) || k == gone@[i as int]) by {
                    if gone@.take(i as int).contains(k) {
                        let j = choose|j: int|
                            0 <= j < i && #[trigger] gone@.take(i as int)[j] == k;
                        assert(next[j] == k);
                    }
                    if k == gone@[i as int] {
                        assert(next[i as int] == k);
                    }
                }
                assert(self.data_inodes@ =~= before.remove_keys(next.to_set()));
            }
            i = i + 1;
        }
        proof {
            assert(gone@.take(gone@.len() as int) =~= gone@);
            assert(self.data_nodes() =~= Map::new(
                |k: u64| old(self).data_nodes().contains_key(k) && !gone@.contains(k),
                |k: u64| old(self).data_nodes()[k],
            ));
        }
    }

    /// Takes the entries below `data/` away that go with the directory at `path`.
    fn forget_directory(&mut self, path: &str)
        ensures
            final(self).data_nodes() == kept(
                old(self).data_nodes(),
                |n: DataNode| stays_without(path@, n),
            ),
            final(self).inodes == old(self).inodes,
            final(self).open_files == old(self).open_files,
            final(self).creation_time == old(self).creation_time,
            final(self).next_ino == old(self).next_ino,
            final(self).next_fh == old(self).next_fh,
    {
        let prefix = text::concat2(path, "/");
        let keys = keys_of(&self.data_inodes);
        let mut gone: Vec<u64> = Vec::new();
        let mut i: usize = 0;
        while i < keys.len()
            invariant
                i <= keys@.len(),
                prefix@ == path@ + "/"@,
                forall|k: u64| #[trigger] self.data_inodes@.contains_key(k) <==> keys@.contains(k),
                forall|k: u64| #[trigger]
                    gone@.contains(k) <==> keys@.take(i as int).contains(k) && !stays_without(
                        path@,
                        self.data_nodes()[k],
                    ),
                *self == *old(self),
            decreases keys@.len() - i,
        {
            let k: u64 = keys[i];
            let ghost before = gone@;
            proof {
                assert(keys@.contains(k));
                assert(self.data_inodes@.contains_key(k));
                assert(keys@.take(i as int + 1) =~= keys@.take(i as int).push(k));
                text::push_contains(keys@.take(i as int), k);
                text::push_contains(before, k);
            }
            let stays = match self.data_inodes.get(&k) {
                Some(DataInode::SourcePathDir { path: p }) => {
                    if text::same(p.as_str(), path) {
                        false
                    } else if path.is_empty() {
                        true
                    } else {
                        !text::starts_with(p.as_str(), prefix.as_str())
                    }
                },
                _ => true,
            };
            proof {
                assert(stays == stays_without(path@, self.data_nodes()[k]));
            }
            if !stays {
                gone.push(k);
            }
            i = i + 1;
        }
        proof {
            assert(keys@.take(keys@.len() as int) =~= keys@);
        }
        self.forget_data(&gone);
        proof {
            assert forall|k: u64| #[trigger] old(self).data_nodes().contains_key(k) implies (
            gone@.contains(k) <==> !stays_without(path@, old(self).data_nodes()[k])) by {
                assert(old(self).data_inodes@.contains_key(k));
            }
            assert(self.data_nodes() =~= kept(
                old(self).data_nodes(),
                |n: DataNode| stays_without(path@, n),
            ));
        }
    }

    /// Takes the entries below `data/` away that go with a torrent and the given directories.
    fn forget_torrent(&mut self, torrent_id: i64, cleaned: &Vec<String>)
        ensures
            final(self).data_nodes() == kept(
                old(self).data_nodes(),
                |n: DataNode| stays_after_removal(torrent_id, text::views(cleaned@), n),
            ),
            final(self).inodes == old(self).inodes,
            final(self).open_files == old(self).open_files,
            final(self).creation_time == old(self).creation_time,
            final(self).next_ino == old(self).next_ino,
            final(self).next_fh == old(self).next_fh,
    {
        let keys = keys_of(&self.data_inodes);
        let mut gone: Vec<u64> = Vec::new();
        let mut i: usize = 0;
        while i < keys.len()
            invariant
                i <= keys@.len(),
                forall|k: u64| #[trigger] self.data_inodes@.contains_key(k) <==> keys@.contains(k),
                forall|k: u64| #[trigger]
                    gone@.contains(k) <==> keys@.take(i as int).contains(k)
                        && !stays_after_removal(
                        torrent_id,
                        text::views(cleaned@),
                        self.data_nodes()[k],
                    ),
                *self == *old(self),
            decreases keys@.len() - i,
        {
            let k: u64 = keys[i];
            let ghost before = gone@;
            proof {
                assert(keys@.contains(k));
                assert(self.data_inodes@.contains_key(k));
                assert(keys@.take(i as int + 1) =~= keys@.take(i as int).push(k));
                text::push_contains(keys@.take(i as int), k);
                text::push_contains(before, k);
            }
            let stays = match self.data_inodes.get(&k) {
                Some(DataInode::SourcePathDir { path }) => !contains_text(cleaned, path.as_str()),
                Some(DataInode::TorrentRoot { torrent_id: id, .. }) => *id != torrent_id,
                Some(DataInode::TorrentDir { torrent_id: id, .. }) => *id != torrent_id,
                Some(DataInode::TorrentFile { torrent_id: id, .. }) => *id != torrent_id,
                None => true,
            };
            proof {
                assert(stays == stays_after_removal(
                    torrent_id,
                    text::views(cleaned@),
                    self.data_nodes()[k],
                ));
            }
            if !stays {
                gone.push(k);
            }
            i = i + 1;
        }
        proof {
            assert(keys@.take(keys@.len() as int) =~= keys@);
        }
        self.forget_data(&gone);
        proof {
            assert forall|k: u64| #[trigger] old(self).data_nodes().contains_key(k) implies (
            gone@.contains(k) <==> !stays_after_removal(
                torrent_id,
                text::views(cleaned@),
                old(self).data_nodes()[k],
            )) by {
                assert(old(self).data_inodes@.contains_key(k));
            }
            assert(self.data_nodes() =~= kept(
                old(self).data_nodes(),
                |n: DataNode| stays_after_removal(torrent_id, text::views(cleaned@), n),
            ));
        }
    }

    /// Moves the entries below `data/` along with a renamed directory.
    fn move_data(&mut self, old_path: &str, new_path: &str)
        ensures
            final(self).data_nodes() == moved_nodes(old(self).data_nodes(), old_path@, new_path@),
            final(self).inodes == old(self).inodes,
            final(self).open_files == old(self).open_files,
            final(self).creation_time == old(self).creation_time,
            final(self).next_ino == old(self).next_ino,
            final(self).next_fh == old(self).next_fh,
    {
        let keys = keys_of(&self.data_inodes);
        let ghost before = self.data_nodes();
        let mut i: usize = 0;
        while i < keys.len()
            invariant
                i <= keys@.len(),
                keys@.no_duplicates(),
                before == old(self).data_nodes(),
                forall|k: u64| #[trigger] before.contains_key(k) <==> keys@.contains(k),
                forall|k: u64| #[trigger] before.contains_key(k) <==> self.data_inodes@.contains_key(k),
                forall|k: u64| #[trigger]
                    before.contains_key(k) ==> self.data_nodes()[k] == (if keys@.take(
                        i as int,
                    ).contains(k) {
                        moved_node(before[k], old_path@, new_path@)
                    } else {
                        before[k]
                    }),
                self.inodes == old(self).inodes,
                self.open_files == old(self).open_files,
                self.creation_time == old(self).creation_time,
                self.next_ino == old(self).next_ino,
                self.next_fh == old(self).next_fh,
            decreases keys@.len() - i,
        {
            let k: u64 = keys[i];
            let ghost now = self.data_nodes();
            proof {
                assert(keys@.contains(k));
                assert(before.contains_key(k));
                assert(keys@.take(i as int + 1) =~= keys@.take(i as int).push(k));
                text::push_contains(keys@.take(i as int), k);
                if keys@.take(i as int).contains(k) {
                    let j = choose|j: int| 0 <= j < i && #[trigger] keys@.take(i as int)[j] == k;
                    assert(keys@[j] == keys@[i as int]);
                }
            }
            let updated: Option<DataInode> = match self.data_inodes.get(&k) {
                Some(DataInode::SourcePathDir { path }) => Some(
                    DataInode::SourcePathDir {
                        path: move_path(path.as_str(), old_path, new_path),
                    },
                ),
                Some(DataInode::TorrentRoot { torrent_id, source_path, name, filename }) => Some(
                    DataInode::TorrentRoot {
                        torrent_id: *torrent_id,
                        source_path: move_path(source_path.as_str(), old_path, new_path),
                        name: name.clone(),
                        filename: filename.clone(),
                    },
                ),
                _ => None,
            };
            match updated {
                Some(node) => {
                    proof {
                        assert(node@ == moved_node(before[k], old_path@, new_path@));
                    }
                    let ghost v = node@;
                    self.data_inodes.insert(k, node);
                    proof {
                        assert(self.data_nodes() =~= now.insert(k, v));
                    }
                },
                None => {
                    proof {
                        assert(moved_node(before[k], old_path@, new_path@) == before[k]);
                    }
                },
            }
            i = i + 1;
        }
        proof {
            assert(keys@.take(keys@.len() as int) =~= keys@);
            assert(self.data_nodes() =~= moved_nodes(before, old_path@, new_path@));
        }
    }

    /// Closes every handle on `ino`.
    fn close_all(&mut self, ino: u64)
        ensures
            final(self).open_files@ == kept(old(self).open_files@, |i: u64| i != ino),
            final(self).inodes == old(self).inodes,
            final(self).data_inodes == old(self).data_inodes,
            final(self).creation_time == old(self).creation_time,
            final(self).next_ino == old(self).next_ino,
            final(self).next_fh == old(self).next_fh,
    {
        let keys = keys_of(&self.open_files);
        let ghost before = self.open_files@;
        let mut i: usize = 0;
        proof {
            assert(self.open_files@ =~= before);
        }
        while i < keys.len()
            invariant
                i <= keys@.len(),
                before == old(self).open_files@,
                forall|k: u64| #[trigger] before.contains_key(k) <==> keys@.contains(k),
                forall|k: u64| #[trigger]
                    self.open_files@.contains_key(k) <==> before.contains_key(k) && !(before[k]
                        == ino && keys@.take(i as int).contains(k)),
                forall|k: u64| #[trigger]
                    self.open_files@.contains_key(k) ==> self.open_files@[k] == before[k],
                self.inodes == old(self).inodes,
                self.data_inodes == old(self).data_inodes,
                self.creation_time == old(self).creation_time,
                self.next_ino == old(self).next_ino,
                self.next_fh == old(self).next_fh,
            decreases keys@.len() - i,
        {
            let k: u64 = keys[i];
            proof {
                assert(keys@.contains(k));
                assert(before.contains_key(k));
                assert(keys@.take(i as int + 1) =~= keys@.take(i as int).push(k));
                text::push_contains(keys@.take(i as int), k);
            }
            let on_ino = match self.open_files.get(&k) {
                Some(open_ino) => *open_ino == ino,
                None => false,
            };
            if on_ino {
                self.open_files.remove(&k);
            }
            i = i + 1;
        }
        proof {
            assert(keys@.take(keys@.len() as int) =~= keys@);
            assert(self.open_files@ =~= kept(before, |i: u64| i != ino));
        }
    }
}


impl FsService {
    /// The bytes that the torrent parser has to accept before the file may be closed, where the
    /// file is a `.torrent` of an acceptable size.
    pub fn torrent_to_validate(&self, ino: u64) -> (r: Option<Vec<u8>>)
        ensures
            match r {
                Some(data) => is_torrent_file(self.nodes(), ino) && data@ == file_data(
                    self.nodes()[ino],
                ) && 0 < data@.len() && !too_large(data@.len()),
                None => is_torrent_file(self.nodes(), ino) ==> file_data(self.nodes()[ino]).len()
                    == 0 || too_large(file_data(self.nodes()[ino]).len()),
            },
    {
        match self.inode_mgr.inodes.get(&ino) {
            Some(InodeData::File { data, name, .. }) => {
                if text::ends_with(name.as_str(), ".torrent") && data.len() > 0 && data.len()
                    <= MAX_TORRENT_SIZE {
                    Some(copy_bytes(data))
                } else {
                    None
                }
            },
            _ => None,
        }
    }

    /// The bytes that the torrent parser has to accept before the handle may be released.
    pub fn torrent_to_validate_for_handle(&self, fh: u64) -> (r: Option<Vec<u8>>)
        ensures
            match r {
                Some(data) => self.inode_mgr.open_files@.contains_key(fh) && is_torrent_file(
                    self.nodes(),
                    self.inode_mgr.open_files@[fh],
                ) && data@ == file_data(self.nodes()[self.inode_mgr.open_files@[fh]]) && 0
                    < data@.len() && !too_large(data@.len()),
                None => self.inode_mgr.open_files@.contains_key(fh) && is_torrent_file(
                    self.nodes(),
                    self.inode_mgr.open_files@[fh],
                ) ==> file_data(self.nodes()[self.inode_mgr.open_files@[fh]]).len() == 0
                    || too_large(file_data(self.nodes()[self.inode_mgr.open_files@[fh]]).len()),
            },
    {
        match self.inode_mgr.open_files.get(&fh) {
            Some(ino) => self.torrent_to_validate(*ino),
            None => None,
        }
    }

    /// Whether `r` is what flushing a file comes to, by whether it can be parsed.
    pub open spec fn flushes(
        &self,
        ino: u64,
        parses: bool,
        r: FsResult<()>,
    ) -> bool {
        if !is_torrent_file(self.nodes(), ino) {
            r == Ok::<(), FsError>(())
        } else if file_data(self.nodes()[ino]).len() == 0 {
            r == Err::<(), FsError>(FsError::InvalidArgument)
        } else if too_large(file_data(self.nodes()[ino]).len()) {
            r matches Err(FsError::FileTooLarge(m)) && m@ == self.nodes()[ino].name()
                + " exceeds 10485760 bytes"@
        } else if !parses {
            r == Err::<(), FsError>(FsError::InvalidArgument)
        } else {
            r == Ok::<(), FsError>(())
        }
    }

    /// Checks a buffered `.torrent` when it is flushed; `parses` says whether the torrent parser
    /// accepts its bytes.
    pub fn flush(&self, ino: u64, parses: bool) -> (r: FsResult<()>)
        ensures
            self.flushes(ino, parses, r),
    {
        match self.inode_mgr.inodes.get(&ino) {
            Some(InodeData::File { data, name, .. }) => {
                if text::ends_with(name.as_str(), ".torrent") {
                    if data.len() == 0 {
                        return Err(FsError::InvalidArgument);
                    }
                    if data.len() > MAX_TORRENT_SIZE {
                        return Err(
                            FsError::FileTooLarge(
                                text::concat2(name.as_str(), " exceeds 10485760 bytes"),
                            ),
                        );
                    }
                    if !parses {
                        return Err(FsError::InvalidArgument);
                    }
                }
                Ok(())
            },
            _ => Ok(()),
        }
    }

    /// Whether `r` and `after` are what releasing the handle `fh` comes to.
    pub open spec fn releases(
        &self,
        fh: u64,
        parses: bool,
        r: ReleaseAction,
        after: &FsService,
    ) -> bool {
        let open = self.inode_mgr.open_files@;
        let ino = open[fh];
        if !open.contains_key(fh) || !is_torrent_file(self.nodes(), ino) {
            r is Nothing && after.nodes() == self.nodes() && after.processing_torrents@
                == self.processing_torrents@
        } else if file_data(self.nodes()[ino]).len() == 0 || too_large(
            file_data(self.nodes()[ino]).len(),
        ) || !parses {
            r is Nothing && after.nodes() == self.nodes().remove(ino)
                && after.processing_torrents@ == self.processing_torrents@
        } else {
            let path = inodes::source_path(self.nodes(), self.nodes()[ino].parent());
            &&& after.nodes() == self.nodes()
            &&& if self.processing_torrents@.contains_key(path) {
                r is Nothing && after.processing_torrents@ == self.processing_torrents@
            } else {
                &&& after.processing_torrents@ == self.processing_torrents@.insert(path, ())
                &&& r matches ReleaseAction::AddTorrent { data, source_path: p, name } && data@
                    == file_data(self.nodes()[ino]) && p@ == path && name@
                    == self.nodes()[ino].name()
            }
        }
    }

    /// Closes a handle. An empty, oversized or unreadable `.torrent` disappears; a good one is to
    /// be added, unless a torrent is being added at the same source path.
    pub fn release(&mut self, fh: u64, parses: bool) -> (r: ReleaseAction)
        requires
            old(self).wf(),
        ensures
            final(self).wf(),
            old(self).releases(fh, parses, r, final(self)),
            final(self).inode_mgr.open_files@ == old(self).inode_mgr.open_files@.remove(fh),
            final(self).inode_mgr.data_inodes == old(self).inode_mgr.data_inodes,
            final(self).inode_mgr.creation_time == old(self).inode_mgr.creation_time,
            final(self).inode_mgr.next_ino == old(self).inode_mgr.next_ino,
            final(self).inode_mgr.next_fh == old(self).inode_mgr.next_fh,
            final(self).torrent_data_cache == old(self).torrent_data_cache,
            final(self).torrent_info_cache == old(self).torrent_info_cache,
            final(self).listen_addr == old(self).listen_addr,
            final(self).metrics == old(self).metrics,
    {
        let ghost nodes = self.nodes();
        let ino: u64 = match self.inode_mgr.open_files.remove(&fh) {
            Some(ino) => ino,
            None => {
                proof {
                    assert(self.inode_mgr.open_files@ =~= old(
                        self,
                    ).inode_mgr.open_files@.remove(fh));
                }
                return ReleaseAction::Nothing;
            },
        };
        let (parent, name, data) = match self.inode_mgr.inodes.get(&ino) {
            Some(InodeData::File { parent, name, data }) => (
                *parent,
                name.clone(),
                copy_bytes(data),
            ),
            _ => {
                return ReleaseAction::Nothing;
            },
        };
        proof {
            assert(nodes[ino] == (Node::File { parent, name: name@, data: data@ }));
        }
        if !text::ends_with(name.as_str(), ".torrent") {
            return ReleaseAction::Nothing;
        }
        if data.len() == 0 || data.len() > MAX_TORRENT_SIZE || !parses {
            self.inode_mgr.inodes.remove(&ino);
            proof {
                assert(self.nodes() =~= nodes.remove(ino));
                torrent_removal_keeps_wf(nodes, ino, self.inode_mgr.next_ino);
            }
            return ReleaseAction::Nothing;
        }
        let path = self.inode_mgr.extract_source_path(parent);
        if self.processing_torrents.contains_key(path.as_str()) {
            return ReleaseAction::Nothing;
        }
        self.processing_torrents.insert(path.clone(), ());
        ReleaseAction::AddTorrent { data, source_path: path, name }
    }

    /// The torrent at the source path is no longer being added.
    pub fn release_done(&mut self, source_path: &str)
        requires
            old(self).wf(),
        ensures
            final(self).wf(),
            final(self).processing_torrents@ == old(self).processing_torrents@.remove(
                source_path@,
            ),
            final(self).inode_mgr == old(self).inode_mgr,
            final(self).torrent_data_cache == old(self).torrent_data_cache,
            final(self).torrent_info_cache == old(self).torrent_info_cache,
            final(self).listen_addr == old(self).listen_addr,
            final(self).metrics == old(self).metrics,
    {
        self.processing_torrents.remove(source_path);
    }

    fn source_path_of_child(&self, parent: u64, name: &str) -> (r: String)
        requires
            self.wf(),
        ensures
            r@ == child_source_path(self.nodes(), parent, name@),
    {
        let path = self.inode_mgr.extract_source_path(parent);
        if path.as_str().is_empty() {
            name.to_owned()
        } else {
            text::concat3(path.as_str(), "/", name)
        }
    }

    /// Whether `r` and `after` are what making the directory `name` in `parent` comes to.
    pub open spec fn makes_dir(
        &self,
        parent: u64,
        name: Seq<char>,
        r: FsResult<MadeDirectory>,
        after: &FsService,
    ) -> bool {
        match new_entry_error(self.nodes(), parent, name, false) {
            Some(e) => r == Err::<MadeDirectory, FsError>(e) && after.inode_mgr == self.inode_mgr,
            None => {
                let ino = self.inode_mgr.next_ino;
                &&& r matches Ok(made) && made.attr == Attr::dir(ino, true)
                    && made.source_path@ == child_source_path(
                    self.nodes(),
                    parent,
                    name,
                )
                &&& after.nodes() == self.nodes().insert(
                    ino,
                    Node::Directory { parent, name: name },
                )
                &&& after.inode_mgr.next_ino == ino + 1
                &&& after.inode_mgr.same_but_nodes(&self.inode_mgr)
            },
        }
    }

    /// Makes a directory in `metadata/`; the catalogue has to take over its source path.
    pub fn mkdir(&mut self, parent: u64, name: &str) -> (r: FsResult<MadeDirectory>)
        requires
            old(self).wf(),
            old(self).inode_mgr.next_ino < u64::MAX,
        ensures
            final(self).wf(),
            final(self).same_but_inodes(old(self)),
            old(self).makes_dir(parent, name@, r, final(self)),
    {
        match self.check_new_entry(parent, name, false) {
            Some(e) => Err(e),
            None => {
                let path = self.source_path_of_child(parent, name);
                let ino = self.inode_mgr.add_node(
                    InodeData::Directory { parent, name: name.to_owned() },
                );
                Ok(
                    MadeDirectory {
                        attr: self.inode_mgr.attr_for_dir(ino, true),
                        source_path: path,
                    },
                )
            },
        }
    }

    fn has_children(&self, ino: u64) -> (r: bool)
        ensures
            r == exists|k: u64| #[trigger]
                self.nodes().contains_key(k) && self.nodes()[k].parent() == ino,
    {
        let keys = keys_of(&self.inode_mgr.inodes);
        let mut i: usize = 0;
        while i < keys.len()
            invariant
                i <= keys@.len(),
                forall|k: u64| #[trigger]
                    self.inode_mgr.inodes@.contains_key(k) <==> keys@.contains(k),
                forall|j: int|
                    0 <= j < i ==> self.nodes()[#[trigger] keys@[j]].parent() != ino,
            decreases keys@.len() - i,
        {
            let k: u64 = keys[i];
            proof {
                assert(keys@.contains(k));
                assert(self.inode_mgr.inodes@.contains_key(k));
                assert(self.nodes().contains_key(k));
            }
            let up: u64 = match self.inode_mgr.inodes.get(&k) {
                Some(InodeData::Directory { parent, .. }) => *parent,
                Some(InodeData::File { parent, .. }) => *parent,
                None => 0,
            };
            proof {
                assert(up == self.nodes()[k].parent());
            }
            if up == ino {
                return true;
            }
            i = i + 1;
        }
        proof {
            assert forall|k: u64| #[trigger] self.nodes().contains_key(k) implies self.nodes()[k].parent()
                != ino by {
                assert(self.inode_mgr.inodes@.contains_key(k));
                assert(keys@.contains(k));
            }
        }
        false
    }

    /// Whether `r` and `after` are what removing the directory `name` of `parent` comes to.
    pub open spec fn removes_dir(
        &self,
        parent: u64,
        name: Seq<char>,
        r: FsResult<String>,
        after: &FsService,
    ) -> bool {
        let nodes = self.nodes();
        if InodeManager::in_data_namespace(parent) {
            r == Err::<String, FsError>(FsError::ReadOnlyFileSystem) && after.inode_mgr
                == self.inode_mgr
        } else if !inodes::beneath(nodes, parent, METADATA_INO) {
            r == Err::<String, FsError>(FsError::PermissionDenied) && after.inode_mgr
                == self.inode_mgr
        } else if !exists|ino: u64| #[trigger] inodes::is_child(nodes, ino, parent, name) {
            r == Err::<String, FsError>(FsError::NotFound) && after.inode_mgr == self.inode_mgr
        } else {
            exists|ino: u64| #[trigger]
                inodes::is_child(nodes, ino, parent, name) && match rmdir_error(nodes, ino) {
                    Some(e) => r == Err::<String, FsError>(e) && after.inode_mgr == self.inode_mgr,
                    None => {
                        &&& r matches Ok(path) && path@ == inodes::source_path(nodes, ino)
                        &&& after.nodes() == nodes.remove(ino)
                        &&& after.data_nodes() == kept(
                            self.data_nodes(),
                            |n: DataNode| stays_without(inodes::source_path(nodes, ino), n),
                        )
                        &&& after.inode_mgr.open_files == self.inode_mgr.open_files
                        &&& after.inode_mgr.creation_time == self.inode_mgr.creation_time
                        &&& after.inode_mgr.next_ino == self.inode_mgr.next_ino
                        &&& after.inode_mgr.next_fh == self.inode_mgr.next_fh
                    },
                }
        }
    }

    /// Removes an empty directory of `metadata/`; the catalogue has to drop the source path that
    /// comes back.
    pub fn rmdir(&mut self, parent: u64, name: &str) -> (r: FsResult<String>)
        requires
            old(self).wf(),
        ensures
            final(self).wf(),
            final(self).same_but_inodes(old(self)),
            old(self).removes_dir(parent, name@, r, final(self)),
    {
        let ghost nodes = self.nodes();
        if InodeManager::is_data_namespace(parent) {
            return Err(FsError::ReadOnlyFileSystem);
        }
        if !self.inode_mgr.is_metadata_child(parent) {
            return Err(FsError::PermissionDenied);
        }
        let ino: u64 = match self.inode_mgr.find_child_by_name(parent, name) {
            Some(ino) => ino,
            None => {
                return Err(FsError::NotFound);
            },
        };
        proof {
            assert(inodes::is_child(nodes, ino, parent, name@));
            child_of_metadata_is_not_fixed(nodes, ino, parent, name@);
        }
        let is_file = match self.inode_mgr.inodes.get(&ino) {
            Some(InodeData::Directory { .. }) => false,
            _ => true,
        };
        proof {
            assert(is_file == nodes[ino] is File);
        }
        if is_file {
            return Err(FsError::NotDirectory);
        }
        if self.has_children(ino) {
            return Err(FsError::DirectoryNotEmpty);
        }
        let path = self.inode_mgr.extract_source_path(ino);
        self.inode_mgr.inodes.remove(&ino);
        proof {
            assert(self.nodes() =~= nodes.remove(ino));
            removal_keeps_wf(nodes, ino, self.inode_mgr.next_ino);
        }
        self.inode_mgr.forget_directory(path.as_str());
        proof {
            assert(self.nodes() == nodes.remove(ino));
            assert(rmdir_error(nodes, ino) is None);
        }
        Ok(path)
    }

    /// Whether `r` is how a removal of the file `name` of `parent` begins.
    pub open spec fn plans_unlink(
        &self,
        parent: u64,
        name: Seq<char>,
        r: FsResult<UnlinkPlan>,
    ) -> bool {
        let nodes = self.nodes();
        if InodeManager::in_data_namespace(parent) {
            r == Err::<UnlinkPlan, FsError>(FsError::ReadOnlyFileSystem)
        } else if !inodes::beneath(nodes, parent, METADATA_INO) || !text::ends(name, ".torrent"@) {
            r == Err::<UnlinkPlan, FsError>(FsError::PermissionDenied)
        } else if !exists|ino: u64| #[trigger] inodes::is_child(nodes, ino, parent, name) {
            r == Err::<UnlinkPlan, FsError>(FsError::NotFound)
        } else {
            exists|ino: u64| #[trigger]
                inodes::is_child(nodes, ino, parent, name) && if nodes[ino] is Directory {
                    r == Err::<UnlinkPlan, FsError>(FsError::IsDirectory)
                } else {
                    r matches Ok(plan) && plan.ino == ino && plan.filename@ == name
                        && plan.source_path@ == inodes::source_path(nodes, parent)
                }
        }
    }

    /// Begins to remove a `.torrent` file: the catalogue has to remove the torrent first.
    pub fn unlink(&self, parent: u64, name: &str) -> (r: FsResult<UnlinkPlan>)
        requires
            self.wf(),
        ensures
            self.plans_unlink(parent, name@, r),
            r matches Ok(plan) ==> is_torrent_file(self.nodes(), plan.ino),
    {
        let ghost nodes = self.nodes();
        if InodeManager::is_data_namespace(parent) {
            return Err(FsError::ReadOnlyFileSystem);
        }
        if !self.inode_mgr.is_metadata_child(parent) {
            return Err(FsError::PermissionDenied);
        }
        if !text::ends_with(name, ".torrent") {
            return Err(FsError::PermissionDenied);
        }
        let ino: u64 = match self.inode_mgr.find_child_by_name(parent, name) {
            Some(ino) => ino,
            None => {
                return Err(FsError::NotFound);
            },
        };
        proof {
            assert(inodes::is_child(nodes, ino, parent, name@));
        }
        match self.inode_mgr.inodes.get(&ino) {
            Some(InodeData::File { name: filename, .. }) => {
                proof {
                    assert(nodes[ino].name() == filename@);
                }
                Ok(
                    UnlinkPlan {
                        ino,
                        filename: filename.clone(),
                        source_path: self.inode_mgr.extract_source_path(parent),
                    },
                )
            },
            _ => Err(FsError::IsDirectory),
        }
    }

    /// Whether `r` and `after` are what the removal of a file comes to, by what the catalogue answered.
    pub open spec fn unlinks(
        &self,
        plan: &UnlinkPlan,
        removal: UnlinkRemoval,
        cleaned: Seq<String>,
        r: FsResult<Option<i64>>,
        after: &FsService,
    ) -> bool {
        match removal {
            UnlinkRemoval::Failed(e) => r == Err::<Option<i64>, FsError>(e) && *after
                == *self,
            _ => {
                &&& after.nodes() == self.nodes().remove(plan.ino)
                &&& after.inode_mgr.open_files@ == kept(
                    self.inode_mgr.open_files@,
                    |i: u64| i != plan.ino,
                )
                &&& match removal {
                    UnlinkRemoval::Removed { torrent_id } => {
                        &&& r == Ok::<Option<i64>, FsError>(Some(torrent_id))
                        &&& after.data_nodes() == kept(
                            self.data_nodes(),
                            |n: DataNode|
                                stays_after_removal(torrent_id, text::views(cleaned), n),
                        )
                        &&& after.processing_torrents@ == self.processing_torrents@.remove(plan.source_path@)
                        &&& after.torrent_data_cache@ == self.torrent_data_cache@.remove(plan.source_path@)
                    },
                    _ => {
                        &&& r == Ok::<Option<i64>, FsError>(None)
                        &&& after.data_nodes() == self.data_nodes()
                        &&& after.processing_torrents == self.processing_torrents
                        &&& after.torrent_data_cache == self.torrent_data_cache
                    },
                }
            },
        }
    }

    /// Ends the removal of a `.torrent` file, by what the catalogue answered and by which
    /// metadata directories it dropped because they were left empty.
    pub fn finish_unlink(
        &mut self,
        plan: &UnlinkPlan,
        removal: UnlinkRemoval,
        cleaned: &Vec<String>,
    ) -> (r: FsResult<Option<i64>>)
        requires
            old(self).wf(),
            is_torrent_file(old(self).nodes(), plan.ino),
        ensures
            final(self).wf(),
            final(self).torrent_info_cache == old(self).torrent_info_cache,
            final(self).listen_addr == old(self).listen_addr,
            final(self).metrics == old(self).metrics,
            final(self).inode_mgr.creation_time == old(self).inode_mgr.creation_time,
            final(self).inode_mgr.next_ino == old(self).inode_mgr.next_ino,
            final(self).inode_mgr.next_fh == old(self).inode_mgr.next_fh,
            old(self).unlinks(plan, removal, cleaned@, r, final(self)),
    {
        let ghost nodes = self.nodes();
        let torrent_id: Option<i64> = match removal {
            UnlinkRemoval::Failed(e) => {
                return Err(e);
            },
            UnlinkRemoval::Removed { torrent_id } => Some(torrent_id),
            UnlinkRemoval::NoCatalogue => None,
            UnlinkRemoval::NotListed => None,
        };
        self.inode_mgr.inodes.remove(&plan.ino);
        proof {
            assert(self.nodes() =~= nodes.remove(plan.ino));
            torrent_removal_keeps_wf(nodes, plan.ino, self.inode_mgr.next_ino);
        }
        self.inode_mgr.close_all(plan.ino);
        match torrent_id {
            Some(id) => {
                self.inode_mgr.forget_torrent(id, cleaned);
                self.processing_torrents.remove(plan.source_path.as_str());
                self.torrent_data_cache.remove(plan.source_path.as_str());
            },
            None => {},
        }
        proof {
            assert(self.nodes() == nodes.remove(plan.ino));
        }
        Ok(torrent_id)
    }

    /// Whether `r` and `after` are what renaming comes to.
    pub open spec fn renames(
        &self,
        parent: u64,
        name: Seq<char>,
        newparent: u64,
        newname: Seq<char>,
        r: FsResult<RenameAction>,
        after: &FsService,
    ) -> bool {
        let nodes = self.nodes();
        let data = self.data_nodes();
        if InodeManager::in_data_namespace(parent) || InodeManager::in_data_namespace(newparent) {
            r == Err::<RenameAction, FsError>(FsError::ReadOnlyFileSystem) && after.inode_mgr
                == self.inode_mgr
        } else if !(nodes.contains_key(parent) || data.contains_key(parent)) || !(
        nodes.contains_key(newparent) || data.contains_key(newparent)) {
            r == Err::<RenameAction, FsError>(FsError::NotFound) && after.inode_mgr
                == self.inode_mgr
        } else if !inodes::beneath(nodes, parent, METADATA_INO) || !inodes::beneath(
            nodes,
            newparent,
            METADATA_INO,
        ) {
            r == Err::<RenameAction, FsError>(FsError::NotPermitted) && after.inode_mgr
                == self.inode_mgr
        } else if !exists|ino: u64| #[trigger] inodes::is_child(nodes, ino, parent, name) {
            r == Err::<RenameAction, FsError>(FsError::NotFound) && after.inode_mgr
                == self.inode_mgr
        } else {
            exists|ino: u64| #[trigger]
                inodes::is_child(nodes, ino, parent, name) && self.renames_ino(
                    ino,
                    parent,
                    newparent,
                    newname,
                    r,
                    after,
                )
        }
    }

    /// Whether `r` and `after` are what renaming the entry `ino` of `parent` comes to.
    pub open spec fn renames_ino(
        &self,
        ino: u64,
        parent: u64,
        newparent: u64,
        newname: Seq<char>,
        r: FsResult<RenameAction>,
        after: &FsService,
    ) -> bool {
        let nodes = self.nodes();
        if exists|t: u64| #[trigger] inodes::is_child(nodes, t, newparent, newname) {
            after.inode_mgr == self.inode_mgr && exists|t: u64| #[trigger]
                inodes::is_child(nodes, t, newparent, newname) && r == (if t == ino {
                    Ok::<RenameAction, FsError>(RenameAction::Nothing)
                } else {
                    Err(FsError::AlreadyExists)
                })
        } else {
            match nodes[ino] {
                Node::Directory { .. } => {
                    let old_path = inodes::source_path(nodes, ino);
                    let new_path = child_source_path(nodes, newparent, newname);
                    &&& after.nodes() == nodes.insert(
                        ino,
                        Node::Directory { parent: newparent, name: newname },
                    )
                    &&& after.data_nodes() == moved_nodes(self.data_nodes(), old_path, new_path)
                    &&& r matches Ok(RenameAction::Directory { old_path: o, new_name: m, new_path: p })
                        && o@ == old_path && m@ == newname && p@ == new_path
                    &&& !inodes::beneath(nodes, newparent, ino) ==> after.wf()
                },
                Node::File { data, name, .. } => if !text::ends(name, ".torrent"@) || !text::ends(
                    newname,
                    ".torrent"@,
                ) {
                    r == Err::<RenameAction, FsError>(FsError::PermissionDenied)
                        && after.inode_mgr == self.inode_mgr
                } else {
                    &&& after.nodes() == nodes.insert(
                        ino,
                        Node::File { parent: newparent, name: newname, data },
                    )
                    &&& after.data_nodes() == self.data_nodes()
                    &&& r matches Ok(RenameAction::File {
                        old_name,
                        old_source_path,
                        new_name,
                        new_source_path,
                    }) && old_name@ == name && old_source_path@ == inodes::source_path(nodes, parent)
                        && new_name@ == newname && new_source_path@ == inodes::source_path(
                        nodes,
                        newparent,
                    )
                    &&& !inodes::beneath(nodes, newparent, ino) ==> after.wf()
                },
            }
        }
    }

    /// Renames an entry of `metadata/`, a directory together with the paths beneath it.
    ///
    /// Where the new parent lies beneath the renamed entry itself, the entry is cut off from the
    /// root.
    pub fn rename(
        &mut self,
        parent: u64,
        name: &str,
        newparent: u64,
        newname: &str,
    ) -> (r: FsResult<RenameAction>)
        requires
            old(self).wf(),
        ensures
            old(self).renames(parent, name@, newparent, newname@, r, final(self)),
            final(self).same_but_inodes(old(self)),
            final(self).inode_mgr.open_files == old(self).inode_mgr.open_files,
            final(self).inode_mgr.creation_time == old(self).inode_mgr.creation_time,
            final(self).inode_mgr.next_ino == old(self).inode_mgr.next_ino,
            final(self).inode_mgr.next_fh == old(self).inode_mgr.next_fh,
    {
        let ghost nodes = self.nodes();
        if InodeManager::is_data_namespace(parent) || InodeManager::is_data_namespace(newparent) {
            return Err(FsError::ReadOnlyFileSystem);
        }
        if !(self.inode_mgr.inodes.contains_key(&parent)
            || self.inode_mgr.data_inodes.contains_key(&parent)) {
            return Err(FsError::NotFound);
        }
        if !(self.inode_mgr.inodes.contains_key(&newparent)
            || self.inode_mgr.data_inodes.contains_key(&newparent)) {
            return Err(FsError::NotFound);
        }
        if !self.inode_mgr.is_metadata_child(parent) || !self.inode_mgr.is_metadata_child(
            newparent,
        ) {
            return Err(FsError::NotPermitted);
        }
        let ino: u64 = match self.inode_mgr.find_child_by_name(parent, name) {
            Some(ino) => ino,
            None => {
                return Err(FsError::NotFound);
            },
        };
        proof {
            assert(inodes::is_child(nodes, ino, parent, name@));
            child_of_metadata_is_not_fixed(nodes, ino, parent, name@);
            inodes::beneath_unfold(nodes, newparent, METADATA_INO);
            assert(nodes.contains_key(METADATA_INO));
            assert(nodes.contains_key(newparent));
        }
        match self.inode_mgr.find_child_by_name(newparent, newname) {
            Some(target) => {
                proof {
                    assert(inodes::is_child(nodes, target, newparent, newname@));
                }
                if target == ino {
                    return Ok(RenameAction::Nothing);
                }
                return Err(FsError::AlreadyExists);
            },
            None => {},
        }
        let source = match self.inode_mgr.inodes.get(&ino) {
            Some(data) => data.clone(),
            None => {
                return Err(FsError::NotFound);
            },
        };
        proof {
            assert(nodes[ino] == source@);
        }
        match source {
            InodeData::Directory { .. } => {
                let old_path = self.inode_mgr.extract_source_path(ino);
                let new_path = self.source_path_of_child(newparent, newname);
                let updated = InodeData::Directory { parent: newparent, name: newname.to_owned() };
                let ghost node = updated@;
                self.inode_mgr.inodes.insert(ino, updated);
                proof {
                    assert(self.nodes() =~= nodes.insert(ino, node));
                    if !inodes::beneath(nodes, newparent, ino) {
                        move_keeps_wf(nodes, ino, node, self.inode_mgr.next_ino);
                    }
                }
                self.inode_mgr.move_data(old_path.as_str(), new_path.as_str());
                proof {
                    assert(self.nodes() == nodes.insert(ino, node));
                }
                Ok(RenameAction::Directory { old_path, new_name: newname.to_owned(), new_path })
            },
            InodeData::File { name: old_name, data, .. } => {
                if !text::ends_with(name, ".torrent") || !text::ends_with(newname, ".torrent") {
                    return Err(FsError::PermissionDenied);
                }
                let old_source_path = self.inode_mgr.extract_source_path(parent);
                let new_source_path = self.inode_mgr.extract_source_path(newparent);
                let updated = InodeData::File {
                    parent: newparent,
                    name: newname.to_owned(),
                    data,
                };
                let ghost node = updated@;
                self.inode_mgr.inodes.insert(ino, updated);
                proof {
                    assert(self.nodes() =~= nodes.insert(ino, node));
                    if !inodes::beneath(nodes, newparent, ino) {
                        move_keeps_wf(nodes, ino, node, self.inode_mgr.next_ino);
                    }
                }
                Ok(
                    RenameAction::File {
                        old_name,
                        old_source_path,
                        new_name: newname.to_owned(),
                        new_source_path,
                    },
                )
            },
        }
    }

    /// Whether `r` is what reading comes to.
    pub open spec fn reads(&self, ino: u64, offset: i64, size: u32, r: ReadStep) -> bool {
        if ino == ROOT_INO || ino == METADATA_INO || ino == DATA_INO {
            r == ReadStep::Failed(FsError::IsDirectory)
        } else if ino == STATS_INO {
            r matches ReadStep::Stats { source } && source@ == StatsOrigin::Global
        } else if InodeManager::stats_ino(ino) {
            r matches ReadStep::Stats { source } && source@ == data_stats_origin(
                self.data_nodes(),
                ino,
            )
        } else if InodeManager::data_ino(ino) {
            if !self.data_nodes().contains_key(ino) {
                r == ReadStep::Failed(FsError::NotFound)
            } else {
                match self.data_nodes()[ino] {
                    DataNode::TorrentFile { torrent_id: t, file_id: f, size: file_size, .. } => {
                        let start = inodes::as_unsigned(offset);
                        let end = inodes::as_unsigned(file_size);
                        if start >= end {
                            r matches ReadStep::Ready(bytes) && bytes@ == Seq::<u8>::empty()
                        } else {
                            r matches ReadStep::Torrent { torrent_id, file_id, offset: o, size: n }
                                && torrent_id == t && file_id == f && o == start && n == (if size
                                < end - start {
                                size as int
                            } else {
                                end - start
                            })
                        }
                    },
                    _ => r == ReadStep::Failed(FsError::NotFound),
                }
            }
        } else if self.nodes().contains_key(ino) && self.nodes()[ino] is File {
            r matches ReadStep::Ready(bytes) && bytes@ == byte_range(
                file_data(self.nodes()[ino]),
                inodes::as_unsigned(offset),
                size as int,
            )
        } else {
            r == ReadStep::Failed(FsError::NotFound)
        }
    }

    /// Reads from an inode.
    pub fn read(&self, ino: u64, offset: i64, size: u32) -> (r: ReadStep)
        ensures
            self.reads(ino, offset, size, r),
    {
        if ino == ROOT_INO || ino == METADATA_INO || ino == DATA_INO {
            return ReadStep::Failed(FsError::IsDirectory);
        }
        if ino == STATS_INO {
            return ReadStep::Stats { source: StatsSource::Global };
        }
        if InodeManager::is_stats_ino(ino) {
            return ReadStep::Stats { source: self.stats_source(ino) };
        }
        if InodeManager::is_data_ino(ino) {
            match self.inode_mgr.data_inodes.get(&ino) {
                Some(DataInode::TorrentFile { torrent_id, file_id, size: file_size, .. }) => {
                    let total: i64 = *file_size;
                    assert(offset < 0 ==> (offset as u64) == offset + 0x1_0000_0000_0000_0000)
                        by (bit_vector);
                    assert(total < 0 ==> (total as u64) == total + 0x1_0000_0000_0000_0000)
                        by (bit_vector);
                    let start: u64 = offset as u64;
                    let end: u64 = total as u64;
                    if start >= end {
                        return ReadStep::Ready(Vec::new());
                    }
                    let left: u64 = end - start;
                    let n: u32 = if (size as u64) < left {
                        size
                    } else {
                        left as u32
                    };
                    return ReadStep::Torrent {
                        torrent_id: *torrent_id,
                        file_id: *file_id,
                        offset: start,
                        size: n,
                    };
                },
                _ => {
                    return ReadStep::Failed(FsError::NotFound);
                },
            }
        }
        match self.inode_mgr.inodes.get(&ino) {
            Some(InodeData::File { data, .. }) => ReadStep::Ready(slice_bytes(data, offset, size)),
            _ => ReadStep::Failed(FsError::NotFound),
        }
    }
}

/// An entry directly in a directory of `metadata/` is none of the fixed ones.
proof fn child_of_metadata_is_not_fixed(
    nodes: Map<u64, Node>,
    ino: u64,
    parent: u64,
    name: Seq<char>,
)
    requires
        inodes::has_fixed_entries(nodes),
        inodes::acyclic(nodes),
        inodes::beneath(nodes, parent, METADATA_INO),
        inodes::is_child(nodes, ino, parent, name),
    ensures
        ino != ROOT_INO,
        ino != METADATA_INO,
        ino != DATA_INO,
        ino != STATS_INO,
{
    inodes::beneath_unfold(nodes, ROOT_INO, METADATA_INO);
    inodes::beneath_unfold(nodes, 0, METADATA_INO);
}

proof fn removal_keeps_wf(nodes: Map<u64, Node>, ino: u64, next: u64)
    requires
        inodes::has_fixed_entries(nodes),
        inodes::acyclic(nodes),
        inodes::inos_below(nodes, next),
        ino != ROOT_INO,
        ino != METADATA_INO,
        ino != DATA_INO,
        ino != STATS_INO,
    ensures
        inodes::has_fixed_entries(nodes.remove(ino)),
        inodes::acyclic(nodes.remove(ino)),
        inodes::inos_below(nodes.remove(ino), next),
{
    inodes::removal_keeps_tree(nodes, ino);
    assert forall|k: u64| #[trigger] nodes.remove(ino).contains_key(k) implies k < next
        && nodes.remove(ino)[k].parent() < next by {
        assert(nodes.contains_key(k));
    }
}

proof fn torrent_removal_keeps_wf(nodes: Map<u64, Node>, ino: u64, next: u64)
    requires
        inodes::has_fixed_entries(nodes),
        inodes::acyclic(nodes),
        inodes::inos_below(nodes, next),
        is_torrent_file(nodes, ino),
    ensures
        inodes::has_fixed_entries(nodes.remove(ino)),
        inodes::acyclic(nodes.remove(ino)),
        inodes::inos_below(nodes.remove(ino), next),
{
    reveal_strlit(".stats");
    reveal_strlit(".torrent");
    assert(".stats"@.len() == 6 && ".torrent"@.len() == 8);
    removal_keeps_wf(nodes, ino, next);
}

proof fn move_keeps_wf(nodes: Map<u64, Node>, ino: u64, node: Node, next: u64)
    requires
        inodes::has_fixed_entries(nodes),
        inodes::acyclic(nodes),
        inodes::inos_below(nodes, next),
        ino != ROOT_INO,
        ino != METADATA_INO,
        ino != DATA_INO,
        ino != STATS_INO,
        nodes.contains_key(ino),
        nodes.contains_key(node.parent()),
        !inodes::beneath(nodes, node.parent(), ino),
    ensures
        inodes::has_fixed_entries(nodes.insert(ino, node)),
        inodes::acyclic(nodes.insert(ino, node)),
        inodes::inos_below(nodes.insert(ino, node), next),
{
    inodes::move_keeps_tree(nodes, ino, node);
    assert forall|k: u64| #[trigger] nodes.insert(ino, node).contains_key(k) implies k < next
        && nodes.insert(ino, node)[k].parent() < next by {
        assert(nodes.contains_key(k));
    }
}

/// The offsets of a listing count its entries from one.
pub open spec fn counts_entries(all: Seq<Listed>) -> bool {
    forall|i: int| 0 <= i < all.len() ==> (#[trigger] all[i]).offset == i + 1
}

/// What comes after an entry of a listing, asked for by the entry's offset, is the rest of the
/// listing: nothing is skipped and nothing comes twice.
pub proof fn listing_resumes(all: Seq<Listed>, n: int)
    requires
        counts_entries(all),
        0 <= n <= all.len(),
        n <= i64::MAX,
    ensures
        listed_after(all, n as i64) == all.skip(n),
    decreases all.len(),
{
    reveal(Seq::filter);
    if all.len() == 0 {
        assert(all.skip(n) =~= all);
    } else {
        let head = all.drop_last();
        assert forall|i: int| 0 <= i < head.len() implies (#[trigger] head[i]).offset == i + 1 by {
            assert(head[i] == all[i]);
        }
        assert(all[all.len() - 1].offset == all.len());
        if n == all.len() {
            listing_resumes(head, n - 1);
            nothing_after(head, n);
            assert(all.skip(n) =~= Seq::empty());
        } else {
            listing_resumes(head, n);
            assert(all.skip(n) =~= head.skip(n).push(all.last()));
        }
    }
}

proof fn nothing_after(all: Seq<Listed>, n: int)
    requires
        counts_entries(all),
        all.len() <= n <= i64::MAX,
    ensures
        listed_after(all, n as i64) == Seq::<Listed>::empty(),
    decreases all.len(),
{
    reveal(Seq::filter);
    if all.len() > 0 {
        let head = all.drop_last();
        assert forall|i: int| 0 <= i < head.len() implies (#[trigger] head[i]).offset == i + 1 by {
            assert(head[i] == all[i]);
        }
        assert(all[all.len() - 1].offset == all.len());
        nothing_after(head, n);
    }
}

/// A listing of a directory counts its entries from one, and so does that of the root.
pub proof fn listings_count_entries(nodes: Map<u64, Node>, ino: u64, children: Seq<u64>)
    requires
        children.len() < i64::MAX - 2,
    ensures
        counts_entries(listing(nodes, ino, children)),
        counts_entries(root_listing()),
{
}

/// In a tree whose names are unique, a name leads to one entry at most.
pub proof fn unique_names_one_child(
    nodes: Map<u64, Node>,
    a: u64,
    b: u64,
    parent: u64,
    name: Seq<char>,
)
    requires
        inodes::unique_names(nodes),
        inodes::is_child(nodes, a, parent, name),
        inodes::is_child(nodes, b, parent, name),
    ensures
        a == b,
{
}

/// Making an entry keeps names unique, and the new entry is found under its name.
pub proof fn new_entry_keeps_names_unique(nodes: Map<u64, Node>, ino: u64, node: Node, file: bool)
    requires
        inodes::unique_names(nodes),
        !nodes.contains_key(ino),
        new_entry_error(nodes, node.parent(), node.name(), file) is None,
    ensures
        inodes::unique_names(nodes.insert(ino, node)),
        inodes::is_child(nodes.insert(ino, node), ino, node.parent(), node.name()),
{
    let after = nodes.insert(ino, node);
    assert forall|a: u64, b: u64|
        #![trigger after.contains_key(a), after.contains_key(b)]
        after.contains_key(a) && after.contains_key(b) && after[a].parent() == after[b].parent()
            && after[a].name() == after[b].name() implies a == b by {
        if a != ino && b != ino {
            assert(nodes.contains_key(a) && nodes.contains_key(b));
        } else if a != ino {
            assert(!inodes::is_child(nodes, a, node.parent(), node.name()));
        } else if b != ino {
            assert(!inodes::is_child(nodes, b, node.parent(), node.name()));
        }
    }
}

/// Moving an entry to a name that is free keeps names unique.
pub proof fn move_keeps_names_unique(nodes: Map<u64, Node>, ino: u64, node: Node)
    requires
        inodes::unique_names(nodes),
        forall|t: u64| !#[trigger] inodes::is_child(nodes, t, node.parent(), node.name()),
    ensures
        inodes::unique_names(nodes.insert(ino, node)),
{
    let after = nodes.insert(ino, node);
    assert forall|a: u64, b: u64|
        #![trigger after.contains_key(a), after.contains_key(b)]
        after.contains_key(a) && after.contains_key(b) && after[a].parent() == after[b].parent()
            && after[a].name() == after[b].name() implies a == b by {
        if a != ino && b != ino {
            assert(nodes.contains_key(a) && nodes.contains_key(b));
        } else if a != ino {
            assert(!inodes::is_child(nodes, a, node.parent(), node.name()));
        } else if b != ino {
            assert(!inodes::is_child(nodes, b, node.parent(), node.name()));
        }
    }
}

/// Taking an entry away keeps names unique.
pub proof fn removal_keeps_names_unique(nodes: Map<u64, Node>, ino: u64)
    requires
        inodes::unique_names(nodes),
    ensures
        inodes::unique_names(nodes.remove(ino)),
{
    let after = nodes.remove(ino);
    assert forall|a: u64, b: u64|
        #![trigger after.contains_key(a), after.contains_key(b)]
        after.contains_key(a) && after.contains_key(b) && after[a].parent() == after[b].parent()
            && after[a].name() == after[b].name() implies a == b by {
        assert(nodes.contains_key(a) && nodes.contains_key(b));
    }
}

/// Some `.torrent` file of the tree holds the bytes.
pub open spec fn holds_torrent(nodes: Map<u64, Node>, bytes: Seq<u8>) -> bool {
    exists|k: u64| #[trigger] is_torrent_file(nodes, k) && file_data(nodes[k]) == bytes
}

/// What a read of a file of a torrent comes to before its pieces are looked at.
#[derive(Debug)]
pub enum DataRead {
    Ready(Vec<u8>),
    /// The file is the one at this place in its torrent; its pieces have to be found.
    NeedPieces { info_hash: String, file_index: i32 },
}

/// A torrent as the catalogue knows it: its info hash and its files.
pub struct TorrentRows {
    pub info_hash: String,
    pub files: Vec<TorrentFile>,
}

/// What the catalogue answered to the question for a torrent.
pub enum TorrentAnswer {
    NoCatalogue,
    Failed(FsError),
    NotListed,
    Found(TorrentRows),
}

/// The key of a file in the cache of file contents.
pub open spec fn content_key(info_hash: Seq<char>, file_id: i64) -> Seq<char> {
    info_hash + ":"@ + text::dec_signed(file_id as int)
}

pub open spec fn has_file(files: Seq<TorrentFile>, file_id: i64) -> bool {
    exists|i: int| 0 <= i < files.len() && (#[trigger] files[i]).id == file_id
}

/// `i` is the first place at which the file stands.
pub open spec fn file_stands_at(files: Seq<TorrentFile>, file_id: i64, i: int) -> bool {
    0 <= i < files.len() && files[i].id == file_id && forall|j: int|
        0 <= j < i ==> (#[trigger] files[j]).id != file_id
}

/// The place of a file among the files of its torrent.
pub fn file_position(files: &Vec<TorrentFile>, file_id: i64) -> (r: Option<usize>)
    ensures
        match r {
            Some(i) => file_stands_at(files@, file_id, i as int),
            None => !has_file(files@, file_id),
        },
{
    let mut i: usize = 0;
    while i < files.len()
        invariant
            i <= files@.len(),
            forall|j: int| 0 <= j < i ==> (#[trigger] files@[j]).id != file_id,
        decreases files@.len() - i,
    {
        if files[i].id == file_id {
            return Some(i);
        }
        i = i + 1;
    }
    None
}

/// What follows the check for pieces on disk.
#[derive(Debug)]
pub enum PiecesNext {
    /// All pieces are there: read them.
    ReadNow,
    /// They have to be downloaded.
    Wait(ReadOutcome),
}

impl FsService {
    pub open spec fn same_but_metrics(&self, other: &FsService) -> bool {
        &&& self.inode_mgr == other.inode_mgr
        &&& self.processing_torrents == other.processing_torrents
        &&& self.torrent_data_cache == other.torrent_data_cache
        &&& self.torrent_info_cache == other.torrent_info_cache
        &&& self.listen_addr == other.listen_addr
    }

    /// Whether `r` and `after` are what beginning to read from a file of a torrent comes to.
    pub open spec fn begins_read(
        &self,
        file_id: i64,
        offset: u64,
        size: u32,
        answer: TorrentAnswer,
        can_download: bool,
        r: FsResult<DataRead>,
        after: &FsService,
    ) -> bool {
        match answer {
            TorrentAnswer::NoCatalogue => r matches Err(FsError::Internal(m)) && m@
                == "torrent service not available"@ && after.metrics == self.metrics,
            TorrentAnswer::Failed(e) => r == Err::<DataRead, FsError>(e) && after.metrics
                == self.metrics,
            TorrentAnswer::NotListed => r == Err::<DataRead, FsError>(FsError::NotFound)
                && after.metrics == self.metrics,
            TorrentAnswer::Found(t) => if !has_file(t.files@, file_id) {
                r == Err::<DataRead, FsError>(FsError::NotFound) && after.metrics == self.metrics
            } else {
                let key = content_key(t.info_hash@, file_id);
                if self.torrent_data_cache@.contains_key(key) {
                    &&& r matches Ok(DataRead::Ready(bytes)) && bytes@ == byte_range(
                        self.torrent_data_cache@[key]@,
                        offset as int,
                        size as int,
                    )
                    &&& after.metrics == (MetricsSnapshot {
                        l1_hits: metrics::counted(self.metrics.l1_hits),
                        ..self.metrics
                    })
                } else {
                    &&& after.metrics == (MetricsSnapshot {
                        l1_misses: metrics::counted(self.metrics.l1_misses),
                        ..self.metrics
                    })
                    &&& if can_download {
                        r matches Ok(DataRead::NeedPieces { info_hash, file_index })
                            && info_hash@ == t.info_hash@ && exists|i: int| #[trigger]
                            file_stands_at(t.files@, file_id, i) && file_index == i as i32
                    } else {
                        r matches Err(FsError::Internal(m)) && m@
                            == "download manager not available"@
                    }
                }
            },
        }
    }

    /// Begins to read from a file of a torrent: from the cache of file contents where it is
    /// there, else from its pieces, where pieces can be had at all.
    pub fn read_data(
        &mut self,
        file_id: i64,
        offset: u64,
        size: u32,
        answer: TorrentAnswer,
        can_download: bool,
    ) -> (r: FsResult<DataRead>)
        requires
            old(self).wf(),
        ensures
            final(self).wf(),
            final(self).same_but_metrics(old(self)),
            old(self).begins_read(
                file_id,
                offset,
                size,
                answer,
                can_download,
                r,
                final(self),
            ),
    {
        let torrent = match answer {
            TorrentAnswer::NoCatalogue => {
                return Err(FsError::Internal("torrent service not available".to_owned()));
            },
            TorrentAnswer::Failed(e) => {
                return Err(e);
            },
            TorrentAnswer::NotListed => {
                return Err(FsError::NotFound);
            },
            TorrentAnswer::Found(t) => t,
        };
        let position: usize = match file_position(&torrent.files, file_id) {
            Some(i) => i,
            None => {
                return Err(FsError::NotFound);
            },
        };
        proof {
            assert(file_stands_at(torrent.files@, file_id, position as int));
        }
        let key = text::concat3(
            torrent.info_hash.as_str(),
            ":",
            text::decimal_signed(file_id).as_str(),
        );
        let cached: Option<Vec<u8>> = match self.torrent_data_cache.get(key.as_str()) {
            Some(content) => Some(slice_from(content, offset, size)),
            None => None,
        };
        match cached {
            Some(bytes) => {
                self.metrics.l1_hits = count(self.metrics.l1_hits);
                return Ok(DataRead::Ready(bytes));
            },
            None => {},
        }
        self.metrics.l1_misses = count(self.metrics.l1_misses);
        if can_download {
            Ok(
                DataRead::NeedPieces {
                    info_hash: torrent.info_hash,
                    file_index: position as i32,
                },
            )
        } else {
            Err(FsError::Internal("download manager not available".to_owned()))
        }
    }

    /// Whether `r` and `after` are what a look for a parsed torrent comes to.
    pub open spec fn recalls(
        &self,
        info_hash: Seq<char>,
        r: Option<u64>,
        after: &FsService,
    ) -> bool {
        if self.torrent_info_cache@.contains_key(info_hash) {
            &&& r == Some(self.torrent_info_cache@[info_hash])
            &&& after.metrics == (MetricsSnapshot {
                l3_hits: metrics::counted(self.metrics.l3_hits),
                ..self.metrics
            })
        } else {
            &&& r is None
            &&& after.metrics == (MetricsSnapshot {
                l3_misses: metrics::counted(self.metrics.l3_misses),
                ..self.metrics
            })
        }
    }

    /// Where the caller keeps the parsed torrent, if it has been parsed before.
    pub fn get_or_parse_torrent_info(&mut self, info_hash: &str) -> (r: Option<u64>)
        requires
            old(self).wf(),
        ensures
            final(self).wf(),
            final(self).same_but_metrics(old(self)),
            old(self).recalls(info_hash@, r, final(self)),
    {
        let found: Option<u64> = match self.torrent_info_cache.get(info_hash) {
            Some(place) => Some(*place),
            None => None,
        };
        match found {
            Some(_) => {
                self.metrics.l3_hits = count(self.metrics.l3_hits);
            },
            None => {
                self.metrics.l3_misses = count(self.metrics.l3_misses);
            },
        }
        found
    }

    /// Whether `after` knows where the caller keeps a parsed torrent.
    pub open spec fn remembers(&self, info_hash: Seq<char>, place: u64, after: &FsService) -> bool {
        after.torrent_info_cache@ == self.torrent_info_cache@.insert(info_hash, place)
    }

    /// Remembers where the caller keeps a parsed torrent.
    pub fn remember_torrent_info(&mut self, info_hash: &str, place: u64)
        requires
            old(self).wf(),
        ensures
            final(self).wf(),
            old(self).remembers(info_hash@, place, final(self)),
            final(self).inode_mgr == old(self).inode_mgr,
            final(self).processing_torrents == old(self).processing_torrents,
            final(self).torrent_data_cache == old(self).torrent_data_cache,
            final(self).listen_addr == old(self).listen_addr,
            final(self).metrics == old(self).metrics,
    {
        self.torrent_info_cache.insert(info_hash.to_owned(), place);
    }

    /// Whether `r` and `after` are what follows the check for pieces on disk.
    pub open spec fn goes_on(
        &self,
        on_disk: TorrentResult<bool>,
        torrent_id: i64,
        info_hash: String,
        file_index: i32,
        offset: u64,
        size: u32,
        r: FsResult<PiecesNext>,
        after: &FsService,
    ) -> bool {
        match on_disk {
            Ok(true) => {
                &&& r matches Ok(PiecesNext::ReadNow)
                &&& after.metrics == (MetricsSnapshot {
                    l2_hits: metrics::counted(self.metrics.l2_hits),
                    ..self.metrics
                })
            },
            Ok(false) => {
                &&& r == Ok::<PiecesNext, FsError>(
                    PiecesNext::Wait(
                        ReadOutcome::Pending { file_index, offset, size, info_hash, torrent_id },
                    ),
                )
                &&& after.metrics == (MetricsSnapshot {
                    l2_misses: metrics::counted(self.metrics.l2_misses),
                    deferred_reads: metrics::counted(self.metrics.deferred_reads),
                    ..self.metrics
                })
            },
            Err(e) => {
                &&& r matches Err(f) && fs_error::stands_for_torrent_error(e, f)
                &&& after.metrics == self.metrics
            },
        }
    }

    /// Goes on after the check for pieces on disk: read at once, wait for the download, or fail.
    pub fn pieces_checked(
        &mut self,
        on_disk: TorrentResult<bool>,
        torrent_id: i64,
        info_hash: String,
        file_index: i32,
        offset: u64,
        size: u32,
    ) -> (r: FsResult<PiecesNext>)
        requires
            old(self).wf(),
        ensures
            final(self).wf(),
            final(self).same_but_metrics(old(self)),
            old(self).goes_on(
                on_disk,
                torrent_id,
                info_hash,
                file_index,
                offset,
                size,
                r,
                final(self),
            ),
    {
        match on_disk {
            Ok(there) => if there {
                self.metrics.l2_hits = count(self.metrics.l2_hits);
                Ok(PiecesNext::ReadNow)
            } else {
                self.metrics.l2_misses = count(self.metrics.l2_misses);
                self.metrics.deferred_reads = count(self.metrics.deferred_reads);
                Ok(
                    PiecesNext::Wait(
                        ReadOutcome::Pending { file_index, offset, size, info_hash, torrent_id },
                    ),
                )
            },
            Err(e) => Err(FsError::from(e)),
        }
    }

    /// The bytes of the non-empty `.torrent` files of the tree, in some order.
    pub fn torrent_candidates(&self) -> (r: Vec<Vec<u8>>)
        ensures
            forall|i: int|
                0 <= i < r@.len() ==> holds_torrent(self.nodes(), (#[trigger] r@[i])@)
                    && r@[i]@.len() > 0,
            forall|k: u64| #[trigger]
                is_torrent_file(self.nodes(), k) && file_data(self.nodes()[k]).len() > 0
                    ==> exists|i: int|
                    0 <= i < r@.len() && (#[trigger] r@[i])@ == file_data(self.nodes()[k]),
    {
        let keys = keys_of(&self.inode_mgr.inodes);
        let mut r: Vec<Vec<u8>> = Vec::new();
        let mut i: usize = 0;
        while i < keys.len()
            invariant
                i <= keys@.len(),
                forall|k: u64| #[trigger]
                    self.inode_mgr.inodes@.contains_key(k) <==> keys@.contains(k),
                forall|n: int|
                    0 <= n < r@.len() ==> holds_torrent(self.nodes(), (#[trigger] r@[n])@)
                        && r@[n]@.len() > 0,
                forall|j: int|
                    0 <= j < i && is_torrent_file(self.nodes(), #[trigger] keys@[j]) && file_data(
                        self.nodes()[keys@[j]],
                    ).len() > 0 ==> exists|m: int|
                        0 <= m < r@.len() && (#[trigger] r@[m])@ == file_data(
                            self.nodes()[keys@[j]],
                        ),
            decreases keys@.len() - i,
        {
            let k: u64 = keys[i];
            let ghost before = r@;
            proof {
                assert(keys@.contains(k));
                assert(self.inode_mgr.inodes@.contains_key(k));
            }
            match self.inode_mgr.inodes.get(&k) {
                Some(InodeData::File { name, data, .. }) => {
                    if text::ends_with(name.as_str(), ".torrent") && data.len() > 0 {
                        let copy = copy_bytes(data);
                        r.push(copy);
                        proof {
                            assert(is_torrent_file(self.nodes(), k));
                            assert(file_data(self.nodes()[k]) == copy@);
                            assert(r@[before.len() as int]@ == file_data(self.nodes()[k]));
                            assert(holds_torrent(self.nodes(), copy@));
                            assert forall|n: int| 0 <= n < before.len() implies r@[n]
                                == #[trigger] before[n] by {}
                        }
                    }
                },
                _ => {},
            }
            proof {
                assert forall|j: int|
                    0 <= j < i + 1 && is_torrent_file(self.nodes(), #[trigger] keys@[j])
                        && file_data(self.nodes()[keys@[j]]).len() > 0 implies exists|m: int|
                    0 <= m < r@.len() && (#[trigger] r@[m])@ == file_data(
                        self.nodes()[keys@[j]],
                    ) by {
                    if j < i {
                        let m = choose|m: int|
                            0 <= m < before.len() && (#[trigger] before[m])@ == file_data(
                                self.nodes()[keys@[j]],
                            );
                        assert(r@[m] == before[m]);
                    } else {
                        assert(r@[before.len() as int]@ == file_data(self.nodes()[k]));
                    }
                }
            }
            i = i + 1;
        }
        proof {
            assert forall|k: u64| #[trigger]
                is_torrent_file(self.nodes(), k) && file_data(self.nodes()[k]).len()
                    > 0 implies exists|i: int|
                0 <= i < r@.len() && (#[trigger] r@[i])@ == file_data(self.nodes()[k]) by {
                assert(self.inode_mgr.inodes@.contains_key(k));
                assert(keys@.contains(k));
                let j = choose|j: int| 0 <= j < keys@.len() && #[trigger] keys@[j] == k;
                assert(is_torrent_file(self.nodes(), keys@[j]));
            }
        }
        r
    }
}

/// The bytes of a `.torrent` file and, where they could be parsed, its info hash.
pub struct ParsedTorrent {
    pub data: Vec<u8>,
    pub info_hash: Option<Vec<u8>>,
}

/// The file is of the torrent with the given info hash.
pub open spec fn is_of_torrent(p: ParsedTorrent, info_hash: Seq<char>) -> bool {
    p.info_hash matches Some(h) && digest::hex_text(h@) == info_hash
}

/// The bytes of a torrent: what the catalogue stored, or else the first file of the tree that is
/// of the same torrent.
pub fn get_torrent_raw_data(
    stored: Option<Vec<u8>>,
    info_hash: &str,
    candidates: &Vec<ParsedTorrent>,
) -> (r: FsResult<Vec<u8>>)
    ensures
        if stored matches Some(data) && data@.len() > 0 {
            r matches Ok(bytes) && stored == Some(bytes)
        } else if exists|i: int|
            0 <= i < candidates@.len() && is_of_torrent(#[trigger] candidates@[i], info_hash@) {
            exists|i: int|
                0 <= i < candidates@.len() && is_of_torrent(#[trigger] candidates@[i], info_hash@)
                    && (forall|j: int|
                    0 <= j < i ==> !is_of_torrent(#[trigger] candidates@[j], info_hash@)) && (
                r matches Ok(bytes) && bytes@ == candidates@[i].data@)
        } else {
            r == Err::<Vec<u8>, FsError>(FsError::NotFound)
        },
{
    match stored {
        Some(data) => if data.len() > 0 {
            return Ok(data);
        },
        None => {},
    }
    let mut i: usize = 0;
    while i < candidates.len()
        invariant
            i <= candidates@.len(),
            forall|j: int| 0 <= j < i ==> !is_of_torrent(#[trigger] candidates@[j], info_hash@),
            !(stored matches Some(data) && data@.len() > 0),
        decreases candidates@.len() - i,
    {
        let fits = match &candidates[i].info_hash {
            Some(hash) => text::same(hex_encode(hash).as_str(), info_hash),
            None => false,
        };
        proof {
            assert(fits == is_of_torrent(candidates@[i as int], info_hash@));
        }
        if fits {
            return Ok(copy_bytes(&candidates[i].data));
        }
        i = i + 1;
    }
    Err(FsError::NotFound)
}

} // verus!

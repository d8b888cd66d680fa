//! The in-memory inode tables of the `metadata/` and `data/` subtrees.

use std::collections::hash_map::DefaultHasher;
use std::collections::HashMap;
use std::hash::Hasher;

use vstd::prelude::*;
use vstd::std_specs::hash::DefaultHasherAdditionalSpecFns;

use super::fs_types::{Attr, FileKind};
use crate::domain::types::Torrent;
use crate::text;

verus! {

broadcast use vstd::std_specs::hash::group_hash_axioms;

pub const ROOT_INO: u64 = 1;

pub const METADATA_INO: u64 = 2;

pub const DATA_INO: u64 = 3;

pub const STATS_INO: u64 = 4;

pub const MAX_TORRENT_SIZE: usize = 10 * 1024 * 1024;

pub const DATA_TORRENT_INO_BASE: u64 = 1_000_000;

pub const DATA_DIR_INO_BASE: u64 = 2_000_000;

pub const DATA_FILE_INO_BASE: u64 = 3_000_000;

pub const SOURCE_PATH_DIR_INO_BASE: u64 = 4_000_000;

pub const STATS_INO_OFFSET: u64 = 10_000_000;

/// How many inode numbers the hash of a source path is spread over.
pub const SOURCE_PATH_DIR_INO_COUNT: u64 = 1_000_000;

/// The first inode number that is handed out to a new entry.
pub const FIRST_FREE_INO: u64 = 5;

/// An entry below `metadata/`, or one of the fixed top entries.
#[derive(Debug)]
pub enum InodeData {
    Directory { parent: u64, name: String },
    File { parent: u64, name: String, data: Vec<u8> },
}

/// What an entry holds.
pub enum Node {
    Directory { parent: u64, name: Seq<char> },
    File { parent: u64, name: Seq<char>, data: Seq<u8> },
}

impl Node {
    pub open spec fn parent(self) -> u64 {
        match self {
            Node::Directory { parent, .. } => parent,
            Node::File { parent, .. } => parent,
        }
    }

    pub open spec fn name(self) -> Seq<char> {
        match self {
            Node::Directory { name, .. } => name,
            Node::File { name, .. } => name,
        }
    }
}

impl View for InodeData {
    type V = Node;

    open spec fn view(&self) -> Node {
        match *self {
            InodeData::Directory { parent, name } => Node::Directory { parent, name: name@ },
            InodeData::File { parent, name, data } => Node::File {
                parent,
                name: name@,
                data: data@,
            },
        }
    }
}

/// A copy of the given bytes.
pub(crate) fn copy_bytes(v: &Vec<u8>) -> (r: Vec<u8>)
    ensures
        r@ == v@,
{
    let mut r: Vec<u8> = Vec::new();
    r.extend_from_slice(v.as_slice());
    proof {
        assert(r@ =~= v@);
    }
    r
}

impl Clone for InodeData {
    fn clone(&self) -> (r: Self)
        ensures
            r@ == self@,
    {
        match self {
            InodeData::Directory { parent, name } => InodeData::Directory {
                parent: *parent,
                name: name.clone(),
            },
            InodeData::File { parent, name, data } => InodeData::File {
                parent: *parent,
                name: name.clone(),
                data: copy_bytes(data),
            },
        }
    }
}

/// An entry below `data/` that has been looked up or listed.
#[derive(Debug)]
pub enum DataInode {
    SourcePathDir { path: String },
    TorrentRoot { torrent_id: i64, source_path: String, name: String, filename: String },
    TorrentDir { torrent_id: i64, dir_id: i64, name: String },
    TorrentFile { torrent_id: i64, file_id: i64, name: String, size: i64 },
}

/// What an entry below `data/` holds.
pub enum DataNode {
    SourcePathDir { path: Seq<char> },
    TorrentRoot {
        torrent_id: i64,
        source_path: Seq<char>,
        name: Seq<char>,
        filename: Seq<char>,
    },
    TorrentDir { torrent_id: i64, dir_id: i64, name: Seq<char> },
    TorrentFile { torrent_id: i64, file_id: i64, name: Seq<char>, size: i64 },
}

impl View for DataInode {
    type V = DataNode;

    open spec fn view(&self) -> DataNode {
        match *self {
            DataInode::SourcePathDir { path } => DataNode::SourcePathDir { path: path@ },
            DataInode::TorrentRoot { torrent_id, source_path, name, filename } =>
                DataNode::TorrentRoot {
                    torrent_id,
                    source_path: source_path@,
                    name: name@,
                    filename: filename@,
                },
            DataInode::TorrentDir { torrent_id, dir_id, name } => DataNode::TorrentDir {
                torrent_id,
                dir_id,
                name: name@,
            },
            DataInode::TorrentFile { torrent_id, file_id, name, size } => DataNode::TorrentFile {
                torrent_id,
                file_id,
                name: name@,
                size,
            },
        }
    }
}

impl Clone for DataInode {
    fn clone(&self) -> (r: Self)
        ensures
            r@ == self@,
    {
        match self {
            DataInode::SourcePathDir { path } => DataInode::SourcePathDir { path: path.clone() },
            DataInode::TorrentRoot { torrent_id, source_path, name, filename } =>
                DataInode::TorrentRoot {
                    torrent_id: *torrent_id,
                    source_path: source_path.clone(),
                    name: name.clone(),
                    filename: filename.clone(),
                },
            DataInode::TorrentDir { torrent_id, dir_id, name } => DataInode::TorrentDir {
                torrent_id: *torrent_id,
                dir_id: *dir_id,
                name: name.clone(),
            },
            DataInode::TorrentFile { torrent_id, file_id, name, size } => DataInode::TorrentFile {
                torrent_id: *torrent_id,
                file_id: *file_id,
                name: name.clone(),
                size: *size,
            },
        }
    }
}

/// The table of entries as a map of what they hold.
pub open spec fn nodes_of(m: Map<u64, InodeData>) -> Map<u64, Node> {
    Map::new(|k: u64| m.contains_key(k), |k: u64| m[k]@)
}

/// The table of `data/` entries as a map of what they hold.
pub open spec fn data_nodes_of(m: Map<u64, DataInode>) -> Map<u64, DataNode> {
    Map::new(|k: u64| m.contains_key(k), |k: u64| m[k]@)
}

/// The keys of a table, in some order.
pub(crate) fn keys_of<V>(m: &HashMap<u64, V>) -> (r: Vec<u64>)
    ensures
        r@.no_duplicates(),
        r@.to_set() == m@.dom(),
        forall|k: u64| #[trigger] m@.contains_key(k) <==> r@.contains(k),
{
    let mut r: Vec<u64> = Vec::new();
    for k in it: m.keys()
        invariant
            it.seq() == vstd::std_specs::iter::IteratorSpec::remaining(
                &vstd::std_specs::hash::spec_keys_iter(m),
            ),
            r@ == it.seq().unref().take(it.index() as int),
    {
        r.push(*k);
        proof {
            assert(r@ =~= it.seq().unref().take(it.index() as int + 1));
        }
    }
    proof {
        let all = vstd::std_specs::iter::IteratorSpec::remaining(
            &vstd::std_specs::hash::spec_keys_iter(m),
        );
        assert(r@ =~= all.unref());
        assert forall|i: int, j: int| 0 <= i < j < r@.len() implies r@[i] != r@[j] by {
            assert(*all[i] == r@[i] && *all[j] == r@[j]);
            assert(all[i] != all[j]);
        }
        assert forall|k: u64| #[trigger] m@.contains_key(k) <==> r@.contains(k) by {
            assert(r@.to_set().contains(k) <==> m@.dom().contains(k));
        }
    }
    r
}

/// Whether a walk towards the root stops at `ino`: at the root, above it, or where there is no
/// entry.
pub open spec fn walk_ends(nodes: Map<u64, Node>, ino: u64) -> bool {
    ino == ROOT_INO || ino == 0 || !nodes.contains_key(ino)
}

/// A walk from `ino` towards the root ends within `n` steps.
pub open spec fn reaches_end(nodes: Map<u64, Node>, ino: u64, n: nat) -> bool
    decreases n,
{
    walk_ends(nodes, ino) || (n > 0 && reaches_end(nodes, nodes[ino].parent(), (n - 1) as nat))
}

/// A walk from `ino` towards the root ends.
pub open spec fn grounded(nodes: Map<u64, Node>, ino: u64) -> bool {
    exists|n: nat| #[trigger] reaches_end(nodes, ino, n)
}

/// Every walk towards the root ends: no entry is beneath itself.
pub open spec fn acyclic(nodes: Map<u64, Node>) -> bool {
    forall|ino: u64| #[trigger] grounded(nodes, ino)
}

/// How many steps a walk from `ino` towards the root may take.
pub open spec fn height(nodes: Map<u64, Node>, ino: u64) -> nat {
    choose|n: nat| reaches_end(nodes, ino, n)
}

/// The names on the way from the root to `ino`, seen from `n` steps below; a directory without
/// a name adds none.
pub open spec fn names_within(nodes: Map<u64, Node>, ino: u64, n: nat) -> Seq<Seq<char>>
    decreases n,
{
    if walk_ends(nodes, ino) || n == 0 {
        Seq::empty()
    } else {
        let above = names_within(nodes, nodes[ino].parent(), (n - 1) as nat);
        if nodes[ino] is Directory && nodes[ino].name().len() == 0 {
            above
        } else {
            above.push(nodes[ino].name())
        }
    }
}

/// The names on the way from the root to `ino`.
pub open spec fn path_names(nodes: Map<u64, Node>, ino: u64) -> Seq<Seq<char>> {
    names_within(nodes, ino, height(nodes, ino))
}

/// The path of `ino` from the root, without a leading slash.
pub open spec fn full_path(nodes: Map<u64, Node>, ino: u64) -> Seq<char> {
    text::join(path_names(nodes, ino), seq!['/'])
}

/// A walk of at most `n` steps from `ino` towards the root meets `target`.
pub open spec fn meets_within(nodes: Map<u64, Node>, ino: u64, target: u64, n: nat) -> bool
    decreases n,
{
    ino == target || (!walk_ends(nodes, ino) && n > 0 && meets_within(
        nodes,
        nodes[ino].parent(),
        target,
        (n - 1) as nat,
    ))
}

/// `ino` is `target` or stands somewhere beneath it.
pub open spec fn beneath(nodes: Map<u64, Node>, ino: u64, target: u64) -> bool {
    meets_within(nodes, ino, target, height(nodes, ino))
}

/// The path of a directory relative to `metadata/`.
pub open spec fn source_path(nodes: Map<u64, Node>, ino: u64) -> Seq<char> {
    if ino == METADATA_INO {
        Seq::empty()
    } else {
        match text::without_prefix(full_path(nodes, ino), "metadata/"@) {
            Some(rest) => rest,
            None => full_path(nodes, ino),
        }
    }
}

/// `ino` is an entry called `name` directly in `parent`.
pub open spec fn is_child(nodes: Map<u64, Node>, ino: u64, parent: u64, name: Seq<char>) -> bool {
    nodes.contains_key(ino) && nodes[ino].parent() == parent && nodes[ino].name() == name
}

/// `found` is an entry whose path from the root is `path`, where there is one.
pub open spec fn found_at(nodes: Map<u64, Node>, path: Seq<char>, found: Option<u64>) -> bool {
    match found {
        Some(ino) => nodes.contains_key(ino) && full_path(nodes, ino) == path,
        None => forall|ino: u64| #[trigger] nodes.contains_key(ino) ==> full_path(nodes, ino) != path,
    }
}

/// No two entries of one directory have the same name.
pub open spec fn unique_names(nodes: Map<u64, Node>) -> bool {
    forall|a: u64, b: u64|
        #![trigger nodes.contains_key(a), nodes.contains_key(b)]
        nodes.contains_key(a) && nodes.contains_key(b) && nodes[a].parent() == nodes[b].parent()
            && nodes[a].name() == nodes[b].name() ==> a == b
}

/// Every entry but the root stands in a directory that is there, under a name that no other entry
/// of the directory has, that is not empty and that holds no slash.
pub open spec fn proper(nodes: Map<u64, Node>) -> bool {
    &&& unique_names(nodes)
    &&& !nodes.contains_key(0)
    &&& forall|ino: u64| #[trigger]
        nodes.contains_key(ino) && ino != ROOT_INO ==> {
            &&& nodes.contains_key(nodes[ino].parent())
            &&& nodes[ino].name().len() > 0
            &&& !nodes[ino].name().contains('/')
        }
}

/// The four entries that every tree holds.
pub open spec fn has_fixed_entries(nodes: Map<u64, Node>) -> bool {
    &&& nodes.contains_key(ROOT_INO)
    &&& nodes[ROOT_INO] == (Node::Directory { parent: 0, name: Seq::empty() })
    &&& nodes.contains_key(METADATA_INO)
    &&& nodes[METADATA_INO] == (Node::Directory { parent: ROOT_INO, name: "metadata"@ })
    &&& nodes.contains_key(DATA_INO)
    &&& nodes[DATA_INO] == (Node::Directory { parent: ROOT_INO, name: "data"@ })
    &&& nodes.contains_key(STATS_INO)
    &&& nodes[STATS_INO] == (Node::File {
        parent: ROOT_INO,
        name: ".stats"@,
        data: Seq::empty(),
    })
}

/// Every inode number in use is below `next`.
pub open spec fn inos_below(nodes: Map<u64, Node>, next: u64) -> bool {
    forall|ino: u64| #[trigger]
        nodes.contains_key(ino) ==> ino < next && nodes[ino].parent() < next
}

/// The inode tables.
pub struct InodeManager {
    pub inodes: HashMap<u64, InodeData>,
    pub data_inodes: HashMap<u64, DataInode>,
    /// The inode behind each open file handle.
    pub open_files: HashMap<u64, u64>,
    /// Seconds since the epoch.
    pub creation_time: u64,
    pub next_ino: u64,
    pub next_fh: u64,
}

impl InodeManager {
    pub open spec fn nodes(&self) -> Map<u64, Node> {
        nodes_of(self.inodes@)
    }

    pub open spec fn data_nodes(&self) -> Map<u64, DataNode> {
        data_nodes_of(self.data_inodes@)
    }

    /// The tree is one: the fixed entries are there, nothing is beneath itself, and the next
    /// inode number is fresh.
    pub open spec fn wf(&self) -> bool {
        &&& has_fixed_entries(self.nodes())
        &&& acyclic(self.nodes())
        &&& inos_below(self.nodes(), self.next_ino)
    }
}

proof fn reaches_end_later(nodes: Map<u64, Node>, ino: u64, n: nat, m: nat)
    requires
        reaches_end(nodes, ino, n),
        n <= m,
    ensures
        reaches_end(nodes, ino, m),
    decreases n,
{
    if !walk_ends(nodes, ino) {
        reaches_end_later(nodes, nodes[ino].parent(), (n - 1) as nat, (m - 1) as nat);
    }
}

/// However far a walk may go beyond its end, it sees the same names and meets the same entries.
proof fn walks_agree(nodes: Map<u64, Node>, ino: u64, target: u64, n: nat, m: nat)
    requires
        reaches_end(nodes, ino, n),
        reaches_end(nodes, ino, m),
    ensures
        names_within(nodes, ino, n) == names_within(nodes, ino, m),
        meets_within(nodes, ino, target, n) == meets_within(nodes, ino, target, m),
    decreases n,
{
    if !walk_ends(nodes, ino) {
        walks_agree(nodes, nodes[ino].parent(), target, (n - 1) as nat, (m - 1) as nat);
    }
}

/// The names seen from `ino` are those seen from its parent and its own.
pub proof fn path_names_unfold(nodes: Map<u64, Node>, ino: u64)
    requires
        acyclic(nodes),
    ensures
        reaches_end(nodes, ino, height(nodes, ino)),
        walk_ends(nodes, ino) ==> path_names(nodes, ino) == Seq::<Seq<char>>::empty(),
        !walk_ends(nodes, ino) ==> path_names(nodes, ino) == (if nodes[ino] is Directory
            && nodes[ino].name().len() == 0 {
            path_names(nodes, nodes[ino].parent())
        } else {
            path_names(nodes, nodes[ino].parent()).push(nodes[ino].name())
        }),
{
    let n = height(nodes, ino);
    assert(grounded(nodes, ino));
    assert(reaches_end(nodes, ino, n));
    if !walk_ends(nodes, ino) {
        let p = nodes[ino].parent();
        assert(grounded(nodes, p));
        assert(reaches_end(nodes, p, height(nodes, p)));
        walks_agree(nodes, p, ROOT_INO, (n - 1) as nat, height(nodes, p));
    }
}

/// An entry is beneath what its parent is beneath, and beneath itself.
pub proof fn beneath_unfold(nodes: Map<u64, Node>, ino: u64, target: u64)
    requires
        acyclic(nodes),
    ensures
        reaches_end(nodes, ino, height(nodes, ino)),
        beneath(nodes, ino, target) == (ino == target || (!walk_ends(nodes, ino) && beneath(
            nodes,
            nodes[ino].parent(),
            target,
        ))),
{
    let n = height(nodes, ino);
    assert(grounded(nodes, ino));
    assert(reaches_end(nodes, ino, n));
    if !walk_ends(nodes, ino) {
        let p = nodes[ino].parent();
        assert(grounded(nodes, p));
        assert(reaches_end(nodes, p, height(nodes, p)));
        walks_agree(nodes, p, target, (n - 1) as nat, height(nodes, p));
    }
}

impl InodeManager {
    pub fn get_full_path(&self, ino: u64) -> (r: String)
        requires
            self.wf(),
        ensures
            r@ == full_path(self.nodes(), ino),
    {
        let ghost nodes = self.nodes();
        let mut reversed: Vec<String> = Vec::new();
        let mut current: u64 = ino;
        let ghost mut left = height(nodes, ino);
        proof {
            path_names_unfold(nodes, ino);
        }
        while current != ROOT_INO && current != 0
            invariant
                nodes == self.nodes(),
                acyclic(nodes),
                reaches_end(nodes, current, left),
                path_names(nodes, ino) == path_names(nodes, current) + text::views(
                    reversed@,
                ).reverse(),
            ensures
                acyclic(nodes),
                walk_ends(nodes, current),
                path_names(nodes, ino) == path_names(nodes, current) + text::views(
                    reversed@,
                ).reverse(),
            decreases left,
        {
            proof {
                path_names_unfold(nodes, current);
            }
            match self.inodes.get(&current) {
                Some(data) => {
                    proof {
                        assert(nodes[current] == data@);
                    }
                    let ghost before = text::views(reversed@).reverse();
                    let ghost above = path_names(nodes, nodes[current].parent());
                    match data {
                        InodeData::Directory { parent, name } => {
                            if !name.as_str().is_empty() {
                                reversed.push(name.clone());
                                proof {
                                    assert(text::views(reversed@).reverse() =~= seq![name@]
                                        + before);
                                    assert(above.push(name@) + before =~= above + (seq![name@]
                                        + before));
                                }
                            }
                            current = *parent;
                        },
                        InodeData::File { parent, name, .. } => {
                            reversed.push(name.clone());
                            proof {
                                assert(text::views(reversed@).reverse() =~= seq![name@] + before);
                                assert(above.push(name@) + before =~= above + (seq![name@]
                                    + before));
                            }
                            current = *parent;
                        },
                    }
                    proof {
                        left = (left - 1) as nat;
                    }
                },
                None => {
                    break;
                },
            }
        }
        proof {
            path_names_unfold(nodes, current);
            assert(path_names(nodes, ino) =~= text::views(reversed@).reverse());
        }
        let mut parts: Vec<String> = Vec::new();
        let mut i: usize = reversed.len();
        while i > 0
            invariant
                i <= reversed@.len(),
                text::views(parts@) == text::views(reversed@).reverse().take(reversed@.len() - i),
            decreases i,
        {
            i = i - 1;
            let ghost before = text::views(parts@);
            let part = reversed[i].clone();
            parts.push(part);
            proof {
                let all = text::views(reversed@).reverse();
                assert(text::views(parts@) =~= before.push(part@));
                assert(all[reversed@.len() - i - 1] == reversed@[i as int]@);
                assert(all.take(reversed@.len() - i) =~= all.take(reversed@.len() - i - 1).push(
                    part@,
                ));
            }
        }
        proof {
            assert(text::views(parts@) =~= text::views(reversed@).reverse());
            reveal_strlit("/");
            assert("/"@ =~= seq!['/']);
        }
        text::join_all(&parts, "/")
    }

    pub fn is_metadata_child(&self, ino: u64) -> (r: bool)
        requires
            self.wf(),
        ensures
            r == beneath(self.nodes(), ino, METADATA_INO),
    {
        let ghost nodes = self.nodes();
        let mut current: u64 = ino;
        let ghost mut left = height(nodes, ino);
        proof {
            beneath_unfold(nodes, ino, METADATA_INO);
        }
        while current != ROOT_INO && current != 0
            invariant
                nodes == self.nodes(),
                acyclic(nodes),
                reaches_end(nodes, current, left),
                beneath(nodes, ino, METADATA_INO) == beneath(nodes, current, METADATA_INO),
            ensures
                acyclic(nodes),
                walk_ends(nodes, current),
                current != METADATA_INO,
                beneath(nodes, ino, METADATA_INO) == beneath(nodes, current, METADATA_INO),
            decreases left,
        {
            proof {
                beneath_unfold(nodes, current, METADATA_INO);
            }
            if current == METADATA_INO {
                return true;
            }
            match self.inodes.get(&current) {
                Some(data) => {
                    proof {
                        assert(nodes[current] == data@);
                    }
                    match data {
                        InodeData::Directory { parent, .. } => {
                            current = *parent;
                        },
                        InodeData::File { parent, .. } => {
                            current = *parent;
                        },
                    }
                    proof {
                        left = (left - 1) as nat;
                    }
                },
                None => {
                    break;
                },
            }
        }
        proof {
            beneath_unfold(nodes, current, METADATA_INO);
        }
        false
    }

    /// An entry called `name` directly in `parent`: the one where there is one only, some one
    /// of them where there are more.
    pub fn find_child_by_name(&self, parent: u64, name: &str) -> (r: Option<u64>)
        ensures
            match r {
                Some(ino) => is_child(self.nodes(), ino, parent, name@),
                None => forall|ino: u64| !#[trigger] is_child(self.nodes(), ino, parent, name@),
            },
    {
        let keys = keys_of(&self.inodes);
        let mut i: usize = 0;
        while i < keys.len()
            invariant
                i <= keys@.len(),
                forall|k: u64| #[trigger] self.inodes@.contains_key(k) <==> keys@.contains(k),
                forall|j: int| 0 <= j < i ==> !is_child(
                    self.nodes(),
                    #[trigger] keys@[j],
                    parent,
                    name@,
                ),
            decreases keys@.len() - i,
        {
            let ino: u64 = keys[i];
            proof {
                assert(keys@.contains(ino));
                assert(self.inodes@.contains_key(ino));
            }
            match self.inodes.get(&ino) {
                Some(InodeData::Directory { parent: p, name: n }) => {
                    if *p == parent && text::same(n.as_str(), name) {
                        return Some(ino);
                    }
                },
                Some(InodeData::File { parent: p, name: n, .. }) => {
                    if *p == parent && text::same(n.as_str(), name) {
                        return Some(ino);
                    }
                },
                None => {},
            }
            i = i + 1;
        }
        proof {
            assert forall|ino: u64| !#[trigger] is_child(self.nodes(), ino, parent, name@) by {
                if self.inodes@.contains_key(ino) {
                    assert(keys@.contains(ino));
                }
            }
        }
        None
    }

    /// An entry whose path from the root is `target_path`.
    pub fn find_ino_by_full_path(&self, target_path: &str) -> (r: Option<u64>)
        requires
            self.wf(),
        ensures
            found_at(self.nodes(), target_path@, r),
    {
        let keys = keys_of(&self.inodes);
        let mut i: usize = 0;
        while i < keys.len()
            invariant
                i <= keys@.len(),
                self.wf(),
                forall|k: u64| #[trigger] self.inodes@.contains_key(k) <==> keys@.contains(k),
                forall|j: int|
                    0 <= j < i ==> full_path(self.nodes(), #[trigger] keys@[j]) != target_path@,
            decreases keys@.len() - i,
        {
            let path = self.get_full_path(keys[i]);
            if text::same(path.as_str(), target_path) {
                proof {
                    assert(keys@.contains(keys@[i as int]));
                    assert(self.inodes@.contains_key(keys@[i as int]));
                }
                return Some(keys[i]);
            }
            i = i + 1;
        }
        proof {
            assert forall|ino: u64| #[trigger] self.nodes().contains_key(ino) implies full_path(
                self.nodes(),
                ino,
            ) != target_path@ by {
                assert(self.inodes@.contains_key(ino));
                assert(keys@.contains(ino));
            }
        }
        None
    }

    /// The path of a directory relative to `metadata/`.
    pub fn extract_source_path(&self, parent: u64) -> (r: String)
        requires
            self.wf(),
        ensures
            r@ == source_path(self.nodes(), parent),
    {
        if parent == METADATA_INO {
            return String::new();
        }
        let path = self.get_full_path(parent);
        match text::strip_prefix(path.as_str(), "metadata/") {
            Some(rest) => rest,
            None => path,
        }
    }
}

proof fn reaches_end_with_fresh(
    nodes: Map<u64, Node>,
    fresh: u64,
    node: Node,
    ino: u64,
    target: u64,
    n: nat,
)
    requires
        inos_below(nodes, fresh),
        ino != fresh,
    ensures
        reaches_end(nodes.insert(fresh, node), ino, n) == reaches_end(nodes, ino, n),
        names_within(nodes.insert(fresh, node), ino, n) == names_within(nodes, ino, n),
        meets_within(nodes.insert(fresh, node), ino, target, n) == meets_within(
            nodes,
            ino,
            target,
            n,
        ),
    decreases n,
{
    if !walk_ends(nodes, ino) && n > 0 {
        reaches_end_with_fresh(
            nodes,
            fresh,
            node,
            nodes[ino].parent(),
            target,
            (n - 1) as nat,
        );
    }
}

/// Adding an entry under a fresh inode number keeps the tree one, and every other entry where
/// it was.
pub proof fn fresh_entry_keeps_tree(nodes: Map<u64, Node>, fresh: u64, node: Node)
    requires
        acyclic(nodes),
        inos_below(nodes, fresh),
        node.parent() < fresh,
    ensures
        acyclic(nodes.insert(fresh, node)),
        fresh < u64::MAX ==> inos_below(nodes.insert(fresh, node), (fresh + 1) as u64),
        forall|ino: u64|
            ino != fresh ==> #[trigger] path_names(nodes.insert(fresh, node), ino) == path_names(
                nodes,
                ino,
            ),
        forall|ino: u64, target: u64|
            ino != fresh ==> #[trigger] beneath(nodes.insert(fresh, node), ino, target) == beneath(
                nodes,
                ino,
                target,
            ),
{
    let after = nodes.insert(fresh, node);
    assert forall|ino: u64| #[trigger] grounded(after, ino) by {
        if ino != fresh {
            assert(grounded(nodes, ino));
            let n = height(nodes, ino);
            reaches_end_with_fresh(nodes, fresh, node, ino, ROOT_INO, n);
        } else {
            assert(grounded(nodes, node.parent()));
            let n = height(nodes, node.parent());
            reaches_end_with_fresh(nodes, fresh, node, node.parent(), ROOT_INO, n);
            assert(reaches_end(after, fresh, (n + 1) as nat));
        }
    }
    assert forall|ino: u64| ino != fresh implies #[trigger] path_names(after, ino) == path_names(
        nodes,
        ino,
    ) by {
        assert(grounded(nodes, ino));
        assert(grounded(after, ino));
        let n = height(nodes, ino);
        reaches_end_with_fresh(nodes, fresh, node, ino, ROOT_INO, n);
        walks_agree(after, ino, ROOT_INO, n, height(after, ino));
    }
    assert forall|ino: u64, target: u64| ino != fresh implies #[trigger] beneath(
        after,
        ino,
        target,
    ) == beneath(nodes, ino, target) by {
        assert(grounded(nodes, ino));
        assert(grounded(after, ino));
        let n = height(nodes, ino);
        reaches_end_with_fresh(nodes, fresh, node, ino, target, n);
        walks_agree(after, ino, target, n, height(after, ino));
    }
}

proof fn reaches_end_without(nodes: Map<u64, Node>, gone: u64, ino: u64, n: nat)
    requires
        reaches_end(nodes, ino, n),
    ensures
        reaches_end(nodes.remove(gone), ino, n),
    decreases n,
{
    if !walk_ends(nodes.remove(gone), ino) {
        reaches_end_without(nodes, gone, nodes[ino].parent(), (n - 1) as nat);
    }
}

/// Taking an entry away keeps the tree one.
pub proof fn removal_keeps_tree(nodes: Map<u64, Node>, gone: u64)
    requires
        acyclic(nodes),
    ensures
        acyclic(nodes.remove(gone)),
{
    assert forall|ino: u64| #[trigger] grounded(nodes.remove(gone), ino) by {
        assert(grounded(nodes, ino));
        reaches_end_without(nodes, gone, ino, height(nodes, ino));
    }
}

proof fn reaches_end_off_path(nodes: Map<u64, Node>, moved: u64, node: Node, ino: u64, n: nat)
    requires
        reaches_end(nodes, ino, n),
        !meets_within(nodes, ino, moved, n),
    ensures
        reaches_end(nodes.insert(moved, node), ino, n),
    decreases n,
{
    if !walk_ends(nodes, ino) {
        reaches_end_off_path(nodes, moved, node, nodes[ino].parent(), (n - 1) as nat);
    }
}

proof fn names_off_path(nodes: Map<u64, Node>, moved: u64, node: Node, ino: u64, n: nat)
    requires
        reaches_end(nodes, ino, n),
        !meets_within(nodes, ino, moved, n),
    ensures
        reaches_end(nodes.insert(moved, node), ino, n),
        names_within(nodes.insert(moved, node), ino, n) == names_within(nodes, ino, n),
    decreases n,
{
    if !walk_ends(nodes, ino) {
        names_off_path(nodes, moved, node, nodes[ino].parent(), (n - 1) as nat);
    }
}

proof fn meets_off_path(
    nodes: Map<u64, Node>,
    moved: u64,
    node: Node,
    ino: u64,
    target: u64,
    n: nat,
)
    requires
        !meets_within(nodes, ino, moved, n),
    ensures
        meets_within(nodes.insert(moved, node), ino, target, n) == meets_within(
            nodes,
            ino,
            target,
            n,
        ),
    decreases n,
{
    if ino != target && !walk_ends(nodes, ino) && n > 0 {
        meets_off_path(nodes, moved, node, nodes[ino].parent(), target, (n - 1) as nat);
    }
}

/// Changing an entry leaves the path of everything that is not beneath it, and what that is
/// beneath.
pub proof fn path_stays_off_change(
    nodes: Map<u64, Node>,
    moved: u64,
    node: Node,
    ino: u64,
    target: u64,
)
    requires
        acyclic(nodes),
        acyclic(nodes.insert(moved, node)),
        !beneath(nodes, ino, moved),
    ensures
        path_names(nodes.insert(moved, node), ino) == path_names(nodes, ino),
        beneath(nodes.insert(moved, node), ino, target) == beneath(nodes, ino, target),
{
    let after = nodes.insert(moved, node);
    assert(grounded(nodes, ino));
    assert(grounded(after, ino));
    let n = height(nodes, ino);
    names_off_path(nodes, moved, node, ino, n);
    meets_off_path(nodes, moved, node, ino, target, n);
    walks_agree(after, ino, target, n, height(after, ino));
}

proof fn grounded_after_move(nodes: Map<u64, Node>, moved: u64, node: Node, ino: u64, n: nat)
    requires
        reaches_end(nodes, ino, n),
        grounded(nodes.insert(moved, node), moved),
    ensures
        grounded(nodes.insert(moved, node), ino),
    decreases n,
{
    let after = nodes.insert(moved, node);
    if ino != moved {
        if walk_ends(nodes, ino) {
            assert(reaches_end(after, ino, 0));
        } else {
            let p = nodes[ino].parent();
            grounded_after_move(nodes, moved, node, p, (n - 1) as nat);
            let k = choose|k: nat| reaches_end(after, p, k);
            assert(reaches_end(after, ino, (k + 1) as nat));
        }
    }
}

/// Giving an entry another parent keeps the tree one, where the new parent is not beneath it.
pub proof fn move_keeps_tree(nodes: Map<u64, Node>, moved: u64, node: Node)
    requires
        acyclic(nodes),
        !beneath(nodes, node.parent(), moved),
    ensures
        acyclic(nodes.insert(moved, node)),
{
    let after = nodes.insert(moved, node);
    let p = node.parent();
    assert(grounded(nodes, p));
    let n = height(nodes, p);
    reaches_end_off_path(nodes, moved, node, p, n);
    assert(reaches_end(after, moved, (n + 1) as nat));
    assert forall|ino: u64| #[trigger] grounded(after, ino) by {
        assert(grounded(nodes, ino));
        grounded_after_move(nodes, moved, node, ino, height(nodes, ino));
    }
}

/// Changing an entry without changing its parent keeps the tree one.
pub proof fn update_keeps_tree(nodes: Map<u64, Node>, ino: u64, node: Node)
    requires
        acyclic(nodes),
        nodes.contains_key(ino),
        node.parent() == nodes[ino].parent(),
    ensures
        acyclic(nodes.insert(ino, node)),
{
    assert(nodes.insert(ino, node).dom() =~= nodes.dom());
    assert forall|k: u64| #[trigger] grounded(nodes.insert(ino, node), k) by {
        assert(grounded(nodes, k));
        same_shape_same_walk(nodes, nodes.insert(ino, node), k, height(nodes, k));
    }
}

proof fn same_shape_same_walk(a: Map<u64, Node>, b: Map<u64, Node>, ino: u64, n: nat)
    requires
        reaches_end(a, ino, n),
        a.dom() == b.dom(),
        forall|k: u64| #[trigger] a.contains_key(k) ==> a[k].parent() == b[k].parent(),
    ensures
        reaches_end(b, ino, n),
    decreases n,
{
    if !walk_ends(a, ino) {
        same_shape_same_walk(a, b, a[ino].parent(), (n - 1) as nat);
    }
}

/// A 64-bit integer read as an unsigned one.
pub open spec fn as_unsigned(i: i64) -> int {
    if i >= 0 {
        i as int
    } else {
        i + 0x1_0000_0000_0000_0000
    }
}

/// The inode number for the row `id` in the range that starts at `base` can be written.
pub open spec fn id_fits(base: u64, id: i64) -> bool {
    base + as_unsigned(id) <= u64::MAX
}

/// Whether the inode number for the row `id` can be written.
pub fn row_id_fits(base: u64, id: i64) -> (r: bool)
    ensures
        r == id_fits(base, id),
{
    assert(id < 0 ==> (id as u64) == id + 0x1_0000_0000_0000_0000) by (bit_vector);
    (id as u64) <= u64::MAX - base
}

fn ino_for_row(base: u64, id: i64) -> (r: u64)
    requires
        id_fits(base, id),
    ensures
        r == base + as_unsigned(id),
{
    assert(id < 0 ==> (id as u64) == id + 0x1_0000_0000_0000_0000) by (bit_vector);
    base + (id as u64)
}

/// What a hasher holds after a text was hashed into it.
pub uninterp spec fn hashed_text(before: Seq<Seq<u8>>, s: Seq<char>) -> Seq<Seq<u8>>;

/// `Hash::hash` of `str`: feeds the text to the hasher, whose new state depends on its old state
/// and the text alone.
#[verifier::external_body]
fn hash_text(s: &str, hasher: &mut DefaultHasher)
    ensures
        final(hasher)@ == hashed_text(old(hasher)@, s@),
{
    std::hash::Hash::hash(s, hasher);
}

/// The hash of a path: that of a new hasher which was fed the path.
pub open spec fn path_hash(path: Seq<char>) -> u64 {
    DefaultHasher::spec_finish(hashed_text(Seq::empty(), path))
}

fn hash_path(path: &str) -> (r: u64)
    ensures
        r == path_hash(path@),
{
    let mut hasher = DefaultHasher::new();
    hash_text(path, &mut hasher);
    hasher.finish()
}

/// The inode number of a source path directory whose path has the given hash.
pub open spec fn ino_of_hash(hash: u64) -> u64 {
    (SOURCE_PATH_DIR_INO_BASE + hash % SOURCE_PATH_DIR_INO_COUNT) as u64
}

/// The inode number of the source path directory `path`.
pub open spec fn source_path_dir_ino(path: Seq<char>) -> u64 {
    ino_of_hash(path_hash(path))
}

impl InodeManager {
    pub fn new(creation_time: u64) -> (r: Self)
        ensures
            r.wf(),
            proper(r.nodes()),
            r.nodes().dom() == set![ROOT_INO, METADATA_INO, DATA_INO, STATS_INO],
            r.data_nodes() == Map::<u64, DataNode>::empty(),
            r.open_files@ == Map::<u64, u64>::empty(),
            r.creation_time == creation_time,
            r.next_ino == FIRST_FREE_INO,
            r.next_fh == 1,
    {
        let mut inodes: HashMap<u64, InodeData> = HashMap::new();
        inodes.insert(ROOT_INO, InodeData::Directory { parent: 0, name: String::new() });
        inodes.insert(
            METADATA_INO,
            InodeData::Directory { parent: ROOT_INO, name: "metadata".to_owned() },
        );
        inodes.insert(DATA_INO, InodeData::Directory { parent: ROOT_INO, name: "data".to_owned() });
        inodes.insert(
            STATS_INO,
            InodeData::File { parent: ROOT_INO, name: ".stats".to_owned(), data: Vec::new() },
        );
        let r = InodeManager {
            inodes,
            data_inodes: HashMap::new(),
            open_files: HashMap::new(),
            creation_time,
            next_ino: FIRST_FREE_INO,
            next_fh: 1,
        };
        proof {
            let nodes = r.nodes();
            reveal_strlit("metadata");
            reveal_strlit("data");
            reveal_strlit(".stats");
            assert(nodes.dom() =~= set![ROOT_INO, METADATA_INO, DATA_INO, STATS_INO]);
            assert(r.data_nodes() =~= Map::<u64, DataNode>::empty());
            assert forall|ino: u64| #[trigger] grounded(nodes, ino) by {
                assert(reaches_end(nodes, ROOT_INO, 0));
                assert(reaches_end(nodes, ino, 1));
            }
            assert("metadata"@.len() == 8 && "data"@.len() == 4 && ".stats"@.len() == 6);
        }
        r
    }

    pub fn make_torrent_root_ino(torrent_id: i64) -> (r: u64)
        requires
            id_fits(DATA_TORRENT_INO_BASE, torrent_id),
        ensures
            r == DATA_TORRENT_INO_BASE + as_unsigned(torrent_id),
    {
        ino_for_row(DATA_TORRENT_INO_BASE, torrent_id)
    }

    pub fn make_torrent_dir_ino(dir_id: i64) -> (r: u64)
        requires
            id_fits(DATA_DIR_INO_BASE, dir_id),
        ensures
            r == DATA_DIR_INO_BASE + as_unsigned(dir_id),
    {
        ino_for_row(DATA_DIR_INO_BASE, dir_id)
    }

    pub fn make_torrent_file_ino(file_id: i64) -> (r: u64)
        requires
            id_fits(DATA_FILE_INO_BASE, file_id),
        ensures
            r == DATA_FILE_INO_BASE + as_unsigned(file_id),
    {
        ino_for_row(DATA_FILE_INO_BASE, file_id)
    }

    pub fn make_source_path_dir_ino(path: &str) -> (r: u64)
        ensures
            r == source_path_dir_ino(path@),
    {
        Self::source_path_dir_ino_for_hash(hash_path(path))
    }

    /// Places a hash in the range of the source path directories.
    pub fn source_path_dir_ino_for_hash(hash: u64) -> (r: u64)
        ensures
            r == ino_of_hash(hash),
            SOURCE_PATH_DIR_INO_BASE <= r < SOURCE_PATH_DIR_INO_BASE + SOURCE_PATH_DIR_INO_COUNT,
            r == SOURCE_PATH_DIR_INO_BASE + hash % SOURCE_PATH_DIR_INO_COUNT,
    {
        SOURCE_PATH_DIR_INO_BASE + (hash % SOURCE_PATH_DIR_INO_COUNT)
    }

    pub open spec fn data_ino(ino: u64) -> bool {
        ino >= DATA_TORRENT_INO_BASE
    }

    pub fn is_data_ino(ino: u64) -> (r: bool)
        ensures
            r == Self::data_ino(ino),
    {
        ino >= DATA_TORRENT_INO_BASE
    }

    /// The inode numbers of the read-only `data/` subtree, its root included.
    pub open spec fn in_data_namespace(ino: u64) -> bool {
        ino == DATA_INO || Self::data_ino(ino)
    }

    pub fn is_data_namespace(ino: u64) -> (r: bool)
        ensures
            r == Self::in_data_namespace(ino),
    {
        ino == DATA_INO || Self::is_data_ino(ino)
    }

    /// The inode number of the `.stats` file in a directory.
    pub fn make_stats_ino(dir_ino: u64) -> (r: u64)
        requires
            dir_ino + STATS_INO_OFFSET <= u64::MAX,
        ensures
            r == dir_ino + STATS_INO_OFFSET,
    {
        dir_ino + STATS_INO_OFFSET
    }

    pub open spec fn stats_ino(ino: u64) -> bool {
        STATS_INO_OFFSET <= ino < STATS_INO_OFFSET + 10_000_000
    }

    /// Whether an inode is the `.stats` file of a directory.
    pub fn is_stats_ino(ino: u64) -> (r: bool)
        ensures
            r == Self::stats_ino(ino),
    {
        ino >= STATS_INO_OFFSET && ino < STATS_INO_OFFSET + 10_000_000
    }

    /// The directory that a `.stats` file belongs to.
    pub open spec fn stats_owner(ino: u64) -> Option<u64> {
        if Self::stats_ino(ino) {
            Some((ino - STATS_INO_OFFSET) as u64)
        } else {
            None
        }
    }

    pub fn stats_ino_to_dir_ino(ino: u64) -> (r: Option<u64>)
        ensures
            r == Self::stats_owner(ino),
    {
        if Self::is_stats_ino(ino) {
            Some(ino - STATS_INO_OFFSET)
        } else {
            None
        }
    }
}

/// The directory of the `.stats` file of a directory is that directory, for every directory
/// whose inode number is below ten million.
pub proof fn stats_ino_round_trip(dir_ino: u64)
    requires
        dir_ino < 10_000_000,
    ensures
        InodeManager::stats_owner((dir_ino + STATS_INO_OFFSET) as u64) == Some(dir_ino),
{
}

/// The fixed entries other than `data/` lie outside of the `data/` namespace, and every `.stats`
/// file of a directory lies inside.
pub proof fn data_namespace_bounds(ino: u64)
    ensures
        !InodeManager::in_data_namespace(ROOT_INO),
        !InodeManager::in_data_namespace(METADATA_INO),
        InodeManager::in_data_namespace(DATA_INO),
        !InodeManager::in_data_namespace(STATS_INO),
        InodeManager::stats_ino(ino) ==> InodeManager::in_data_namespace(ino),
{
}

/// A row of the catalogue's table of metadata directories.
pub struct DirRow {
    pub id: i64,
    pub parent_id: Option<i64>,
    pub name: Seq<char>,
    pub path: Seq<char>,
}

pub open spec fn dir_rows(dirs: Seq<(i64, Option<i64>, String, String)>) -> Seq<DirRow> {
    Seq::new(
        dirs.len(),
        |i: int|
            DirRow { id: dirs[i].0, parent_id: dirs[i].1, name: dirs[i].2@, path: dirs[i].3@ },
    )
}

/// How many slashes a path holds.
pub open spec fn slashes(path: Seq<char>) -> nat
    decreases path.len(),
{
    if path.len() == 0 {
        0
    } else {
        slashes(path.drop_last()) + (if path.last() == '/' {
            1nat
        } else {
            0nat
        })
    }
}

/// The rows whose path holds exactly `depth` slashes, in their order.
pub open spec fn rows_at(rows: Seq<DirRow>, depth: nat) -> Seq<DirRow> {
    rows.filter(|r: DirRow| slashes(r.path) == depth)
}

/// The rows whose path holds fewer than `depth` slashes: the shallow ones first, each depth in
/// the rows' own order.
pub open spec fn rows_above(rows: Seq<DirRow>, depth: nat) -> Seq<DirRow>
    decreases depth,
{
    if depth == 0 {
        Seq::empty()
    } else {
        rows_above(rows, (depth - 1) as nat) + rows_at(rows, (depth - 1) as nat)
    }
}

/// More slashes than any path of the rows holds.
pub open spec fn deeper_than_all(rows: Seq<DirRow>, depth: nat) -> bool {
    forall|i: int| 0 <= i < rows.len() ==> slashes((#[trigger] rows[i]).path) < depth
}

/// The tree while it is filled from the catalogue: the entries, the next inode number, and the
/// inode number given to each row.
pub struct Restoring {
    pub nodes: Map<u64, Node>,
    pub next: u64,
    pub inos: Map<i64, u64>,
}

/// The tree with the directory of one more row: in the directory of its parent row where that
/// has been placed, else in `metadata/`.
pub open spec fn restore_dir(st: Restoring, row: DirRow) -> Restoring {
    let parent = match row.parent_id {
        Some(id) => if st.inos.contains_key(id) {
            st.inos[id]
        } else {
            METADATA_INO
        },
        None => METADATA_INO,
    };
    Restoring {
        nodes: st.nodes.insert(st.next, Node::Directory { parent, name: row.name }),
        next: (st.next + 1) as u64,
        inos: st.inos.insert(row.id, st.next),
    }
}

pub open spec fn restore_dirs(st: Restoring, rows: Seq<DirRow>) -> Restoring
    decreases rows.len(),
{
    if rows.len() == 0 {
        st
    } else {
        restore_dir(restore_dirs(st, rows.drop_last()), rows.last())
    }
}

/// The name of a torrent's file in `metadata/`: its file name, or its name where it has no file
/// name, with the extension added where it is missing.
pub open spec fn torrent_file_name(filename: Seq<char>, name: Seq<char>) -> Seq<char> {
    let base = if filename.len() > 0 {
        filename
    } else {
        name
    };
    if text::ends(base, ".torrent"@) {
        base
    } else {
        base + ".torrent"@
    }
}

/// `parent` is where the torrent's file belongs: the directory of its source path where there
/// is one, else `metadata/`.
pub open spec fn torrent_parent(nodes: Map<u64, Node>, t: Torrent, parent: u64) -> bool {
    if t.source_path@.len() == 0 {
        parent == METADATA_INO
    } else {
        let path = "metadata/"@ + t.source_path@;
        ||| nodes.contains_key(parent) && full_path(nodes, parent) == path
        ||| parent == METADATA_INO && forall|k: u64| #[trigger]
            nodes.contains_key(k) ==> full_path(nodes, k) != path
    }
}

/// The file of a torrent, placed in `parent`.
pub open spec fn torrent_node(t: Torrent, parent: u64) -> Node {
    Node::File {
        parent,
        name: torrent_file_name(t.filename@, t.name@),
        data: match t.torrent_data {
            Some(data) => data@,
            None => Seq::empty(),
        },
    }
}

/// The tree with the files of the first `n` torrents, each in the given parent.
pub open spec fn with_torrents(
    nodes: Map<u64, Node>,
    next: u64,
    torrents: Seq<Torrent>,
    parents: Seq<u64>,
    n: nat,
) -> Map<u64, Node>
    decreases n,
{
    if n == 0 {
        nodes
    } else {
        with_torrents(nodes, next, torrents, parents, (n - 1) as nat).insert(
            (next + n - 1) as u64,
            torrent_node(torrents[n - 1], parents[n - 1]),
        )
    }
}

/// Each of the given parents is where the torrent's file belongs, in the tree that holds the
/// files of the torrents before it.
pub open spec fn parents_fit(
    nodes: Map<u64, Node>,
    next: u64,
    torrents: Seq<Torrent>,
    parents: Seq<u64>,
) -> bool {
    parents.len() == torrents.len() && forall|i: int|
        0 <= i < torrents.len() ==> torrent_parent(
            with_torrents(nodes, next, torrents, parents, i as nat),
            torrents[i],
            #[trigger] parents[i],
        )
}

/// `after` is the tree `nodes` with the directories of all rows, the shallow ones first, and then
/// the files of all torrents, each in the given parent.
pub open spec fn restored(
    nodes: Map<u64, Node>,
    next: u64,
    rows: Seq<DirRow>,
    torrents: Seq<Torrent>,
    depth: nat,
    parents: Seq<u64>,
    after: Map<u64, Node>,
) -> bool {
    let filled = restore_dirs(
        Restoring { nodes, next, inos: Map::empty() },
        rows_above(rows, depth),
    );
    &&& deeper_than_all(rows, depth)
    &&& parents_fit(filled.nodes, filled.next, torrents, parents)
    &&& after == with_torrents(filled.nodes, filled.next, torrents, parents, torrents.len())
}

proof fn with_torrents_looks_at_first(
    nodes: Map<u64, Node>,
    next: u64,
    torrents: Seq<Torrent>,
    a: Seq<u64>,
    b: Seq<u64>,
    n: nat,
)
    requires
        n <= a.len(),
        n <= b.len(),
        forall|i: int| 0 <= i < n ==> a[i] == b[i],
    ensures
        with_torrents(nodes, next, torrents, a, n) == with_torrents(nodes, next, torrents, b, n),
    decreases n,
{
    if n > 0 {
        with_torrents_looks_at_first(nodes, next, torrents, a, b, (n - 1) as nat);
    }
}

proof fn rows_at_step(rows: Seq<DirRow>, depth: nat, i: int)
    requires
        0 <= i < rows.len(),
    ensures
        rows_at(rows.take(i + 1), depth) == (if slashes(rows[i].path) == depth {
            rows_at(rows.take(i), depth).push(rows[i])
        } else {
            rows_at(rows.take(i), depth)
        }),
{
    reveal(Seq::filter);
    assert(rows.take(i + 1).drop_last() =~= rows.take(i));
}

proof fn rows_at_grows(rows: Seq<DirRow>, depth: nat, i: int)
    requires
        0 <= i <= rows.len(),
    ensures
        rows_at(rows.take(i), depth).len() <= rows_at(rows, depth).len(),
    decreases rows.len() - i,
{
    if i < rows.len() {
        rows_at_step(rows, depth, i);
        rows_at_grows(rows, depth, i + 1);
    } else {
        assert(rows.take(i) =~= rows);
    }
}

proof fn rows_above_step(rows: Seq<DirRow>, depth: nat)
    requires
        rows.len() > 0,
    ensures
        rows_above(rows, depth).len() == rows_above(rows.drop_last(), depth).len() + (if slashes(
            rows.last().path,
        ) < depth {
            1int
        } else {
            0
        }),
    decreases depth,
{
    if depth > 0 {
        rows_above_step(rows, (depth - 1) as nat);
        rows_at_step(rows, (depth - 1) as nat, rows.len() - 1);
        assert(rows.take(rows.len() as int) =~= rows);
        assert(rows.take(rows.len() - 1) =~= rows.drop_last());
    }
}

proof fn rows_above_of_none(depth: nat)
    ensures
        rows_above(Seq::<DirRow>::empty(), depth).len() == 0,
    decreases depth,
{
    reveal(Seq::filter);
    if depth > 0 {
        rows_above_of_none((depth - 1) as nat);
    }
}

/// No row is counted twice, and none is left out where the depth exceeds all.
pub proof fn rows_all_counted(rows: Seq<DirRow>, depth: nat)
    ensures
        rows_above(rows, depth).len() <= rows.len(),
        deeper_than_all(rows, depth) ==> rows_above(rows, depth).len() == rows.len(),
    decreases rows.len(),
{
    if rows.len() == 0 {
        assert(rows =~= Seq::empty());
        rows_above_of_none(depth);
    } else {
        rows_above_step(rows, depth);
        rows_all_counted(rows.drop_last(), depth);
        if deeper_than_all(rows, depth) {
            assert(slashes(rows[rows.len() - 1].path) < depth);
            assert forall|i: int| 0 <= i < rows.drop_last().len() implies slashes(
                (#[trigger] rows.drop_last()[i]).path,
            ) < depth by {
                assert(rows.drop_last()[i] == rows[i]);
            }
        }
    }
}

proof fn rows_counted_within(rows: Seq<DirRow>, depth: nat, i: int)
    requires
        0 <= i < rows.len(),
        slashes(rows[i].path) == depth,
    ensures
        (rows_above(rows, depth) + rows_at(rows.take(i), depth)).len() < rows.len(),
{
    rows_at_step(rows, depth, i);
    rows_at_grows(rows, depth, i + 1);
    rows_all_counted(rows, depth + 1);
}

fn count_slashes(path: &str) -> (r: usize)
    ensures
        r == slashes(path@),
        r <= path@.len(),
{
    let cs = text::chars_of(path);
    let mut n: usize = 0;
    let mut i: usize = 0;
    proof {
        assert(cs@.take(0) =~= Seq::empty());
    }
    while i < cs.len()
        invariant
            i <= cs@.len(),
            n <= i,
            n == slashes(cs@.take(i as int)),
        decreases cs@.len() - i,
    {
        proof {
            assert(cs@.take(i as int + 1).drop_last() =~= cs@.take(i as int));
        }
        if cs[i] == '/' {
            n = n + 1;
        }
        i = i + 1;
    }
    proof {
        assert(cs@.take(cs@.len() as int) =~= path@);
    }
    n
}

/// The name of a torrent's file in `metadata/`.
pub fn metadata_file_name(filename: &str, name: &str) -> (r: String)
    ensures
        r@ == torrent_file_name(filename@, name@),
{
    let base = if !filename.is_empty() {
        filename
    } else {
        name
    };
    if text::ends_with(base, ".torrent") {
        base.to_owned()
    } else {
        text::concat2(base, ".torrent")
    }
}

impl InodeManager {
    pub open spec fn same_but_nodes(&self, other: &InodeManager) -> bool {
        &&& self.data_inodes == other.data_inodes
        &&& self.open_files == other.open_files
        &&& self.creation_time == other.creation_time
        &&& self.next_fh == other.next_fh
    }

    /// Adds an entry under the next inode number.
    pub(crate) fn add_node(&mut self, data: InodeData) -> (ino: u64)
        requires
            old(self).wf(),
            old(self).next_ino < u64::MAX,
            data@.parent() < old(self).next_ino,
        ensures
            final(self).wf(),
            ino == old(self).next_ino,
            final(self).next_ino == ino + 1,
            !old(self).nodes().contains_key(ino),
            final(self).nodes() == old(self).nodes().insert(ino, data@),
            final(self).same_but_nodes(old(self)),
    {
        let ino: u64 = self.next_ino;
        let ghost before = self.nodes();
        proof {
            if before.contains_key(ino) {
                assert(ino < self.next_ino);
            }
        }
        self.next_ino = ino + 1;
        let ghost node = data@;
        self.inodes.insert(ino, data);
        proof {
            assert(self.nodes() =~= before.insert(ino, node));
            fresh_entry_keeps_tree(before, ino, node);
        }
        ino
    }

    /// Fills the tree from the catalogue: the metadata directories, the shallow ones first, then
    /// the file of each torrent.
    pub fn restore_metadata_inodes(
        &mut self,
        dirs: Vec<(i64, Option<i64>, String, String)>,
        torrents: Vec<Torrent>,
    )
        requires
            old(self).wf(),
            old(self).next_ino + dirs@.len() + torrents@.len() <= u64::MAX,
        ensures
            final(self).wf(),
            final(self).same_but_nodes(old(self)),
            final(self).next_ino == old(self).next_ino + dirs@.len() + torrents@.len(),
            exists|depth: nat, parents: Seq<u64>| #[trigger]
                restored(
                    old(self).nodes(),
                    old(self).next_ino,
                    dir_rows(dirs@),
                    torrents@,
                    depth,
                    parents,
                    final(self).nodes(),
                ),
    {
        let ghost rows = dir_rows(dirs@);
        let ghost start = Restoring {
            nodes: self.nodes(),
            next: self.next_ino,
            inos: Map::empty(),
        };
        let ghost base = self.next_ino;
        let mut limit: usize = 0;
        let mut depths: Vec<usize> = Vec::new();
        let mut k: usize = 0;
        while k < dirs.len()
            invariant
                k <= dirs@.len(),
                rows == dir_rows(dirs@),
                depths@.len() == k,
                forall|i: int| 0 <= i < k ==> #[trigger] depths@[i] == slashes(rows[i].path),
                forall|i: int| 0 <= i < k ==> #[trigger] depths@[i] <= limit,
            decreases dirs@.len() - k,
        {
            let d: usize = count_slashes(dirs[k].3.as_str());
            if d > limit {
                limit = d;
            }
            depths.push(d);
            k = k + 1;
        }
        let mut inos: HashMap<i64, u64> = HashMap::new();
        let mut depth: usize = 0;
        let mut done = false;
        proof {
            assert(inos@ =~= Map::<i64, u64>::empty());
            assert(restore_dirs(start, Seq::empty()) == start);
        }
        while !done
            invariant
                self.wf(),
                self.same_but_nodes(old(self)),
                depth <= limit,
                rows == dir_rows(dirs@),
                depths@.len() == dirs@.len(),
                forall|i: int|
                    0 <= i < dirs@.len() ==> #[trigger] depths@[i] == slashes(rows[i].path),
                forall|i: int| 0 <= i < dirs@.len() ==> #[trigger] depths@[i] <= limit,
                self.next_ino == base + rows_above(
                    rows,
                    (depth + (if done {
                        1int
                    } else {
                        0
                    })) as nat,
                ).len(),
                base + dirs@.len() <= u64::MAX,
                base == start.next,
                done ==> depth == limit,
                restore_dirs(
                    start,
                    rows_above(
                        rows,
                        (depth + (if done {
                            1int
                        } else {
                            0
                        })) as nat,
                    ),
                ) == (Restoring { nodes: self.nodes(), next: self.next_ino, inos: inos@ }),
                forall|id: i64| #[trigger] inos@.contains_key(id) ==> inos@[id] < self.next_ino,
            decreases
                limit - depth,
                (if done {
                    0int
                } else {
                    1int
                }),
        {
            let ghost above = rows_above(rows, depth as nat);
            let mut i: usize = 0;
            proof {
                assert(rows.take(0) =~= Seq::empty());
                assert(rows_at(rows.take(0), depth as nat) =~= Seq::empty()) by {
                    reveal(Seq::filter);
                }
                assert(above + rows_at(rows.take(0), depth as nat) =~= above);
            }
            while i < dirs.len()
                invariant
                    self.wf(),
                    self.same_but_nodes(old(self)),
                    i <= dirs@.len(),
                    depth <= limit,
                    rows == dir_rows(dirs@),
                    depths@.len() == dirs@.len(),
                    above == rows_above(rows, depth as nat),
                    forall|i: int|
                        0 <= i < dirs@.len() ==> #[trigger] depths@[i] == slashes(rows[i].path),
                    self.next_ino == base + (above + rows_at(rows.take(i as int), depth as nat)).len(),
                    base + dirs@.len() <= u64::MAX,
                    base == start.next,
                    restore_dirs(start, above + rows_at(rows.take(i as int), depth as nat)) == (
                    Restoring { nodes: self.nodes(), next: self.next_ino, inos: inos@ }),
                    forall|id: i64| #[trigger]
                        inos@.contains_key(id) ==> inos@[id] < self.next_ino,
                decreases dirs@.len() - i,
            {
                let ghost seen = above + rows_at(rows.take(i as int), depth as nat);
                let ghost now = above + rows_at(rows.take(i as int + 1), depth as nat);
                proof {
                    rows_at_step(rows, depth as nat, i as int);
                }
                if depths[i] == depth {
                    proof {
                        rows_counted_within(rows, depth as nat, i as int);
                        assert(now =~= seen.push(rows[i as int]));
                        assert(now.drop_last() =~= seen);
                    }
                    let row = &dirs[i];
                    let parent: u64 = match row.1 {
                        Some(id) => match inos.get(&id) {
                            Some(ino) => *ino,
                            None => METADATA_INO,
                        },
                        None => METADATA_INO,
                    };
                    proof {
                        assert(self.nodes().contains_key(METADATA_INO));
                    }
                    let data = InodeData::Directory { parent, name: row.2.clone() };
                    let ino = self.add_node(data);
                    inos.insert(row.0, ino);
                    proof {
                        assert(restore_dirs(start, now) == restore_dir(
                            restore_dirs(start, seen),
                            rows[i as int],
                        ));
                    }
                } else {
                    proof {
                        assert(now =~= seen);
                    }
                }
                i = i + 1;
            }
            proof {
                assert(rows.take(dirs@.len() as int) =~= rows);
            }
            if depth == limit {
                done = true;
            } else {
                depth = depth + 1;
            }
        }
        let ghost top = (limit + 1) as nat;
        let ghost filled = restore_dirs(start, rows_above(rows, top));
        proof {
            assert(deeper_than_all(rows, top)) by {
                assert forall|i: int| 0 <= i < rows.len() implies slashes(
                    (#[trigger] rows[i]).path,
                ) < top by {
                    assert(depths@[i] <= limit);
                }
            }
            rows_all_counted(rows, top);
        }
        let ghost mut parents: Seq<u64> = Seq::empty();
        let mut j: usize = 0;
        while j < torrents.len()
            invariant
                self.wf(),
                self.same_but_nodes(old(self)),
                j <= torrents@.len(),
                parents.len() == j,
                filled.next + torrents@.len() <= u64::MAX,
                self.next_ino == filled.next + j,
                forall|i: int|
                    0 <= i < j ==> torrent_parent(
                        with_torrents(filled.nodes, filled.next, torrents@, parents, i as nat),
                        torrents@[i],
                        #[trigger] parents[i],
                    ),
                self.nodes() == with_torrents(
                    filled.nodes,
                    filled.next,
                    torrents@,
                    parents,
                    j as nat,
                ),
            decreases torrents@.len() - j,
        {
            let t = &torrents[j];
            let parent: u64 = if t.source_path.as_str().is_empty() {
                METADATA_INO
            } else {
                let full_source = text::concat2("metadata/", t.source_path.as_str());
                match self.find_ino_by_full_path(full_source.as_str()) {
                    Some(ino) => ino,
                    None => METADATA_INO,
                }
            };
            let data = match &t.torrent_data {
                Some(bytes) => copy_bytes(bytes),
                None => Vec::new(),
            };
            let ghost grown = parents.push(parent);
            proof {
                assert(torrent_parent(self.nodes(), *t, parent));
                assert(self.nodes().contains_key(METADATA_INO));
                assert(self.nodes().contains_key(parent));
                assert forall|i: int| 0 <= i <= j implies torrent_parent(
                    with_torrents(filled.nodes, filled.next, torrents@, grown, i as nat),
                    torrents@[i],
                    #[trigger] grown[i],
                ) by {
                    with_torrents_looks_at_first(
                        filled.nodes,
                        filled.next,
                        torrents@,
                        parents,
                        grown,
                        i as nat,
                    );
                    if i < j {
                        assert(grown[i] == parents[i]);
                    }
                }
                with_torrents_looks_at_first(
                    filled.nodes,
                    filled.next,
                    torrents@,
                    parents,
                    grown,
                    j as nat,
                );
            }
            self.add_node(
                InodeData::File {
                    parent,
                    name: metadata_file_name(t.filename.as_str(), t.name.as_str()),
                    data,
                },
            );
            proof {
                parents = grown;
            }
            j = j + 1;
        }
        proof {
            assert(parents_fit(filled.nodes, filled.next, torrents@, parents));
            assert(restored(
                old(self).nodes(),
                old(self).next_ino,
                rows,
                torrents@,
                top,
                parents,
                self.nodes(),
            ));
        }
    }
}

impl InodeManager {
    pub fn attr_for_dir(&self, ino: u64, writable: bool) -> (r: Attr)
        ensures
            r == Attr::dir(ino, writable),
    {
        Attr {
            ino,
            size: 0,
            kind: FileKind::Directory,
            perm: if writable {
                0o755
            } else {
                0o555
            },
            nlink: 2,
        }
    }

    pub fn attr_for_file(&self, ino: u64, size: u64) -> (r: Attr)
        ensures
            r == Attr::file(ino, size),
    {
        Attr { ino, size, kind: FileKind::RegularFile, perm: 0o444, nlink: 1 }
    }
}

/// The file of a torrent is called as the torrent's file was, or after the torrent where that is not
/// known, and ends in `.torrent` either way, once.
pub proof fn torrent_file_is_called_after_it(filename: Seq<char>, name: Seq<char>)
    ensures
        text::ends(torrent_file_name(filename, name), ".torrent"@),
        text::ends(filename, ".torrent"@) ==> torrent_file_name(filename, name) == filename,
        filename.len() > 0 && !text::ends(filename, ".torrent"@) ==> torrent_file_name(
            filename,
            name,
        ) == filename + ".torrent"@,
        filename.len() == 0 && text::ends(name, ".torrent"@) ==> torrent_file_name(filename, name)
            == name,
        filename.len() == 0 && !text::ends(name, ".torrent"@) ==> torrent_file_name(filename, name)
            == name + ".torrent"@,
{
    reveal_strlit(".torrent");
    let end = ".torrent"@;
    assert((filename + end).subrange(filename.len() as int, (filename + end).len() as int) =~= end);
    assert((name + end).subrange(name.len() as int, (name + end).len() as int) =~= end);
}

} // verus!

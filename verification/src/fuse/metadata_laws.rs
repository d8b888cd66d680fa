//! What holds of the operations below `metadata/`, of two calls and more.

use vstd::prelude::*;

use super::data_laws;
use super::fs_service;
use super::fs_service::{
    AttrStep, FsService, LookupStep, MadeDirectory, ReadStep, ReaddirStep, ReleaseAction,
    RenameAction, UnlinkPlan, UnlinkRemoval,
};
use super::fs_types::{Created, DirEntry, Entry, FileKind, OpenOutcome};
use super::inodes;
use super::inodes::{
    DataInode, InodeData, Node, DATA_INO, DATA_TORRENT_INO_BASE, METADATA_INO, ROOT_INO, STATS_INO,
    STATS_INO_OFFSET,
};
use super::paths;
use crate::domain::fs_error::{FsError, FsResult};
use crate::text;

verus! {

broadcast use vstd::std_specs::hash::group_hash_axioms;

/// An inode number that entries below `metadata/` have.
pub open spec fn below_metadata(ino: u64) -> bool {
    STATS_INO < ino < DATA_TORRENT_INO_BASE
}

/// `ino` is a file that holds `data`.
pub open spec fn is_file(s: FsService, ino: u64, data: Seq<u8>) -> bool {
    &&& s.inode_mgr.inodes@.contains_key(ino)
    &&& s.inode_mgr.inodes@[ino] matches InodeData::File { data: held, .. } && held@ == data
}

/// Everything in the tree but the entry `ino` is as it was.
pub open spec fn tree_stays_but(before: FsService, after: FsService, ino: u64) -> bool {
    forall|k: u64|
        k != ino ==> (#[trigger] after.inode_mgr.inodes@.contains_key(k)
            == before.inode_mgr.inodes@.contains_key(k)) && (
        before.inode_mgr.inodes@.contains_key(k) ==> after.inode_mgr.inodes@[k]@
            == before.inode_mgr.inodes@[k]@)
}

proof fn seen_by_its_view(s: FsService, ino: u64)
    ensures
        s.nodes().contains_key(ino) == s.inode_mgr.inodes@.contains_key(ino),
        s.nodes().contains_key(ino) ==> s.nodes()[ino] == s.inode_mgr.inodes@[ino]@,
        s.data_nodes().contains_key(ino) == s.inode_mgr.data_inodes@.contains_key(ino),
        s.data_nodes().contains_key(ino) ==> s.data_nodes()[ino] == s.inode_mgr.data_inodes@[ino]@,
{
}

proof fn others_stay(before: FsService, after: FsService, ino: u64)
    requires
        after.nodes().remove(ino) == before.nodes().remove(ino),
    ensures
        tree_stays_but(before, after, ino),
{
    assert forall|k: u64| k != ino implies (#[trigger] after.inode_mgr.inodes@.contains_key(k)
        == before.inode_mgr.inodes@.contains_key(k)) && (before.inode_mgr.inodes@.contains_key(k)
        ==> after.inode_mgr.inodes@[k]@ == before.inode_mgr.inodes@[k]@) by {
        seen_by_its_view(before, k);
        seen_by_its_view(after, k);
        assert(after.nodes().remove(ino).contains_key(k) == after.nodes().contains_key(k));
        assert(before.nodes().remove(ino).contains_key(k) == before.nodes().contains_key(k));
        if before.nodes().contains_key(k) {
            assert(after.nodes().remove(ino)[k] == after.nodes()[k]);
            assert(before.nodes().remove(ino)[k] == before.nodes()[k]);
        }
    }
}

/// A write puts its bytes where it was asked to: there they stand afterwards, every other byte is
/// as it was, a gap is filled with zeros, and the file is as long as its last byte needs. No other
/// entry changes, and the file keeps its name and place.
pub proof fn write_puts_its_bytes(
    before: FsService,
    after: FsService,
    ino: u64,
    offset: i64,
    data: Seq<u8>,
    r: FsResult<u32>,
    held: Seq<u8>,
    i: int,
)
    requires
        before.writes(ino, offset, data, r, &after),
        below_metadata(ino),
        is_file(before, ino, held),
        offset >= 0,
        data.len() <= u32::MAX,
    ensures
        r == Ok::<u32, FsError>(data.len() as u32),
        tree_stays_but(before, after, ino),
        after.inode_mgr.inodes@.contains_key(ino),
        after.inode_mgr.inodes@[ino] matches InodeData::File { parent, name, data: now } && {
            &&& before.inode_mgr.inodes@[ino] matches InodeData::File { parent: p, name: n, .. }
                && p == parent && n@ == name@
            &&& now@.len() >= held.len()
            &&& now@.len() >= offset + data.len()
            &&& now@.len() == held.len() || now@.len() == offset + data.len()
            &&& 0 <= i < now@.len() ==> now@[i] == (if offset <= i < offset + data.len() {
                data[i - offset]
            } else if i < held.len() {
                held[i]
            } else {
                0
            })
        },
{
    seen_by_its_view(before, ino);
    seen_by_its_view(after, ino);
    assert(after.nodes().remove(ino) =~= before.nodes().remove(ino));
    others_stay(before, after, ino);
}

/// What was written is read back, and the size of the file tells how far it reaches.
pub proof fn what_was_written_is_read(
    before: FsService,
    after: FsService,
    ino: u64,
    offset: i64,
    data: Seq<u8>,
    r: FsResult<u32>,
    held: Seq<u8>,
    read: ReadStep,
    told: AttrStep,
)
    requires
        before.writes(ino, offset, data, r, &after),
        below_metadata(ino),
        is_file(before, ino, held),
        offset >= 0,
        data.len() <= u32::MAX,
        after.reads(ino, offset, data.len() as u32, read),
        after.has_attr(ino, told),
    ensures
        read matches ReadStep::Ready(bytes) && bytes@ == data,
        told matches AttrStep::Answer(attr) && attr.size >= offset + data.len() && attr.size
            >= held.len(),
{
    write_puts_its_bytes(before, after, ino, offset, data, r, held, 0);
    data_laws::read_gives_the_named_bytes(after, ino, offset, data.len() as u32, read);
    data_laws::metadata_attributes_tell_the_entry(after, ino, told);
    if let ReadStep::Ready(bytes) = read {
        let now = after.inode_mgr.inodes@[ino]->File_data@;
        assert forall|i: int| 0 <= i < bytes@.len() implies bytes@[i] == data[i] by {
            write_puts_its_bytes(before, after, ino, offset, data, r, held, offset + i);
            assert(bytes@[i] == now[offset + i]);
        }
        assert(bytes@ =~= data);
    }
}

/// Nothing is written below `data/`, into the root's `.stats`, into a directory or where there is
/// no entry, and a refused write changes nothing.
pub proof fn refused_write_changes_nothing(
    before: FsService,
    after: FsService,
    ino: u64,
    offset: i64,
    data: Seq<u8>,
    r: FsResult<u32>,
)
    requires
        before.writes(ino, offset, data, r, &after),
    ensures
        ino == DATA_INO || ino == STATS_INO || ino >= DATA_TORRENT_INO_BASE ==> r == Err::<
            u32,
            FsError,
        >(FsError::ReadOnlyFileSystem),
        below_metadata(ino) && !before.inode_mgr.inodes@.contains_key(ino) ==> r == Err::<
            u32,
            FsError,
        >(FsError::NotFound),
        below_metadata(ino) && before.inode_mgr.inodes@.contains_key(ino)
            && before.inode_mgr.inodes@[ino] is Directory ==> r == Err::<u32, FsError>(
            FsError::IsDirectory,
        ),
        r is Err ==> after.nodes() == before.nodes(),
{
    seen_by_its_view(before, ino);
}

/// Why a new entry is refused: below `data/` nothing can be made, elsewhere than below `metadata/`
/// nothing may be made, only `.torrent` files may be, and no name comes twice in a directory. A
/// refused attempt changes nothing.
pub open spec fn refusal(
    s: FsService,
    parent: u64,
    name: Seq<char>,
    file: bool,
) -> Option<FsError> {
    if parent == DATA_INO || parent >= DATA_TORRENT_INO_BASE {
        Some(FsError::ReadOnlyFileSystem)
    } else if !inodes::beneath(s.nodes(), parent, METADATA_INO) {
        Some(FsError::PermissionDenied)
    } else if file && !(name.len() >= 8 && name.skip(name.len() - 8) == ".torrent"@) {
        Some(FsError::PermissionDenied)
    } else if exists|k: u64|
        s.inode_mgr.inodes@.contains_key(k) && match #[trigger] s.inode_mgr.inodes@[k] {
            InodeData::Directory { parent: p, name: n } => p == parent && n@ == name,
            InodeData::File { parent: p, name: n, .. } => p == parent && n@ == name,
        } {
        Some(FsError::AlreadyExists)
    } else {
        None
    }
}

proof fn refusal_is_the_error(s: FsService, parent: u64, name: Seq<char>, file: bool)
    ensures
        refusal(s, parent, name, file) == fs_service::new_entry_error(
            s.nodes(),
            parent,
            name,
            file,
        ),
{
    reveal_strlit(".torrent");
    if name.len() >= 8 {
        assert(name.subrange(name.len() - 8, name.len() as int) =~= name.skip(name.len() - 8));
    }
    if exists|k: u64|
        s.inode_mgr.inodes@.contains_key(k) && match #[trigger] s.inode_mgr.inodes@[k] {
            InodeData::Directory { parent: p, name: n } => p == parent && n@ == name,
            InodeData::File { parent: p, name: n, .. } => p == parent && n@ == name,
        } {
        let k = choose|k: u64|
            s.inode_mgr.inodes@.contains_key(k) && match #[trigger] s.inode_mgr.inodes@[k] {
                InodeData::Directory { parent: p, name: n } => p == parent && n@ == name,
                InodeData::File { parent: p, name: n, .. } => p == parent && n@ == name,
            };
        seen_by_its_view(s, k);
        assert(inodes::is_child(s.nodes(), k, parent, name));
    }
    if exists|k: u64| #[trigger] inodes::is_child(s.nodes(), k, parent, name) {
        let k = choose|k: u64| #[trigger] inodes::is_child(s.nodes(), k, parent, name);
        seen_by_its_view(s, k);
        assert(s.inode_mgr.inodes@.contains_key(k));
    }
}

proof fn fresh_entry_is_found(
    before: FsService,
    after: FsService,
    ino: u64,
    node: Node,
    file: bool,
    found: LookupStep,
)
    requires
        before.wf(),
        after.wf(),
        ino == before.inode_mgr.next_ino,
        ino < DATA_TORRENT_INO_BASE,
        refusal(before, node.parent(), node.name(), file) is None,
        after.nodes() == before.nodes().insert(ino, node),
        !after.data_nodes().contains_key(node.parent()),
        after.looks_up(node.parent(), node.name(), found),
    ensures
        found matches LookupStep::Answer(Some(e)) && e.ino == ino,
        tree_stays_but(before, after, ino),
        !before.inode_mgr.inodes@.contains_key(ino),
        ino > STATS_INO,
{
    refusal_is_the_error(before, node.parent(), node.name(), file);
    let parent = node.parent();
    inodes::beneath_unfold(before.nodes(), parent, METADATA_INO);
    assert(before.nodes().contains_key(parent));
    assert(before.nodes().contains_key(STATS_INO));
    assert(!before.nodes().contains_key(ino));
    seen_by_its_view(before, ino);
    assert(after.nodes().remove(ino) =~= before.nodes().remove(ino));
    others_stay(before, after, ino);
    assert(parent != ROOT_INO);
    assert(inodes::is_child(after.nodes(), ino, parent, node.name()));
    match found {
        LookupStep::Answer(Some(e)) => {
            if e.ino != ino {
                assert(inodes::is_child(before.nodes(), e.ino, parent, node.name()));
            }
        },
        LookupStep::Answer(None) => {
            assert(!inodes::is_child(after.nodes(), ino, parent, node.name()));
        },
        _ => {},
    }
}

/// A file that was made is found under its name, empty, and is what the new handle leads to; it is
/// refused exactly where new entries are.
pub proof fn created_file_is_found(
    before: FsService,
    after: FsService,
    parent: u64,
    name: Seq<char>,
    r: FsResult<Created>,
    found: LookupStep,
)
    requires
        before.wf(),
        after.wf(),
        before.creates(parent, name, r, &after),
        before.inode_mgr.next_ino < DATA_TORRENT_INO_BASE,
        !after.data_nodes().contains_key(parent),
        after.looks_up(parent, name, found),
    ensures
        match r {
            Err(e) => refusal(before, parent, name, true) == Some(e) && after.inode_mgr
                == before.inode_mgr,
            Ok(created) => {
                let ino = created.attr.ino;
                &&& refusal(before, parent, name, true) is None
                &&& created.attr.kind == FileKind::RegularFile
                &&& created.attr.size == 0
                &&& !before.inode_mgr.inodes@.contains_key(ino)
                &&& tree_stays_but(before, after, ino)
                &&& is_file(after, ino, Seq::empty())
                &&& after.inode_mgr.open_files@.contains_key(created.fh)
                &&& after.inode_mgr.open_files@[created.fh] == ino
                &&& found matches LookupStep::Answer(Some(e)) && e.ino == ino && e.attr.kind
                    == FileKind::RegularFile && e.attr.size == 0
            },
        },
{
    refusal_is_the_error(before, parent, name, true);
    if let Ok(created) = r {
        let ino = before.inode_mgr.next_ino;
        let node = Node::File { parent, name, data: Seq::empty() };
        fresh_entry_is_found(before, after, ino, node, true, found);
        seen_by_its_view(after, ino);
        assert(after.nodes().contains_key(ino));
    }
}

/// A file that was made without being opened is found under its name, empty; it is refused exactly
/// where new entries are.
pub proof fn made_file_is_found(
    before: FsService,
    after: FsService,
    parent: u64,
    name: Seq<char>,
    r: FsResult<Entry>,
    found: LookupStep,
)
    requires
        before.wf(),
        after.wf(),
        before.makes_file(parent, name, r, &after),
        before.inode_mgr.next_ino < DATA_TORRENT_INO_BASE,
        !after.data_nodes().contains_key(parent),
        after.looks_up(parent, name, found),
    ensures
        match r {
            Err(e) => refusal(before, parent, name, true) == Some(e) && after.inode_mgr
                == before.inode_mgr,
            Ok(made) => {
                &&& refusal(before, parent, name, true) is None
                &&& made.attr.kind == FileKind::RegularFile
                &&& made.attr.size == 0
                &&& !before.inode_mgr.inodes@.contains_key(made.ino)
                &&& tree_stays_but(before, after, made.ino)
                &&& is_file(after, made.ino, Seq::empty())
                &&& after.inode_mgr.open_files@ == before.inode_mgr.open_files@
                &&& found == LookupStep::Answer(Some(made))
            },
        },
{
    refusal_is_the_error(before, parent, name, true);
    if let Ok(made) = r {
        let ino = before.inode_mgr.next_ino;
        let node = Node::File { parent, name, data: Seq::empty() };
        fresh_entry_is_found(before, after, ino, node, true, found);
        seen_by_its_view(after, ino);
        assert(after.nodes().contains_key(ino));
    }
}

/// A directory that was made is found under its name, and the catalogue is told the path that it
/// has beneath `metadata/`; it is refused exactly where new entries are.
pub proof fn made_directory_is_found(
    before: FsService,
    after: FsService,
    parent: u64,
    name: Seq<char>,
    r: FsResult<MadeDirectory>,
    found: LookupStep,
)
    requires
        before.wf(),
        after.wf(),
        before.makes_dir(parent, name, r, &after),
        before.inode_mgr.next_ino < DATA_TORRENT_INO_BASE,
        !after.data_nodes().contains_key(parent),
        after.looks_up(parent, name, found),
        name.len() > 0,
        parent == METADATA_INO || before.nodes()[parent].name().len() > 0,
    ensures
        match r {
            Err(e) => refusal(before, parent, name, false) == Some(e) && after.inode_mgr
                == before.inode_mgr,
            Ok(made) => {
                let ino = made.attr.ino;
                &&& refusal(before, parent, name, false) is None
                &&& made.attr.kind == FileKind::Directory
                &&& !before.inode_mgr.inodes@.contains_key(ino)
                &&& tree_stays_but(before, after, ino)
                &&& after.inode_mgr.inodes@.contains_key(ino)
                &&& after.inode_mgr.inodes@[ino] matches InodeData::Directory { parent: p, name: n }
                    && p == parent && n@ == name
                &&& found matches LookupStep::Answer(Some(e)) && e.ino == ino && e.attr
                    == made.attr
                &&& inodes::full_path(after.nodes(), ino) == "metadata/"@ + made.source_path@
            },
        },
{
    refusal_is_the_error(before, parent, name, false);
    if let Ok(made) = r {
        let ino = before.inode_mgr.next_ino;
        let node = Node::Directory { parent, name };
        fresh_entry_is_found(before, after, ino, node, false, found);
        seen_by_its_view(after, ino);
        assert(after.nodes().contains_key(ino));
        paths::path_of_new_entry(before.inode_mgr, ino, node);
    }
}

/// What is known of an entry below `data/` is gone exactly where `goes` says so; all else stays.
pub open spec fn data_goes(
    before: FsService,
    after: FsService,
    goes: spec_fn(DataInode) -> bool,
) -> bool {
    forall|k: u64|
        (#[trigger] after.inode_mgr.data_inodes@.contains_key(k) <==> (
        before.inode_mgr.data_inodes@.contains_key(k) && !goes(before.inode_mgr.data_inodes@[k])))
            && (after.inode_mgr.data_inodes@.contains_key(k)
            ==> after.inode_mgr.data_inodes@[k]@ == before.inode_mgr.data_inodes@[k]@)
}

/// A directory that was removed was an empty directory, is not found any more, and the catalogue is
/// told the path that it had beneath `metadata/`. Of what is known below `data/` its source path and
/// those beneath it go, and nothing else does. A refused attempt changes nothing.
pub proof fn removed_directory_is_gone(
    before: FsService,
    after: FsService,
    parent: u64,
    name: Seq<char>,
    r: FsResult<String>,
    found: LookupStep,
)
    requires
        before.wf(),
        inodes::unique_names(before.nodes()),
        before.removes_dir(parent, name, r, &after),
        !after.data_nodes().contains_key(parent),
        after.looks_up(parent, name, found),
        name.len() > 0,
    ensures
        r is Err ==> after.inode_mgr == before.inode_mgr,
        r matches Ok(path) ==> found == LookupStep::Answer(None) && exists|ino: u64|
            {
                &&& before.inode_mgr.inodes@.contains_key(ino)
                &&& #[trigger] before.inode_mgr.inodes@[ino] matches InodeData::Directory {
                    parent: p,
                    name: n,
                } && p == parent && n@ == name
                &&& forall|k: u64| #[trigger]
                    before.nodes().contains_key(k) ==> before.nodes()[k].parent() != ino
                &&& !after.inode_mgr.inodes@.contains_key(ino)
                &&& tree_stays_but(before, after, ino)
                &&& inodes::full_path(before.nodes(), ino) == "metadata/"@ + path@
                &&& data_goes(
                    before,
                    after,
                    |d: DataInode|
                        d matches DataInode::SourcePathDir { path: p } && (p@ == path@
                            || text::begins(p@, path@ + seq!['/'])),
                )
            },
{
    if let Ok(path) = r {
        let nodes = before.nodes();
        reveal_strlit("/");
        assert("/"@ =~= seq!['/']);
        let ino = choose|ino: u64| #[trigger]
            inodes::is_child(nodes, ino, parent, name) && fs_service::rmdir_error(nodes, ino)
                is None && path@ == inodes::source_path(nodes, ino) && after.nodes()
                == nodes.remove(ino);
        assert(inodes::is_child(nodes, ino, parent, name));
        seen_by_its_view(before, ino);
        seen_by_its_view(after, ino);
        assert(after.nodes().remove(ino) =~= before.nodes().remove(ino));
        others_stay(before, after, ino);
        inodes::beneath_unfold(nodes, parent, METADATA_INO);
        inodes::beneath_unfold(nodes, ino, METADATA_INO);
        inodes::beneath_unfold(nodes, 0, METADATA_INO);
        inodes::beneath_unfold(nodes, ROOT_INO, METADATA_INO);
        assert(ino != METADATA_INO);
        paths::source_path_follows_metadata(before.inode_mgr, ino);
        paths::source_path_is_not_empty(before.inode_mgr, ino);
        assert forall|k: u64| !#[trigger] inodes::is_child(after.nodes(), k, parent, name) by {
            if inodes::is_child(after.nodes(), k, parent, name) {
                fs_service::unique_names_one_child(nodes, k, ino, parent, name);
            }
        }
        assert forall|k: u64|
            (#[trigger] after.inode_mgr.data_inodes@.contains_key(k) <==> (
            before.inode_mgr.data_inodes@.contains_key(k) && !(
            before.inode_mgr.data_inodes@[k] matches DataInode::SourcePathDir { path: p } && (p@
                == path@ || text::begins(p@, path@ + seq!['/']))))) && (
            after.inode_mgr.data_inodes@.contains_key(k)
                ==> after.inode_mgr.data_inodes@[k]@ == before.inode_mgr.data_inodes@[k]@) by {
            seen_by_its_view(before, k);
            seen_by_its_view(after, k);
        }
    }
}

/// Making a directory and removing it again leaves the tree as it was, and tells the catalogue the
/// same path both times.
pub proof fn removal_undoes_making(
    before: FsService,
    made: FsService,
    after: FsService,
    parent: u64,
    name: Seq<char>,
    r: MadeDirectory,
    removed: FsResult<String>,
)
    requires
        before.wf(),
        made.wf(),
        before.makes_dir(parent, name, Ok::<MadeDirectory, FsError>(r), &made),
        made.removes_dir(parent, name, removed, &after),
        name.len() > 0,
        parent == METADATA_INO || before.nodes()[parent].name().len() > 0,
    ensures
        removed matches Ok(path) && path@ == r.source_path@,
        after.nodes() == before.nodes(),
{
    let nodes = before.nodes();
    let ino = before.inode_mgr.next_ino;
    let node = Node::Directory { parent, name };
    assert(made.nodes() == nodes.insert(ino, node));
    super::laws::rmdir_undoes_mkdir(before, made, after, parent, name, removed);
    paths::path_of_new_entry(before.inode_mgr, ino, node);
    inodes::fresh_entry_keeps_tree(nodes, ino, node);
    inodes::beneath_unfold(nodes, parent, METADATA_INO);
    inodes::beneath_unfold(made.nodes(), ino, METADATA_INO);
    assert(nodes.contains_key(METADATA_INO) && nodes.contains_key(ROOT_INO));
    assert(inodes::beneath(made.nodes(), parent, METADATA_INO));
    paths::source_path_follows_metadata(made.inode_mgr, ino);
    if let Ok(path) = removed {
        let k = choose|k: u64| #[trigger]
            inodes::is_child(made.nodes(), k, parent, name) && fs_service::rmdir_error(
                made.nodes(),
                k,
            ) is None && path@ == inodes::source_path(made.nodes(), k);
        assert(inodes::is_child(made.nodes(), k, parent, name));
        if k != ino {
            assert(inodes::is_child(nodes, k, parent, name));
        }
        let a = "metadata/"@;
        assert((a + path@).skip(a.len() as int) =~= path@);
        assert((a + r.source_path@).skip(a.len() as int) =~= r.source_path@);
    }
}

/// A `.torrent` file whose removal the catalogue did not refuse is gone, with the handles that led
/// to it; of what is known below `data/` go the entries of its torrent and the directories that the
/// catalogue cleaned up. Nothing else goes, and a failure changes nothing.
pub proof fn unlinked_file_is_gone(
    before: FsService,
    after: FsService,
    parent: u64,
    name: Seq<char>,
    plan: UnlinkPlan,
    removal: UnlinkRemoval,
    cleaned: Seq<String>,
    r: FsResult<Option<i64>>,
)
    requires
        before.wf(),
        before.plans_unlink(parent, name, Ok::<UnlinkPlan, FsError>(plan)),
        before.unlinks(&plan, removal, cleaned, r, &after),
        parent == METADATA_INO || before.nodes()[parent].name().len() > 0,
        plan.ino != 0,
    ensures
        before.inode_mgr.inodes@.contains_key(plan.ino),
        before.inode_mgr.inodes@[plan.ino] matches InodeData::File { parent: p, name: n, .. } && p
            == parent && n@ == name,
        inodes::full_path(before.nodes(), plan.ino) == "metadata/"@ + data_laws::path_in(
            plan.source_path@,
            plan.filename@,
        ),
        match removal {
            UnlinkRemoval::Failed(e) => r == Err::<Option<i64>, FsError>(e) && after == before,
            _ => {
                &&& !after.inode_mgr.inodes@.contains_key(plan.ino)
                &&& tree_stays_but(before, after, plan.ino)
                &&& forall|fh: u64|
                    (#[trigger] after.inode_mgr.open_files@.contains_key(fh) <==> (
                    before.inode_mgr.open_files@.contains_key(fh)
                        && before.inode_mgr.open_files@[fh] != plan.ino)) && (
                    after.inode_mgr.open_files@.contains_key(fh)
                        ==> after.inode_mgr.open_files@[fh] == before.inode_mgr.open_files@[fh])
                &&& match removal {
                    UnlinkRemoval::Removed { torrent_id: gone } => {
                        &&& r == Ok::<Option<i64>, FsError>(Some(gone))
                        &&& data_goes(
                            before,
                            after,
                            |d: DataInode|
                                match d {
                                    DataInode::SourcePathDir { path } => exists|i: int|
                                        0 <= i < cleaned.len() && (#[trigger] cleaned[i])@ == path@,
                                    DataInode::TorrentRoot { torrent_id, .. } => torrent_id == gone,
                                    DataInode::TorrentDir { torrent_id, .. } => torrent_id == gone,
                                    DataInode::TorrentFile { torrent_id, .. } => torrent_id == gone,
                                },
                        )
                    },
                    _ => r == Ok::<Option<i64>, FsError>(None) && data_goes(
                        before,
                        after,
                        |d: DataInode| false,
                    ),
                }
            },
        },
{
    let nodes = before.nodes();
    let ino = plan.ino;
    reveal_strlit("/");
    assert("/"@ =~= seq!['/']);
    reveal_strlit(".torrent");
    assert(inodes::is_child(nodes, ino, parent, name));
    seen_by_its_view(before, ino);
    inodes::beneath_unfold(nodes, parent, METADATA_INO);
    inodes::beneath_unfold(nodes, 0, METADATA_INO);
    inodes::beneath_unfold(nodes, ROOT_INO, METADATA_INO);
    paths::path_by_parent(before.inode_mgr, ino);
    if !(removal is Failed) {
        seen_by_its_view(after, ino);
        assert(after.nodes().remove(ino) =~= before.nodes().remove(ino));
        others_stay(before, after, ino);
        let gone = |d: DataInode|
            match d {
                DataInode::SourcePathDir { path } => exists|i: int|
                    0 <= i < cleaned.len() && (#[trigger] cleaned[i])@ == path@,
                DataInode::TorrentRoot { torrent_id, .. } => torrent_id == removal->torrent_id,
                DataInode::TorrentDir { torrent_id, .. } => torrent_id == removal->torrent_id,
                DataInode::TorrentFile { torrent_id, .. } => torrent_id == removal->torrent_id,
            };
        assert forall|k: u64|
            (#[trigger] after.inode_mgr.data_inodes@.contains_key(k) <==> (
            before.inode_mgr.data_inodes@.contains_key(k) && !(removal is Removed && gone(
                before.inode_mgr.data_inodes@[k],
            )))) && (after.inode_mgr.data_inodes@.contains_key(k)
                ==> after.inode_mgr.data_inodes@[k]@ == before.inode_mgr.data_inodes@[k]@) by {
            seen_by_its_view(before, k);
            seen_by_its_view(after, k);
            if before.inode_mgr.data_inodes@.contains_key(k) {
                if let DataInode::SourcePathDir { path } = before.inode_mgr.data_inodes@[k] {
                    cleaned_paths(cleaned, path@);
                }
            }
        }
    }
}

proof fn cleaned_paths(cleaned: Seq<String>, path: Seq<char>)
    ensures
        text::views(cleaned).contains(path) <==> exists|i: int|
            0 <= i < cleaned.len() && (#[trigger] cleaned[i])@ == path,
{
    let views = text::views(cleaned);
    if views.contains(path) {
        let i = views.index_of(path);
        assert(cleaned[i]@ == path);
    }
    if exists|i: int| 0 <= i < cleaned.len() && (#[trigger] cleaned[i])@ == path {
        let i = choose|i: int| 0 <= i < cleaned.len() && (#[trigger] cleaned[i])@ == path;
        assert(views[i] == path);
    }
}

/// `after` is the path `before` once the directory `old` is called `new`: the directory itself and
/// what lies beneath it have moved with it, every other path stands.
pub open spec fn path_has_moved(
    before: Seq<char>,
    after: Seq<char>,
    old_path: Seq<char>,
    new_path: Seq<char>,
) -> bool {
    &&& before == old_path ==> after == new_path
    &&& forall|rest: Seq<char>|
        before == #[trigger] (old_path + seq!['/'] + rest) ==> after == new_path + seq!['/'] + rest
    &&& before != old_path && (forall|rest: Seq<char>|
        before != #[trigger] (old_path + seq!['/'] + rest)) ==> after == before
}

/// An entry below `data/` and what has become of it once the directory `old_path` is `new_path`.
pub open spec fn entry_has_moved(
    before: DataInode,
    after: DataInode,
    old_path: Seq<char>,
    new_path: Seq<char>,
) -> bool {
    match before {
        DataInode::SourcePathDir { path } => after matches DataInode::SourcePathDir { path: now }
            && path_has_moved(path@, now@, old_path, new_path),
        DataInode::TorrentRoot { torrent_id, source_path, name, filename } => after matches
            DataInode::TorrentRoot { torrent_id: t, source_path: now, name: n, filename: f } && t
            == torrent_id && n@ == name@ && f@ == filename@ && path_has_moved(
            source_path@,
            now@,
            old_path,
            new_path,
        ),
        _ => after@ == before@,
    }
}

/// Every entry below `data/` is there still, and has moved with the directory.
pub open spec fn data_has_moved(
    before: FsService,
    after: FsService,
    old_path: Seq<char>,
    new_path: Seq<char>,
) -> bool {
    forall|k: u64|
        (#[trigger] after.inode_mgr.data_inodes@.contains_key(k)
            == before.inode_mgr.data_inodes@.contains_key(k)) && (
        before.inode_mgr.data_inodes@.contains_key(k) ==> entry_has_moved(
            before.inode_mgr.data_inodes@[k],
            after.inode_mgr.data_inodes@[k],
            old_path,
            new_path,
        ))
}

proof fn moved_path_has_moved(p: Seq<char>, old_path: Seq<char>, new_path: Seq<char>)
    ensures
        path_has_moved(p, fs_service::moved_path(p, old_path, new_path), old_path, new_path),
{
    reveal_strlit("/");
    assert("/"@ =~= seq!['/']);
    let dir = old_path + seq!['/'];
    let after = fs_service::moved_path(p, old_path, new_path);
    assert forall|rest: Seq<char>| p == #[trigger] (old_path + seq!['/'] + rest) implies after
        == new_path + seq!['/'] + rest by {
        assert(p.take(dir.len() as int) =~= dir);
        assert(p.skip(old_path.len() as int + 1) =~= rest);
        assert(text::begins(p, dir));
    }
    if text::begins(p, dir) {
        let rest = p.skip(dir.len() as int);
        assert(p =~= old_path + seq!['/'] + rest);
    }
}

/// A rename tells the catalogue the path that the entry had beneath `metadata/` and the one that it
/// has now; the entries below `data/` move with a renamed directory, and nothing else changes.
pub proof fn rename_tells_both_paths(
    before: FsService,
    after: FsService,
    ino: u64,
    parent: u64,
    name: Seq<char>,
    newparent: u64,
    newname: Seq<char>,
    action: RenameAction,
)
    requires
        before.wf(),
        inodes::unique_names(before.nodes()),
        inodes::is_child(before.nodes(), ino, parent, name),
        below_metadata(ino),
        before.renames(
            parent,
            name,
            newparent,
            newname,
            Ok::<RenameAction, FsError>(action),
            &after,
        ),
        !inodes::beneath(before.nodes(), newparent, ino),
        name.len() > 0,
        newname.len() > 0,
        parent == METADATA_INO || before.nodes()[parent].name().len() > 0,
        newparent == METADATA_INO || before.nodes()[newparent].name().len() > 0,
    ensures
        match action {
            RenameAction::Nothing => after.inode_mgr == before.inode_mgr && parent == newparent
                && name == newname,
            RenameAction::File { old_name, old_source_path, new_name, new_source_path } => {
                &&& inodes::full_path(before.nodes(), ino) == "metadata/"@ + data_laws::path_in(
                    old_source_path@,
                    old_name@,
                )
                &&& inodes::full_path(after.nodes(), ino) == "metadata/"@ + data_laws::path_in(
                    new_source_path@,
                    new_name@,
                )
                &&& old_name@ == name
                &&& new_name@ == newname
                &&& data_goes(before, after, |d: DataInode| false)
            },
            RenameAction::Directory { old_path, new_name, new_path } => {
                &&& inodes::full_path(before.nodes(), ino) == "metadata/"@ + old_path@
                &&& inodes::full_path(after.nodes(), ino) == "metadata/"@ + new_path@
                &&& new_name@ == newname
                &&& data_has_moved(before, after, old_path@, new_path@)
            },
        },
        tree_stays_but(before, after, ino),
{
    let nodes = before.nodes();
    let r = Ok::<RenameAction, FsError>(action);
    reveal_strlit("/");
    assert("/"@ =~= seq!['/']);
    let found = choose|k: u64| #[trigger]
        inodes::is_child(nodes, k, parent, name) && before.renames_ino(
            k,
            parent,
            newparent,
            newname,
            r,
            &after,
        );
    assert(inodes::is_child(nodes, found, parent, name));
    fs_service::unique_names_one_child(nodes, found, ino, parent, name);
    if action is Nothing {
        let t = choose|t: u64| #[trigger]
            inodes::is_child(nodes, t, newparent, newname) && r == (if t == found {
                Ok::<RenameAction, FsError>(RenameAction::Nothing)
            } else {
                Err(FsError::AlreadyExists)
            });
        assert(inodes::is_child(nodes, t, newparent, newname));
        assert(t == ino);
        others_stay(before, after, ino);
    } else {
        let node = after.nodes()[ino];
        assert(after.nodes() == nodes.insert(ino, node));
        assert(after.nodes().remove(ino) =~= nodes.remove(ino));
        others_stay(before, after, ino);
        inodes::beneath_unfold(nodes, parent, METADATA_INO);
        inodes::beneath_unfold(nodes, newparent, METADATA_INO);
        inodes::beneath_unfold(nodes, newparent, ino);
        inodes::beneath_unfold(nodes, ino, METADATA_INO);
        inodes::beneath_unfold(nodes, 0, METADATA_INO);
        inodes::beneath_unfold(nodes, ROOT_INO, METADATA_INO);
        inodes::path_stays_off_change(nodes, ino, node, newparent, METADATA_INO);
        paths::path_by_parent(before.inode_mgr, ino);
        paths::path_by_parent(after.inode_mgr, ino);
        assert(inodes::source_path(after.nodes(), newparent) == inodes::source_path(
            nodes,
            newparent,
        ));
        if let RenameAction::Directory { old_path, new_path, .. } = action {
            paths::source_path_follows_metadata(before.inode_mgr, ino);
            assert forall|k: u64|
                (#[trigger] after.inode_mgr.data_inodes@.contains_key(k)
                    == before.inode_mgr.data_inodes@.contains_key(k)) && (
                before.inode_mgr.data_inodes@.contains_key(k) ==> entry_has_moved(
                    before.inode_mgr.data_inodes@[k],
                    after.inode_mgr.data_inodes@[k],
                    old_path@,
                    new_path@,
                )) by {
                seen_by_its_view(before, k);
                seen_by_its_view(after, k);
                if before.inode_mgr.data_inodes@.contains_key(k) {
                    match before.inode_mgr.data_inodes@[k] {
                        DataInode::SourcePathDir { path } => {
                            moved_path_has_moved(path@, old_path@, new_path@);
                        },
                        DataInode::TorrentRoot { source_path, .. } => {
                            moved_path_has_moved(source_path@, old_path@, new_path@);
                        },
                        _ => {},
                    }
                }
            }
            assert(data_has_moved(before, after, old_path@, new_path@));
        } else {
            assert forall|k: u64|
                (#[trigger] after.inode_mgr.data_inodes@.contains_key(k) <==>
                before.inode_mgr.data_inodes@.contains_key(k)) && (
                after.inode_mgr.data_inodes@.contains_key(k)
                    ==> after.inode_mgr.data_inodes@[k]@ == before.inode_mgr.data_inodes@[k]@) by {
                seen_by_its_view(before, k);
                seen_by_its_view(after, k);
            }
            assert(data_goes(before, after, |d: DataInode| false));
        }
    }
}

/// What a `.torrent` file may not be left with: nothing, too much, or what is no torrent.
pub open spec fn is_bad_torrent(data: Seq<u8>, parses: bool) -> bool {
    data.len() == 0 || data.len() > 10 * 1024 * 1024 || !parses
}

/// Releasing a good `.torrent` file hands over its bytes, its name and the path of its directory,
/// unless a torrent is being added at that path; a bad one disappears, and only that one. Where the
/// file was good, so was its flush, and where it was bad the flush said so.
pub proof fn released_torrent_is_handed_over(
    before: FsService,
    after: FsService,
    fh: u64,
    ino: u64,
    parses: bool,
    flushed: FsResult<()>,
    r: ReleaseAction,
)
    requires
        before.wf(),
        before.releases(fh, parses, r, &after),
        before.flushes(ino, parses, flushed),
        before.inode_mgr.open_files@.contains_key(fh),
        before.inode_mgr.open_files@[fh] == ino,
    ensures
        tree_stays_but(before, after, ino),
        before.inode_mgr.inodes@.contains_key(ino) ==> match before.inode_mgr.inodes@[ino] {
            InodeData::File { data, name, parent } => if !text::ends(name@, ".torrent"@) {
                &&& r is Nothing
                &&& flushed is Ok
                &&& is_file(after, ino, data@)
            } else if is_bad_torrent(data@, parses) {
                &&& r is Nothing
                &&& !after.inode_mgr.inodes@.contains_key(ino)
                &&& if data@.len() <= 10 * 1024 * 1024 {
                    flushed == Err::<(), FsError>(FsError::InvalidArgument)
                } else {
                    flushed matches Err(FsError::FileTooLarge(_))
                }
            } else {
                &&& flushed is Ok
                &&& is_file(after, ino, data@)
                &&& match r {
                    ReleaseAction::AddTorrent { data: told, source_path, name: called } => {
                        &&& told@ == data@
                        &&& called@ == name@
                        &&& source_path@ == inodes::source_path(before.nodes(), parent)
                        &&& !before.processing_torrents@.contains_key(source_path@)
                        &&& after.processing_torrents@.contains_key(source_path@)
                    },
                    _ => before.processing_torrents@.contains_key(
                        inodes::source_path(before.nodes(), parent),
                    ),
                }
            },
            _ => r is Nothing && flushed is Ok,
        },
{
    let nodes = before.nodes();
    seen_by_its_view(before, ino);
    seen_by_its_view(after, ino);
    assert(after.nodes().remove(ino) =~= nodes.remove(ino));
    others_stay(before, after, ino);
}

/// A handle leads to the inode that was opened: what was written below `metadata/` and released
/// through it is the file that was opened. Handles that were out before lead where they led.
pub proof fn opened_handle_leads_to_the_file(
    before: FsService,
    after: FsService,
    ino: u64,
    fh: u64,
    r: FsResult<OpenOutcome>,
)
    requires
        fh > 0,
        fh == before.inode_mgr.next_fh,
        forall|k: u64| #[trigger] before.inode_mgr.open_files@.contains_key(k) ==> k < fh,
        r == before.opens(ino, fh),
        before.keeps_handle(ino, r, &after),
        below_metadata(ino) || (ino >= DATA_TORRENT_INO_BASE && ino < STATS_INO_OFFSET),
    ensures
        match r {
            Ok(o) => {
                let is_file = before.inode_mgr.data_inodes@.contains_key(ino)
                    && before.inode_mgr.data_inodes@[ino] is TorrentFile;
                &&& below_metadata(ino) ==> o.fh != 0 && !o.direct_io
                    && before.inode_mgr.inodes@.contains_key(ino)
                &&& ino >= DATA_TORRENT_INO_BASE ==> o.direct_io == is_file && (o.fh != 0)
                    == is_file
                &&& o.fh != 0 ==> after.inode_mgr.open_files@.contains_key(o.fh)
                    && after.inode_mgr.open_files@[o.fh] == ino
            },
            Err(e) => e == FsError::NotFound && below_metadata(ino)
                && !before.inode_mgr.inodes@.contains_key(ino),
        },
        forall|k: u64| #[trigger]
            before.inode_mgr.open_files@.contains_key(k)
                ==> after.inode_mgr.open_files@.contains_key(k) && after.inode_mgr.open_files@[k]
                == before.inode_mgr.open_files@[k],
{
    seen_by_its_view(before, ino);
}

/// A listing of a directory of `metadata/` begins with the directory and its parent, counts its
/// entries from one, and shows each of its entries once, under its own name and as what it is.
pub proof fn directory_shows_its_entries(s: FsService, dir: u64, entries: Vec<DirEntry>)
    requires
        s.wf(),
        below_metadata(dir) || dir == METADATA_INO,
        s.nodes().dom().finite() && s.nodes().dom().len() < i64::MAX - 2,
        s.lists(dir, 0, ReaddirStep::Entries(entries)),
    ensures
        data_laws::well_headed(entries@, dir),
        entries@[1].ino == s.nodes()[dir].parent(),
        forall|k: int|
            2 <= k < entries@.len() ==> {
                let ino = (#[trigger] entries@[k]).ino;
                &&& s.inode_mgr.inodes@.contains_key(ino)
                &&& match s.inode_mgr.inodes@[ino] {
                    InodeData::Directory { parent, name } => parent == dir && entries@[k].name@
                        == name@ && entries@[k].kind == FileKind::Directory,
                    InodeData::File { parent, name, .. } => parent == dir && entries@[k].name@
                        == name@ && entries@[k].kind == FileKind::RegularFile,
                }
            },
        forall|ino: u64|
            (#[trigger] s.inode_mgr.inodes@.contains_key(ino)) && s.nodes()[ino].parent() == dir
                && s.nodes()[ino].name().len() > 0 ==> exists|k: int|
                2 <= k < entries@.len() && (#[trigger] entries@[k]).ino == ino,
        forall|j: int, k: int|
            2 <= j < k < entries@.len() ==> (#[trigger] entries@[j]).ino != (
            #[trigger] entries@[k]).ino,
{
    let nodes = s.nodes();
    let children = choose|children: Seq<u64>| #[trigger]
        fs_service::are_children(nodes, dir, children) && fs_service::entry_views(entries@)
            == fs_service::listed_after(fs_service::listing(nodes, dir, children), 0);
    let all = fs_service::listing(nodes, dir, children);
    children.unique_seq_to_set();
    assert(children.to_set().subset_of(nodes.dom())) by {
        assert forall|k: u64| #[trigger] children.to_set().contains(k) implies nodes.dom().contains(
            k,
        ) by {
            assert(children.contains(k));
        }
    }
    vstd::set_lib::lemma_len_subset(children.to_set(), nodes.dom());
    fs_service::listings_count_entries(nodes, dir, children);
    fs_service::listing_resumes(all, 0);
    let views = fs_service::entry_views(entries@);
    assert(views =~= all) by {
        assert(all.skip(0) =~= all);
    }
    assert(entries@.len() == all.len());
    assert(views[0] == entries@[0]@);
    assert(views[1] == entries@[1]@);
    assert forall|k: int| 2 <= k < entries@.len() implies (#[trigger] entries@[k])@ == all[k]
        && entries@[k].ino == children[k - 2] && nodes.contains_key(entries@[k].ino)
        && nodes[entries@[k].ino].parent() == dir by {
        assert(views[k] == entries@[k]@);
        assert(children.contains(children[k - 2]));
    }
    assert forall|k: int| 0 <= k < entries@.len() implies (#[trigger] entries@[k]).offset == k
        + 1 by {
        assert(views[k] == entries@[k]@);
        assert(all[k].offset == k + 1);
    }
    assert forall|k: int| 2 <= k < entries@.len() implies {
        let ino = (#[trigger] entries@[k]).ino;
        &&& s.inode_mgr.inodes@.contains_key(ino)
        &&& match s.inode_mgr.inodes@[ino] {
            InodeData::Directory { parent, name } => parent == dir && entries@[k].name@ == name@
                && entries@[k].kind == FileKind::Directory,
            InodeData::File { parent, name, .. } => parent == dir && entries@[k].name@ == name@
                && entries@[k].kind == FileKind::RegularFile,
        }
    } by {
        seen_by_its_view(s, entries@[k].ino);
        assert(entries@[k]@ == all[k]);
    }
    assert forall|ino: u64|
        (#[trigger] s.inode_mgr.inodes@.contains_key(ino)) && nodes[ino].parent() == dir
            && nodes[ino].name().len() > 0 implies exists|k: int|
        2 <= k < entries@.len() && (#[trigger] entries@[k]).ino == ino by {
        seen_by_its_view(s, ino);
        assert(children.contains(ino));
        let k = children.index_of(ino) + 2;
        assert(entries@[k]@ == all[k]);
    }
    assert forall|j: int, k: int| 2 <= j < k < entries@.len() implies (#[trigger] entries@[j]).ino
        != (#[trigger] entries@[k]).ino by {
        assert(entries@[j]@ == all[j]);
        assert(entries@[k]@ == all[k]);
    }
}

/// A removal below `metadata/` is refused for what stands there alone: nothing, a file in place of a
/// directory or a directory in place of a file, a directory that is not empty, or a name that is none
/// of a torrent. What is not refused is done.
pub proof fn refused_removal_has_its_reason(
    s: FsService,
    after: FsService,
    parent: u64,
    name: Seq<char>,
    ino: u64,
    removed: FsResult<String>,
    planned: FsResult<UnlinkPlan>,
)
    requires
        s.wf(),
        inodes::unique_names(s.nodes()),
        below_metadata(parent) || parent == METADATA_INO,
        inodes::beneath(s.nodes(), parent, METADATA_INO),
        s.removes_dir(parent, name, removed, &after),
        s.plans_unlink(parent, name, planned),
    ensures
        inodes::is_child(s.nodes(), ino, parent, name) ==> match s.inode_mgr.inodes@[ino] {
            InodeData::File { .. } => {
                &&& removed == Err::<String, FsError>(FsError::NotDirectory)
                &&& if text::ends(name, ".torrent"@) {
                    planned matches Ok(plan) && plan.ino == ino
                } else {
                    planned == Err::<UnlinkPlan, FsError>(FsError::PermissionDenied)
                }
            },
            InodeData::Directory { .. } => {
                &&& planned == Err::<UnlinkPlan, FsError>(
                    if text::ends(name, ".torrent"@) {
                        FsError::IsDirectory
                    } else {
                        FsError::PermissionDenied
                    },
                )
                &&& (exists|k: u64| #[trigger]
                    s.inode_mgr.inodes@.contains_key(k) && s.nodes()[k].parent() == ino)
                    ==> removed == Err::<String, FsError>(FsError::DirectoryNotEmpty)
                &&& (forall|k: u64| #[trigger]
                    s.inode_mgr.inodes@.contains_key(k) ==> s.nodes()[k].parent() != ino)
                    ==> removed is Ok
            },
        },
        (forall|k: u64| !#[trigger] inodes::is_child(s.nodes(), k, parent, name)) ==> removed
            == Err::<String, FsError>(FsError::NotFound) && planned == (if text::ends(
            name,
            ".torrent"@,
        ) {
            Err::<UnlinkPlan, FsError>(FsError::NotFound)
        } else {
            Err(FsError::PermissionDenied)
        }),
        removed is Err ==> after.inode_mgr == s.inode_mgr,
{
    let nodes = s.nodes();
    if inodes::is_child(nodes, ino, parent, name) {
        seen_by_its_view(s, ino);
        assert forall|k: u64| #[trigger] inodes::is_child(nodes, k, parent, name) implies k
            == ino by {
            fs_service::unique_names_one_child(nodes, k, ino, parent, name);
        }
        assert forall|k: u64|
            #![trigger nodes.contains_key(k)]
            #![trigger s.inode_mgr.inodes@.contains_key(k)]
            nodes.contains_key(k) == s.inode_mgr.inodes@.contains_key(k) by {
            seen_by_its_view(s, k);
        }
    }
}

/// A rename below `metadata/` is done where something stands under the old name and nothing under the
/// new one, a file only from one torrent's name to another; else it is refused, and changes nothing.
pub proof fn refused_rename_has_its_reason(
    s: FsService,
    after: FsService,
    parent: u64,
    name: Seq<char>,
    newparent: u64,
    newname: Seq<char>,
    ino: u64,
    r: FsResult<RenameAction>,
)
    requires
        s.wf(),
        inodes::unique_names(s.nodes()),
        below_metadata(parent) || parent == METADATA_INO,
        below_metadata(newparent) || newparent == METADATA_INO,
        inodes::beneath(s.nodes(), parent, METADATA_INO),
        inodes::beneath(s.nodes(), newparent, METADATA_INO),
        s.renames(parent, name, newparent, newname, r, &after),
    ensures
        r is Err ==> after.inode_mgr == s.inode_mgr,
        (forall|k: u64| !#[trigger] inodes::is_child(s.nodes(), k, parent, name)) ==> r == Err::<
            RenameAction,
            FsError,
        >(FsError::NotFound),
        inodes::is_child(s.nodes(), ino, parent, name) ==> {
            let taken = exists|k: u64| #[trigger]
                inodes::is_child(s.nodes(), k, newparent, newname) && k != ino;
            let same = parent == newparent && name == newname;
            &&& taken ==> r == Err::<RenameAction, FsError>(FsError::AlreadyExists)
            &&& same ==> r == Ok::<RenameAction, FsError>(RenameAction::Nothing)
            &&& !taken && !same ==> match s.inode_mgr.inodes@[ino] {
                InodeData::Directory { .. } => r matches Ok(RenameAction::Directory { .. }),
                InodeData::File { .. } => if text::ends(name, ".torrent"@) && text::ends(
                    newname,
                    ".torrent"@,
                ) {
                    r matches Ok(RenameAction::File { .. })
                } else {
                    r == Err::<RenameAction, FsError>(FsError::PermissionDenied)
                },
            }
        },
{
    let nodes = s.nodes();
    inodes::beneath_unfold(nodes, parent, METADATA_INO);
    inodes::beneath_unfold(nodes, newparent, METADATA_INO);
    if inodes::is_child(nodes, ino, parent, name) {
        seen_by_its_view(s, ino);
        let found = choose|k: u64| #[trigger]
            inodes::is_child(nodes, k, parent, name) && s.renames_ino(
                k,
                parent,
                newparent,
                newname,
                r,
                &after,
            );
        assert(inodes::is_child(nodes, found, parent, name));
        fs_service::unique_names_one_child(nodes, found, ino, parent, name);
        if exists|t: u64| #[trigger] inodes::is_child(nodes, t, newparent, newname) {
            let t = choose|t: u64| #[trigger]
                inodes::is_child(nodes, t, newparent, newname) && r == (if t == found {
                    Ok::<RenameAction, FsError>(RenameAction::Nothing)
                } else {
                    Err(FsError::AlreadyExists)
                });
            assert(inodes::is_child(nodes, t, newparent, newname));
            assert forall|k: u64| #[trigger]
                inodes::is_child(nodes, k, newparent, newname) implies k == t by {
                fs_service::unique_names_one_child(nodes, k, t, newparent, newname);
            }
        } else {
            assert(!inodes::is_child(nodes, ino, newparent, newname));
        }
    }
}

} // verus!

//! What holds of the filesystem's operations together.

use vstd::prelude::*;

use super::fs_service;
use super::fs_service::{
    AttrStep,
    FsService,
    LookupStep,
    ReadStep,
    ReaddirStep,
    RenameAction,
    UnlinkPlan,
};
use super::fs_types::{DirEntry, Entry, Listed};
use super::inodes;
use super::inodes::{InodeManager, Node, DATA_TORRENT_INO_BASE, METADATA_INO, ROOT_INO};
use crate::domain::fs_error::{FsError, FsResult};

verus! {

/// A directory of `metadata/`, or `metadata/` itself.
pub open spec fn in_metadata(s: FsService, ino: u64) -> bool {
    &&& inodes::beneath(s.nodes(), ino, METADATA_INO)
    &&& !InodeManager::in_data_namespace(ino)
    &&& !s.data_nodes().contains_key(ino)
}

proof fn metadata_is_not_the_root(s: FsService, ino: u64)
    requires
        s.wf(),
        in_metadata(s, ino),
    ensures
        ino != ROOT_INO,
        s.nodes().contains_key(ino),
{
    inodes::beneath_unfold(s.nodes(), ino, METADATA_INO);
}

/// Nothing can be made, removed or renamed below `data/`, nor renamed into it, and a failed
/// attempt changes nothing.
pub proof fn data_is_read_only(
    s: FsService,
    after: FsService,
    ino: u64,
    name: Seq<char>,
    other: u64,
    newname: Seq<char>,
    file: bool,
    unlinked: FsResult<UnlinkPlan>,
    removed: FsResult<String>,
    renamed: FsResult<RenameAction>,
)
    requires
        InodeManager::in_data_namespace(ino),
    ensures
        fs_service::new_entry_error(s.nodes(), ino, name, file) == Some(
            FsError::ReadOnlyFileSystem,
        ),
        s.plans_unlink(ino, name, unlinked) ==> unlinked == Err::<UnlinkPlan, FsError>(
            FsError::ReadOnlyFileSystem,
        ),
        s.removes_dir(ino, name, removed, &after) ==> removed == Err::<String, FsError>(
            FsError::ReadOnlyFileSystem,
        ) && after.inode_mgr == s.inode_mgr,
        s.renames(ino, name, other, newname, renamed, &after) || s.renames(
            other,
            newname,
            ino,
            name,
            renamed,
            &after,
        ) ==> renamed == Err::<RenameAction, FsError>(FsError::ReadOnlyFileSystem)
            && after.inode_mgr == s.inode_mgr,
{
}

proof fn listed_comes_from_the_listing(all: Seq<Listed>, offset: i64, i: int) -> (j: int)
    requires
        0 <= i < fs_service::listed_after(all, offset).len(),
    ensures
        0 <= j < all.len(),
        all[j] == fs_service::listed_after(all, offset)[i],
    decreases all.len(),
{
    reveal(Seq::filter);
    let head = all.drop_last();
    let kept = fs_service::listed_after(head, offset);
    if i < kept.len() {
        listed_comes_from_the_listing(head, offset, i)
    } else {
        all.len() - 1
    }
}

/// What a listing of a directory of `metadata/` shows, a lookup of its name finds.
pub proof fn listed_entry_is_found(
    s: FsService,
    dir: u64,
    offset: i64,
    entries: Vec<DirEntry>,
    i: int,
    found: LookupStep,
)
    requires
        s.wf(),
        inodes::unique_names(s.nodes()),
        in_metadata(s, dir),
        s.lists(dir, offset, ReaddirStep::Entries(entries)),
        0 <= i < entries@.len(),
        entries@[i].offset > 2,
        s.looks_up(dir, entries@[i].name@, found),
    ensures
        found matches LookupStep::Answer(Some(e)) && e.ino == entries@[i].ino && e.attr.kind
            == entries@[i].kind,
{
    metadata_is_not_the_root(s, dir);
    let nodes = s.nodes();
    let children = choose|children: Seq<u64>| #[trigger]
        fs_service::are_children(nodes, dir, children) && fs_service::entry_views(entries@)
            == fs_service::listed_after(fs_service::listing(nodes, dir, children), offset);
    let all = fs_service::listing(nodes, dir, children);
    assert(fs_service::entry_views(entries@)[i] == entries@[i]@);
    let j = listed_comes_from_the_listing(all, offset, i);
    let child = children[j - 2];
    assert(children.contains(child));
    assert(inodes::is_child(nodes, child, dir, nodes[child].name()));
    match found {
        LookupStep::Answer(Some(e)) => {
            fs_service::unique_names_one_child(nodes, e.ino, child, dir, nodes[child].name());
        },
        _ => {},
    }
}

/// What a lookup in a directory of `metadata/` finds, a listing of the directory shows.
pub proof fn found_entry_is_listed(
    s: FsService,
    dir: u64,
    name: Seq<char>,
    e: Entry,
    entries: Vec<DirEntry>,
)
    requires
        s.wf(),
        in_metadata(s, dir),
        s.nodes()[dir] is Directory,
        s.nodes().dom().finite() && s.nodes().dom().len() < i64::MAX - 2,
        name.len() > 0,
        s.looks_up(dir, name, LookupStep::Answer(Some(e))),
        s.lists(dir, 0, ReaddirStep::Entries(entries)),
    ensures
        exists|i: int|
            0 <= i < entries@.len() && (#[trigger] entries@[i]).ino == e.ino && entries@[i].name@
                == name,
{
    metadata_is_not_the_root(s, dir);
    let nodes = s.nodes();
    let children = choose|children: Seq<u64>| #[trigger]
        fs_service::are_children(nodes, dir, children) && fs_service::entry_views(entries@)
            == fs_service::listed_after(fs_service::listing(nodes, dir, children), 0);
    let all = fs_service::listing(nodes, dir, children);
    assert(children.contains(e.ino));
    let k = children.index_of(e.ino);
    children.unique_seq_to_set();
    assert(children.to_set().subset_of(nodes.dom()));
    vstd::set_lib::lemma_len_subset(children.to_set(), nodes.dom());
    assert(all[k + 2].name == name && all[k + 2].ino == e.ino);
    let shown = |l: Listed| l.offset > 0i64;
    assert(fs_service::listed_after(all, 0) =~= all.filter(shown));
    all.lemma_filter_contains(shown, k + 2);
    let i = all.filter(shown).index_of(all[k + 2]);
    assert(fs_service::entry_views(entries@)[i] == entries@[i]@);
}

/// A lookup in `metadata/` tells the same attributes as a request for those of the inode.
pub proof fn lookup_and_getattr_agree(
    s: FsService,
    dir: u64,
    name: Seq<char>,
    e: Entry,
    told: AttrStep,
)
    requires
        s.wf(),
        in_metadata(s, dir),
        0 < e.ino < DATA_TORRENT_INO_BASE,
        s.looks_up(dir, name, LookupStep::Answer(Some(e))),
        s.has_attr(e.ino, told),
    ensures
        told == AttrStep::Answer(e.attr),
{
    metadata_is_not_the_root(s, dir);
    inodes::beneath_unfold(s.nodes(), dir, METADATA_INO);
    inodes::beneath_unfold(s.nodes(), e.ino, METADATA_INO);
    inodes::beneath_unfold(s.nodes(), 0, METADATA_INO);
}

/// A directory that was made and is removed again leaves the tree as it was.
pub proof fn rmdir_undoes_mkdir(
    before: FsService,
    made: FsService,
    after: FsService,
    parent: u64,
    name: Seq<char>,
    r: FsResult<String>,
)
    requires
        before.wf(),
        fs_service::new_entry_error(before.nodes(), parent, name, false) is None,
        made.nodes() == before.nodes().insert(
            before.inode_mgr.next_ino,
            Node::Directory { parent, name },
        ),
        made.removes_dir(parent, name, r, &after),
    ensures
        r is Ok,
        after.nodes() == before.nodes(),
{
    let nodes = before.nodes();
    let ino = before.inode_mgr.next_ino;
    let node = Node::Directory { parent, name };
    inodes::beneath_unfold(nodes, parent, METADATA_INO);
    assert(nodes.contains_key(parent));
    inodes::fresh_entry_keeps_tree(nodes, ino, node);
    assert(inodes::is_child(made.nodes(), ino, parent, name));
    assert forall|k: u64| #[trigger] inodes::is_child(made.nodes(), k, parent, name) implies k
        == ino by {
        if k != ino {
            assert(!inodes::is_child(nodes, k, parent, name));
        }
    }
    assert forall|k: u64| #[trigger] made.nodes().contains_key(k) implies made.nodes()[k].parent()
        != ino by {
        if k != ino {
            assert(nodes.contains_key(k));
        }
    }
    assert(nodes.insert(ino, node).remove(ino) =~= nodes);
}

/// A file that was removed is not found any more.
pub proof fn removed_file_is_not_found(
    before: FsService,
    after: FsService,
    dir: u64,
    name: Seq<char>,
    plan: UnlinkPlan,
    found: LookupStep,
)
    requires
        before.wf(),
        inodes::unique_names(before.nodes()),
        in_metadata(before, dir),
        before.plans_unlink(dir, name, Ok::<UnlinkPlan, FsError>(plan)),
        after.nodes() == before.nodes().remove(plan.ino),
        !after.data_nodes().contains_key(dir),
        after.looks_up(dir, name, found),
    ensures
        found == LookupStep::Answer(None),
{
    metadata_is_not_the_root(before, dir);
    assert(inodes::is_child(before.nodes(), plan.ino, dir, name));
    assert forall|k: u64| !#[trigger] inodes::is_child(after.nodes(), k, dir, name) by {
        if inodes::is_child(after.nodes(), k, dir, name) {
            assert(inodes::is_child(before.nodes(), k, dir, name));
        }
    }
}

/// What was renamed is found under its new name with what it held, and not under its old name.
pub proof fn renamed_entry_has_moved(
    before: FsService,
    after: FsService,
    parent: u64,
    name: Seq<char>,
    newparent: u64,
    newname: Seq<char>,
    action: RenameAction,
)
    requires
        inodes::unique_names(before.nodes()),
        before.renames(
            parent,
            name,
            newparent,
            newname,
            Ok::<RenameAction, FsError>(action),
            &after,
        ),
        !(action is Nothing),
    ensures
        forall|k: u64| !#[trigger] inodes::is_child(after.nodes(), k, parent, name),
        exists|ino: u64|
            {
                &&& #[trigger] inodes::is_child(before.nodes(), ino, parent, name)
                &&& inodes::is_child(after.nodes(), ino, newparent, newname)
                &&& after.nodes().remove(ino) == before.nodes().remove(ino)
                &&& before.nodes()[ino] is File ==> after.nodes()[ino] is File
                    && fs_service::file_data(after.nodes()[ino]) == fs_service::file_data(
                    before.nodes()[ino],
                )
            },
{
    let nodes = before.nodes();
    let r = Ok::<RenameAction, FsError>(action);
    let ino = choose|ino: u64| #[trigger]
        inodes::is_child(nodes, ino, parent, name) && before.renames_ino(
            ino,
            parent,
            newparent,
            newname,
            r,
            &after,
        );
    assert(inodes::is_child(nodes, ino, parent, name));
    assert(after.nodes().remove(ino) =~= nodes.remove(ino));
    assert forall|k: u64| !#[trigger] inodes::is_child(after.nodes(), k, parent, name) by {
        if inodes::is_child(after.nodes(), k, parent, name) {
            if k == ino {
                assert(inodes::is_child(nodes, ino, newparent, newname));
            } else {
                assert(after.nodes().remove(ino).contains_key(k));
                assert(nodes.remove(ino)[k] == after.nodes().remove(ino)[k]);
                fs_service::unique_names_one_child(nodes, k, ino, parent, name);
            }
        }
    }
}

/// What is read from a file where something was written is what was written.
pub proof fn written_bytes_are_read_back(
    before: FsService,
    after: FsService,
    ino: u64,
    offset: i64,
    data: Seq<u8>,
    read: ReadStep,
)
    requires
        before.wf(),
        inodes::FIRST_FREE_INO <= ino < DATA_TORRENT_INO_BASE,
        before.nodes().contains_key(ino),
        before.nodes()[ino] is File,
        data.len() <= u32::MAX,
        after.nodes() == before.nodes().insert(
            ino,
            Node::File {
                parent: before.nodes()[ino].parent(),
                name: before.nodes()[ino].name(),
                data: fs_service::written(
                    fs_service::file_data(before.nodes()[ino]),
                    inodes::as_unsigned(offset),
                    data,
                ),
            },
        ),
        after.reads(ino, offset, data.len() as u32, read),
    ensures
        read matches ReadStep::Ready(bytes) && bytes@ == data,
{
    fs_service::read_gives_back_write(
        fs_service::file_data(before.nodes()[ino]),
        inodes::as_unsigned(offset),
        data,
    );
}

} // verus!

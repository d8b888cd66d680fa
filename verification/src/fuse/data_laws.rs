//! What holds of the entries below `data/` and of what is read from them.

use std::collections::hash_map::DefaultHasher;

use vstd::prelude::*;
use vstd::std_specs::hash::DefaultHasherAdditionalSpecFns;

use super::fs_service;
use super::fs_service::{AttrStep, FsService, ReadStep};
use super::fs_types::{DirEntry, FileKind};
use super::inodes;
use super::inodes::{
    DataInode, DataNode, InodeData, InodeManager, DATA_DIR_INO_BASE, DATA_FILE_INO_BASE, DATA_INO,
    DATA_TORRENT_INO_BASE, ROOT_INO, STATS_INO, STATS_INO_OFFSET,
};
use super::lookup;
use super::lookup::{DataQuery, DataRows};
use crate::text;

verus! {

broadcast use vstd::std_specs::hash::group_hash_axioms;

/// An inode number below `data/` that is not the one of a `.stats` file.
pub open spec fn below_data(ino: u64) -> bool {
    ino >= DATA_TORRENT_INO_BASE && !(STATS_INO_OFFSET <= ino < STATS_INO_OFFSET + 10_000_000)
}

/// A read of a file of a torrent asks for the bytes that the reader named: of that file, from the
/// offset on, as many as asked for or as there are. A read at or behind the end gives nothing.
pub proof fn read_asks_for_the_named_bytes(
    s: FsService,
    ino: u64,
    offset: i64,
    size: u32,
    r: ReadStep,
    content: Seq<u8>,
)
    requires
        s.reads(ino, offset, size, r),
        below_data(ino),
        s.inode_mgr.data_inodes@.contains_key(ino),
        s.inode_mgr.data_inodes@[ino] is TorrentFile,
        s.inode_mgr.data_inodes@[ino]->TorrentFile_size == content.len(),
        offset >= 0,
    ensures
        match r {
            ReadStep::Torrent { torrent_id, file_id, offset: from, size: count } => {
                &&& torrent_id == s.inode_mgr.data_inodes@[ino]->TorrentFile_torrent_id
                &&& file_id == s.inode_mgr.data_inodes@[ino]->TorrentFile_file_id
                &&& offset < content.len()
                &&& from == offset
                &&& from + count <= content.len()
                &&& count == size || count < size && from + count == content.len()
                &&& content.subrange(from as int, from + count) == content.skip(
                    offset as int,
                ).take(count as int)
            },
            ReadStep::Ready(bytes) => offset >= content.len() && bytes@.len() == 0,
            _ => false,
        },
{
    let node = s.inode_mgr.data_inodes@[ino];
    assert(s.data_nodes()[ino] == node@);
    if let ReadStep::Torrent { offset: from, size: count, .. } = r {
        assert(content.subrange(from as int, from + count) =~= content.skip(offset as int).take(
            count as int,
        ));
    }
}

/// Two reads of a file of a torrent, the second of which begins where the first one ends, ask for
/// what one read of both sizes asks for.
pub proof fn reads_in_turn_ask_for_all(
    s: FsService,
    ino: u64,
    offset: i64,
    size: u32,
    more: u32,
    first: ReadStep,
    second: ReadStep,
    both: ReadStep,
    content: Seq<u8>,
)
    requires
        s.reads(ino, offset, size, first),
        s.reads(ino, (offset + size) as i64, more, second),
        s.reads(ino, offset, (size + more) as u32, both),
        below_data(ino),
        s.inode_mgr.data_inodes@.contains_key(ino),
        s.inode_mgr.data_inodes@[ino] is TorrentFile,
        s.inode_mgr.data_inodes@[ino]->TorrentFile_size == content.len(),
        0 <= offset,
        offset + size < content.len(),
        size + more <= u32::MAX,
    ensures
        match (first, second, both) {
            (
                ReadStep::Torrent { offset: a, size: m, .. },
                ReadStep::Torrent { offset: b, size: n, .. },
                ReadStep::Torrent { offset: c, size: k, .. },
            ) => content.subrange(a as int, a + m) + content.subrange(b as int, b + n)
                == content.subrange(c as int, c + k),
            _ => false,
        },
{
    read_asks_for_the_named_bytes(s, ino, offset, size, first, content);
    read_asks_for_the_named_bytes(s, ino, (offset + size) as i64, more, second, content);
    read_asks_for_the_named_bytes(s, ino, offset, (size + more) as u32, both, content);
    let a = content.subrange(offset as int, offset + size);
    if let ReadStep::Torrent { offset: b, size: n, .. } = second {
        if let ReadStep::Torrent { offset: c, size: k, .. } = both {
            assert(a + content.subrange(b as int, b + n) =~= content.subrange(c as int, c + k));
        }
    }
}

/// A read of a file below `metadata/` gives the bytes that the reader named.
pub proof fn read_gives_the_named_bytes(
    s: FsService,
    ino: u64,
    offset: i64,
    size: u32,
    r: ReadStep,
)
    requires
        s.reads(ino, offset, size, r),
        STATS_INO < ino < DATA_TORRENT_INO_BASE,
        s.inode_mgr.inodes@.contains_key(ino),
        s.inode_mgr.inodes@[ino] is File,
        offset >= 0,
    ensures
        r matches ReadStep::Ready(bytes) && {
            let data = s.inode_mgr.inodes@[ino]->File_data@;
            if offset >= data.len() {
                bytes@.len() == 0
            } else {
                &&& offset + bytes@.len() <= data.len()
                &&& bytes@.len() == size || bytes@.len() < size && offset + bytes@.len()
                    == data.len()
                &&& forall|i: int|
                    0 <= i < bytes@.len() ==> #[trigger] bytes@[i] == data[offset + i]
            }
        },
{
    assert(s.nodes()[ino] == s.inode_mgr.inodes@[ino]@);
}

proof fn held_bytes_can_be_counted(s: FsService, ino: u64)
    requires
        s.inode_mgr.inodes@.contains_key(ino),
    ensures
        s.nodes().contains_key(ino),
        s.nodes()[ino] == s.inode_mgr.inodes@[ino]@,
        s.inode_mgr.inodes@[ino] matches InodeData::File { data, .. } ==> data@.len() <= u64::MAX,
{
    if let InodeData::File { data, .. } = s.inode_mgr.inodes@[ino] {
        assert(data@.len() == data.len());
    }
}

/// What can be read of an entry is told by its attributes: a read that begins before the size of a
/// file is answered with some of it, and one that begins there or behind it with nothing; a
/// directory cannot be read.
pub proof fn size_is_what_can_be_read(
    s: FsService,
    ino: u64,
    told: AttrStep,
    offset: i64,
    size: u32,
    r: ReadStep,
)
    requires
        s.has_attr(ino, told),
        s.reads(ino, offset, size, r),
        below_data(ino) && s.inode_mgr.data_inodes@.contains_key(ino) || STATS_INO < ino
            < DATA_TORRENT_INO_BASE && s.inode_mgr.inodes@.contains_key(ino),
        below_data(ino) && s.inode_mgr.data_inodes@[ino] is TorrentFile
            ==> s.inode_mgr.data_inodes@[ino]->TorrentFile_size >= 0,
        offset >= 0,
        size > 0,
    ensures
        told matches AttrStep::Answer(attr) && match attr.kind {
            FileKind::Directory => r is Failed,
            FileKind::RegularFile => match r {
                ReadStep::Torrent { offset: from, size: count, .. } => {
                    &&& below_data(ino)
                    &&& offset < attr.size
                    &&& 0 < count <= size
                    &&& from + count <= attr.size
                    &&& count < size ==> from + count == attr.size
                },
                ReadStep::Ready(bytes) => {
                    &&& bytes@.len() <= size
                    &&& below_data(ino) ==> offset >= attr.size
                    &&& bytes@.len() == 0 <==> offset >= attr.size
                    &&& 0 < bytes@.len() < size ==> offset + bytes@.len() == attr.size
                    &&& bytes@.len() == size ==> offset + bytes@.len() <= attr.size
                },
                _ => false,
            },
        },
{
    if below_data(ino) {
        assert(s.data_nodes()[ino] == s.inode_mgr.data_inodes@[ino]@);
    } else {
        held_bytes_can_be_counted(s, ino);
    }
}

/// The attributes of an entry below `data/`: a file of a torrent is a regular file of the size that
/// the catalogue recorded, everything else is a directory, and nothing can be written.
pub proof fn data_attributes_tell_the_entry(s: FsService, ino: u64, told: AttrStep)
    requires
        s.has_attr(ino, told),
        below_data(ino),
        s.inode_mgr.data_inodes@.contains_key(ino),
    ensures
        told matches AttrStep::Answer(attr) && attr.ino == ino && attr.perm & 0o222 == 0
            && match s.inode_mgr.data_inodes@[ino] {
            DataInode::TorrentFile { size, .. } => {
                &&& attr.kind == FileKind::RegularFile
                &&& size >= 0 ==> attr.size == size
                &&& attr.nlink == 1
                &&& attr.perm == 0o444
            },
            _ => {
                &&& attr.kind == FileKind::Directory
                &&& attr.size == 0
                &&& attr.nlink == 2
                &&& attr.perm == 0o555
            },
        },
{
    assert(s.data_nodes()[ino] == s.inode_mgr.data_inodes@[ino]@);
    assert(0o444u16 & 0o222 == 0) by (bit_vector);
    assert(0o555u16 & 0o222 == 0) by (bit_vector);
}

/// The attributes of an entry below `metadata/`: a file has the size of what it holds.
pub proof fn metadata_attributes_tell_the_entry(s: FsService, ino: u64, told: AttrStep)
    requires
        s.has_attr(ino, told),
        STATS_INO < ino < DATA_TORRENT_INO_BASE,
    ensures
        match told {
            AttrStep::Answer(attr) => {
                &&& s.inode_mgr.inodes@.contains_key(ino)
                &&& attr.ino == ino
                &&& match s.inode_mgr.inodes@[ino] {
                    InodeData::File { data, .. } => {
                        &&& attr.kind == FileKind::RegularFile
                        &&& attr.size == data@.len()
                        &&& attr.nlink == 1
                        &&& attr.perm == 0o444
                    },
                    InodeData::Directory { .. } => {
                        &&& attr.kind == FileKind::Directory
                        &&& attr.size == 0
                        &&& attr.nlink == 2
                        &&& attr.perm == 0o555 || attr.perm == 0o755
                    },
                }
            },
            AttrStep::Missing => !s.inode_mgr.inodes@.contains_key(ino),
            _ => false,
        },
{
    if s.inode_mgr.inodes@.contains_key(ino) {
        held_bytes_can_be_counted(s, ino);
    }
}

/// The question to the catalogue names the entry that is asked about: `data/` is the empty source
/// path, a directory of a source path is that path, a torrent and a directory of a torrent are
/// their rows. A file of a torrent has nothing below it.
pub proof fn question_names_the_entry(mgr: InodeManager, ino: u64, q: DataQuery)
    requires
        lookup::asks_for(mgr, ino, q),
        ino == DATA_INO || mgr.data_inodes@.contains_key(ino),
    ensures
        if ino == DATA_INO {
            q matches DataQuery::SourcePath { path } && path@.len() == 0
        } else {
            match mgr.data_inodes@[ino] {
                DataInode::SourcePathDir { path: own } => q matches DataQuery::SourcePath { path }
                    && path@ == own@,
                DataInode::TorrentRoot { torrent_id: own, source_path: at, .. } => q matches
                    DataQuery::TorrentRoot { torrent_id, source_path } && torrent_id == own
                    && source_path@ == at@,
                DataInode::TorrentDir { torrent_id: own, dir_id: dir, .. } => q matches
                    DataQuery::TorrentDir { torrent_id, dir_id } && torrent_id == own && dir_id
                    == dir,
                DataInode::TorrentFile { .. } => q is Nothing,
            }
        },
{
    if mgr.data_inodes@.contains_key(ino) {
        assert(mgr.data_nodes()[ino] == mgr.data_inodes@[ino]@);
    }
}

/// The path of `name` in the directory `path`.
pub open spec fn path_in(path: Seq<char>, name: Seq<char>) -> Seq<char> {
    if path.len() == 0 {
        name
    } else {
        path + seq!['/'] + name
    }
}

/// `ino` is `data/`, whose source path is empty, or the directory of the source path `path`.
pub open spec fn is_source_path(mgr: InodeManager, ino: u64, path: Seq<char>) -> bool {
    if ino == DATA_INO {
        path.len() == 0
    } else {
        &&& mgr.data_inodes@.contains_key(ino)
        &&& mgr.data_inodes@[ino] matches DataInode::SourcePathDir { path: own } && own@ == path
    }
}

/// `ino` is the root of a torrent or one of its directories.
pub open spec fn is_in_torrent(mgr: InodeManager, ino: u64, torrent: i64) -> bool {
    &&& ino != DATA_INO
    &&& mgr.data_inodes@.contains_key(ino)
    &&& match mgr.data_inodes@[ino] {
        DataInode::TorrentRoot { torrent_id, .. } => torrent_id == torrent,
        DataInode::TorrentDir { torrent_id, .. } => torrent_id == torrent,
        _ => false,
    }
}

/// Everything that was known of `data/` but the entry `ino` is known still.
pub open spec fn others_stay(before: InodeManager, after: InodeManager, ino: u64) -> bool {
    forall|k: u64|
        k != ino ==> (#[trigger] after.data_inodes@.contains_key(k)
            == before.data_inodes@.contains_key(k)) && (before.data_inodes@.contains_key(k)
            ==> after.data_inodes@[k]@ == before.data_inodes@[k]@)
}

proof fn known_by_its_view(mgr: InodeManager, ino: u64)
    ensures
        mgr.data_nodes().contains_key(ino) == mgr.data_inodes@.contains_key(ino),
        mgr.data_nodes().contains_key(ino) ==> mgr.data_nodes()[ino] == mgr.data_inodes@[ino]@,
{
}

proof fn insertion_leaves_others(
    before: InodeManager,
    after: InodeManager,
    ino: u64,
    node: DataNode,
)
    requires
        after.data_nodes() == before.data_nodes().insert(ino, node),
    ensures
        others_stay(before, after, ino),
        after.data_inodes@.contains_key(ino),
        after.data_inodes@[ino]@ == node,
{
    known_by_its_view(after, ino);
    assert forall|k: u64| k != ino implies (#[trigger] after.data_inodes@.contains_key(k)
        == before.data_inodes@.contains_key(k)) && (before.data_inodes@.contains_key(k)
        ==> after.data_inodes@[k]@ == before.data_inodes@[k]@) by {
        known_by_its_view(before, k);
        known_by_its_view(after, k);
        assert(before.data_nodes().insert(ino, node).contains_key(k)
            == before.data_nodes().contains_key(k));
    }
}

/// A lookup at a source path finds the directory of that name, and else the first torrent whose
/// file is called so, under the inode number of its row, and remembers what it found. It finds
/// nothing exactly where the catalogue has neither.
pub proof fn name_at_source_path_is_found(
    before: InodeManager,
    after: InodeManager,
    parent: u64,
    path: Seq<char>,
    name: Seq<char>,
    rows: &DataRows,
    r: Option<(u64, FileKind, u64)>,
)
    requires
        lookup::looks_up_data(before, after, parent, name, rows, r),
        rows.fit(),
        is_source_path(before, parent, path),
        rows.prefixes is Some,
        rows.torrents is Some,
    ensures
        ({
            let dirs = rows.prefixes->0@;
            let torrents = rows.torrents->0@;
            let is_dir = exists|i: int| 0 <= i < dirs.len() && (#[trigger] dirs[i])@ == name;
            let is_torrent = exists|i: int|
                0 <= i < torrents.len() && (#[trigger] torrents[i]).filename@ == name;
            match r {
                Some((ino, kind, size)) => {
                    &&& kind == FileKind::Directory
                    &&& size == 0
                    &&& others_stay(before, after, ino)
                    &&& after.data_inodes@.contains_key(ino)
                    &&& match after.data_inodes@[ino] {
                        DataInode::SourcePathDir { path: found } => {
                            &&& is_dir
                            &&& found@ == path_in(path, name)
                            &&& ino == inodes::source_path_dir_ino(found@)
                        },
                        DataInode::TorrentRoot {
                            torrent_id,
                            source_path,
                            name: title,
                            filename,
                        } => {
                            &&& !is_dir
                            &&& exists|i: int|
                                {
                                    &&& 0 <= i < torrents.len()
                                    &&& (#[trigger] torrents[i]).filename@ == name
                                    &&& forall|j: int|
                                        0 <= j < i ==> (#[trigger] torrents[j]).filename@ != name
                                    &&& torrent_id == torrents[i].id
                                    &&& source_path@ == torrents[i].source_path@
                                    &&& title@ == torrents[i].name@
                                    &&& filename@ == name
                                    &&& torrents[i].id >= 0 ==> ino == DATA_TORRENT_INO_BASE
                                        + torrents[i].id
                                }
                        },
                        _ => false,
                    }
                },
                None => !is_dir && !is_torrent,
            }
        }),
{
    let dirs = rows.prefixes->0@;
    let torrents = rows.torrents->0@;
    known_by_its_view(before, parent);
    reveal_strlit("/");
    assert("/"@ =~= seq!['/']);
    let names = text::views(dirs);
    if names.contains(name) {
        let i = names.index_of(name);
        assert(dirs[i]@ == name);
    } else {
        assert forall|i: int| 0 <= i < dirs.len() implies (#[trigger] dirs[i])@ != name by {
            assert(names.contains(names[i]));
        }
    }
    let files = lookup::filenames(torrents);
    lookup::first_place_is_first(files, name);
    match lookup::first_place(files, name) {
        Some(i) => {
            assert(torrents[i].filename@ == name);
            assert forall|j: int| 0 <= j < i implies (#[trigger] torrents[j]).filename@ != name by {
                assert(files[j] != name);
            }
        },
        None => {
            assert forall|i: int| 0 <= i < torrents.len() implies (
            #[trigger] torrents[i]).filename@ != name by {
                assert(files.contains(files[i]));
            }
        },
    }
    match lookup::data_lookup(before.data_nodes(), parent, name, rows) {
        Some((ino, node)) => {
            insertion_leaves_others(before, after, ino, node);
        },
        None => {},
    }
}

/// A lookup in a torrent finds the directory of that name, and else the first file called so, with
/// the size that the catalogue recorded, under the inode number of its row, and remembers what it
/// found. It finds nothing exactly where the catalogue has neither.
pub proof fn name_in_torrent_is_found(
    before: InodeManager,
    after: InodeManager,
    parent: u64,
    torrent: i64,
    name: Seq<char>,
    rows: &DataRows,
    r: Option<(u64, FileKind, u64)>,
)
    requires
        lookup::looks_up_data(before, after, parent, name, rows, r),
        rows.fit(),
        is_in_torrent(before, parent, torrent),
        rows.named_directory is Some,
        rows.files is Some,
    ensures
        ({
            let files = rows.files->0@;
            let is_file = exists|i: int|
                0 <= i < files.len() && (#[trigger] files[i]).name@ == name;
            match r {
                Some((ino, kind, size)) => {
                    &&& others_stay(before, after, ino)
                    &&& after.data_inodes@.contains_key(ino)
                    &&& match after.data_inodes@[ino] {
                        DataInode::TorrentDir { torrent_id, dir_id, name: title } => {
                            &&& kind == FileKind::Directory
                            &&& size == 0
                            &&& torrent_id == torrent
                            &&& rows.named_directory->0 matches Some(d) && {
                                &&& dir_id == d.id
                                &&& title@ == d.name@
                                &&& d.id >= 0 ==> ino == DATA_DIR_INO_BASE + d.id
                            }
                        },
                        DataInode::TorrentFile { torrent_id, file_id, name: title, size: known } => {
                            &&& kind == FileKind::RegularFile
                            &&& torrent_id == torrent
                            &&& rows.named_directory->0 is None
                            &&& exists|i: int|
                                {
                                    &&& 0 <= i < files.len()
                                    &&& (#[trigger] files[i]).name@ == name
                                    &&& forall|j: int|
                                        0 <= j < i ==> (#[trigger] files[j]).name@ != name
                                    &&& file_id == files[i].id
                                    &&& title@ == name
                                    &&& known == files[i].size
                                    &&& files[i].size >= 0 ==> size == files[i].size
                                    &&& files[i].id >= 0 ==> ino == DATA_FILE_INO_BASE
                                        + files[i].id
                                }
                        },
                        _ => false,
                    }
                },
                None => rows.named_directory->0 is None && !is_file,
            }
        }),
{
    let files = rows.files->0@;
    known_by_its_view(before, parent);
    let names = lookup::file_names(files);
    lookup::first_place_is_first(names, name);
    match lookup::first_place(names, name) {
        Some(i) => {
            assert(files[i].name@ == name);
            assert forall|j: int| 0 <= j < i implies (#[trigger] files[j]).name@ != name by {
                assert(names[j] != name);
            }
        },
        None => {
            assert forall|i: int| 0 <= i < files.len() implies (#[trigger] files[i]).name@
                != name by {
                assert(names.contains(names[i]));
            }
        },
    }
    match lookup::data_lookup(before.data_nodes(), parent, name, rows) {
        Some((ino, node)) => {
            insertion_leaves_others(before, after, ino, node);
        },
        None => {},
    }
}

/// What a lookup below `data/` told of an entry, its attributes tell afterwards.
pub proof fn data_lookup_and_getattr_agree(
    before: InodeManager,
    parent: u64,
    name: Seq<char>,
    rows: &DataRows,
    found: (u64, FileKind, u64),
    s: FsService,
    told: AttrStep,
)
    requires
        lookup::looks_up_data(before, s.inode_mgr, parent, name, rows, Some(found)),
        below_data(found.0),
        s.has_attr(found.0, told),
    ensures
        told matches AttrStep::Answer(attr) && attr.ino == found.0 && attr.kind == found.1
            && attr.size == found.2,
{
    known_by_its_view(s.inode_mgr, found.0);
}

/// One of the entries after the directory itself and its parent has this name, inode number and
/// kind.
pub open spec fn shows(entries: Seq<DirEntry>, name: Seq<char>, ino: int, kind: FileKind) -> bool {
    exists|k: int|
        2 <= k < entries.len() && (#[trigger] entries[k]).name@ == name && entries[k].ino == ino
            && entries[k].kind == kind
}

/// A listing begins with the directory itself and its parent, and counts its entries from one.
pub open spec fn well_headed(entries: Seq<DirEntry>, ino: u64) -> bool {
    &&& entries.len() >= 2
    &&& entries[0].name@ == "."@
    &&& entries[0].ino == ino
    &&& entries[0].kind == FileKind::Directory
    &&& entries[1].name@ == ".."@
    &&& entries[1].kind == FileKind::Directory
    &&& forall|k: int| 0 <= k < entries.len() ==> (#[trigger] entries[k]).offset == k + 1
}

proof fn listing_from_the_start(
    before: InodeManager,
    after: InodeManager,
    ino: u64,
    rows: &DataRows,
    entries: Vec<DirEntry>,
)
    requires
        lookup::lists_data(before, after, ino, 0, rows, Some(entries)),
        rows.fit(),
    ensures
        ({
            let children = lookup::data_children(before.data_nodes(), ino, rows)->0;
            let up = lookup::data_parent(before.data_nodes(), ino, rows);
            &&& entries@.len() == children.len() + 2
            &&& well_headed(entries@, ino)
            &&& entries@[1].ino == up
            &&& forall|k: int|
                2 <= k < entries@.len() ==> {
                    &&& (#[trigger] entries@[k]).name@ == children[k - 2].name
                    &&& entries@[k].ino == children[k - 2].ino
                    &&& entries@[k].kind == lookup::kind_of(children[k - 2].node)
                }
            &&& forall|i: int|
                0 <= i < children.len() ==> shows(
                    entries@,
                    (#[trigger] children[i]).name,
                    children[i].ino as int,
                    lookup::kind_of(children[i].node),
                )
        }),
{
    let children = lookup::data_children(before.data_nodes(), ino, rows)->0;
    let up = lookup::data_parent(before.data_nodes(), ino, rows);
    let all = lookup::data_listing(ino, up, children);
    lookup::data_listing_counts_entries(ino, up, children);
    fs_service::listing_resumes(all, 0);
    assert(all.skip(0) =~= all);
    let views = fs_service::entry_views(entries@);
    assert(views == all);
    assert forall|k: int| 0 <= k < entries@.len() implies #[trigger] entries@[k]@ == all[k] by {
        assert(views[k] == all[k]);
    }
    assert(entries@[0]@ == all[0] && entries@[1]@ == all[1]);
    assert forall|k: int| 0 <= k < entries@.len() implies (#[trigger] entries@[k]).offset == k
        + 1 by {
        assert(entries@[k]@ == all[k]);
    }
    assert forall|k: int| 2 <= k < entries@.len() implies {
        &&& (#[trigger] entries@[k]).name@ == children[k - 2].name
        &&& entries@[k].ino == children[k - 2].ino
        &&& entries@[k].kind == lookup::kind_of(children[k - 2].node)
    } by {
        assert(entries@[k]@ == all[k]);
    }
    assert forall|i: int| 0 <= i < children.len() implies shows(
        entries@,
        (#[trigger] children[i]).name,
        children[i].ino as int,
        lookup::kind_of(children[i].node),
    ) by {
        assert(entries@[i + 2].name@ == children[i].name);
    }
}

/// A listing of `data/` or of a source path shows every directory and every torrent that the
/// catalogue answered with, each under its name and inode number, and nothing else.
pub proof fn rows_at_source_path_are_listed(
    before: InodeManager,
    after: InodeManager,
    ino: u64,
    path: Seq<char>,
    rows: &DataRows,
    r: Option<Vec<DirEntry>>,
)
    requires
        lookup::lists_data(before, after, ino, 0, rows, r),
        rows.fit(),
        is_source_path(before, ino, path),
        rows.prefixes is Some,
        rows.torrents is Some,
    ensures
        ({
            let dirs = rows.prefixes->0@;
            let torrents = rows.torrents->0@;
            &&& r matches Some(entries) && {
                &&& well_headed(entries@, ino)
                &&& entries@.len() == 2 + dirs.len() + torrents.len()
                &&& forall|i: int|
                    0 <= i < dirs.len() ==> shows(
                        entries@,
                        (#[trigger] dirs[i])@,
                        inodes::source_path_dir_ino(path_in(path, dirs[i]@)) as int,
                        FileKind::Directory,
                    )
                &&& forall|i: int|
                    0 <= i < torrents.len() && (#[trigger] torrents[i]).id >= 0 ==> shows(
                        entries@,
                        torrents[i].filename@,
                        DATA_TORRENT_INO_BASE + torrents[i].id,
                        FileKind::Directory,
                    )
                &&& forall|k: int|
                    2 <= k < entries@.len() ==> (exists|i: int|
                        0 <= i < dirs.len() && (#[trigger] dirs[i])@ == (
                        #[trigger] entries@[k]).name@) || (exists|i: int|
                        0 <= i < torrents.len() && (#[trigger] torrents[i]).filename@
                            == entries@[k].name@)
            }
        }),
{
    let dirs = rows.prefixes->0@;
    let torrents = rows.torrents->0@;
    known_by_its_view(before, ino);
    reveal_strlit("/");
    assert("/"@ =~= seq!['/']);
    let entries = r->0;
    listing_from_the_start(before, after, ino, rows, entries);
    let children = lookup::data_children(before.data_nodes(), ino, rows)->0;
    let (first_dir, first_torrent) = if ino == DATA_INO {
        (torrents.len() as int, 0int)
    } else {
        (0int, dirs.len() as int)
    };
    assert forall|i: int| 0 <= i < dirs.len() implies shows(
        entries@,
        (#[trigger] dirs[i])@,
        inodes::source_path_dir_ino(path_in(path, dirs[i]@)) as int,
        FileKind::Directory,
    ) by {
        assert(children[first_dir + i].name == dirs[i]@);
    }
    assert forall|i: int|
        0 <= i < torrents.len() && (#[trigger] torrents[i]).id >= 0 implies shows(
        entries@,
        torrents[i].filename@,
        DATA_TORRENT_INO_BASE + torrents[i].id,
        FileKind::Directory,
    ) by {
        assert(children[first_torrent + i].name == torrents[i].filename@);
    }
    assert forall|k: int| 2 <= k < entries@.len() implies (exists|i: int|
        0 <= i < dirs.len() && (#[trigger] dirs[i])@ == (#[trigger] entries@[k]).name@) || (exists|
        i: int,
    |
        0 <= i < torrents.len() && (#[trigger] torrents[i]).filename@ == entries@[k].name@) by {
        if first_dir <= k - 2 < first_dir + dirs.len() {
            assert(dirs[k - 2 - first_dir]@ == entries@[k].name@);
        } else {
            assert(torrents[k - 2 - first_torrent].filename@ == entries@[k].name@);
        }
    }
}

/// A listing in a torrent shows every directory and every file that the catalogue answered with,
/// each under its name and inode number, and nothing else.
pub proof fn rows_in_torrent_are_listed(
    before: InodeManager,
    after: InodeManager,
    ino: u64,
    torrent: i64,
    rows: &DataRows,
    r: Option<Vec<DirEntry>>,
)
    requires
        lookup::lists_data(before, after, ino, 0, rows, r),
        rows.fit(),
        is_in_torrent(before, ino, torrent),
        rows.directories is Some,
        rows.files is Some,
    ensures
        ({
            let dirs = rows.directories->0@;
            let files = rows.files->0@;
            &&& r matches Some(entries) && {
                &&& well_headed(entries@, ino)
                &&& entries@.len() == 2 + dirs.len() + files.len()
                &&& forall|i: int|
                    0 <= i < dirs.len() && (#[trigger] dirs[i]).id >= 0 ==> shows(
                        entries@,
                        dirs[i].name@,
                        DATA_DIR_INO_BASE + dirs[i].id,
                        FileKind::Directory,
                    )
                &&& forall|i: int|
                    0 <= i < files.len() && (#[trigger] files[i]).id >= 0 ==> shows(
                        entries@,
                        files[i].name@,
                        DATA_FILE_INO_BASE + files[i].id,
                        FileKind::RegularFile,
                    )
                &&& forall|k: int|
                    2 <= k < entries@.len() ==> (exists|i: int|
                        0 <= i < dirs.len() && (#[trigger] dirs[i]).name@ == (
                        #[trigger] entries@[k]).name@ && entries@[k].kind == FileKind::Directory)
                        || (exists|i: int|
                        0 <= i < files.len() && (#[trigger] files[i]).name@ == entries@[k].name@
                            && entries@[k].kind == FileKind::RegularFile)
            }
        }),
{
    let dirs = rows.directories->0@;
    let files = rows.files->0@;
    known_by_its_view(before, ino);
    let entries = r->0;
    listing_from_the_start(before, after, ino, rows, entries);
    let children = lookup::data_children(before.data_nodes(), ino, rows)->0;
    assert forall|i: int| 0 <= i < dirs.len() && (#[trigger] dirs[i]).id >= 0 implies shows(
        entries@,
        dirs[i].name@,
        DATA_DIR_INO_BASE + dirs[i].id,
        FileKind::Directory,
    ) by {
        assert(children[i].name == dirs[i].name@);
    }
    assert forall|i: int| 0 <= i < files.len() && (#[trigger] files[i]).id >= 0 implies shows(
        entries@,
        files[i].name@,
        DATA_FILE_INO_BASE + files[i].id,
        FileKind::RegularFile,
    ) by {
        assert(children[dirs.len() + i].name == files[i].name@);
    }
    assert forall|k: int| 2 <= k < entries@.len() implies (exists|i: int|
        0 <= i < dirs.len() && (#[trigger] dirs[i]).name@ == (#[trigger] entries@[k]).name@
            && entries@[k].kind == FileKind::Directory) || (exists|i: int|
        0 <= i < files.len() && (#[trigger] files[i]).name@ == entries@[k].name@
            && entries@[k].kind == FileKind::RegularFile) by {
        if k - 2 < dirs.len() {
            assert(dirs[k - 2].name@ == entries@[k].name@);
        } else {
            assert(files[k - 2 - dirs.len()].name@ == entries@[k].name@);
        }
    }
}

/// A listing that is asked for again after some entries goes on with the next one.
pub proof fn data_listing_goes_on(
    before: InodeManager,
    after: InodeManager,
    later: InodeManager,
    ino: u64,
    offset: i64,
    rows: &DataRows,
    all: Vec<DirEntry>,
    rest: Option<Vec<DirEntry>>,
)
    requires
        lookup::lists_data(before, after, ino, 0, rows, Some(all)),
        lookup::lists_data(before, later, ino, offset, rows, rest),
        rows.fit(),
        0 <= offset <= all@.len(),
    ensures
        rest matches Some(entries) && {
            &&& entries@.len() == all@.len() - offset
            &&& forall|k: int|
                0 <= k < entries@.len() ==> {
                    &&& (#[trigger] entries@[k]).name@ == all@[offset + k].name@
                    &&& entries@[k].ino == all@[offset + k].ino
                    &&& entries@[k].kind == all@[offset + k].kind
                    &&& entries@[k].offset == all@[offset + k].offset
                }
        },
{
    let children = lookup::data_children(before.data_nodes(), ino, rows)->0;
    let up = lookup::data_parent(before.data_nodes(), ino, rows);
    let listing = lookup::data_listing(ino, up, children);
    let entries = rest->0;
    lookup::data_listing_counts_entries(ino, up, children);
    fs_service::listing_resumes(listing, 0);
    assert(listing.skip(0) =~= listing);
    let views = fs_service::entry_views(all@);
    assert(views == listing);
    fs_service::listing_resumes(listing, offset as int);
    let later_views = fs_service::entry_views(entries@);
    assert(later_views == listing.skip(offset as int));
    assert(later_views.len() == entries@.len() && views.len() == all@.len());
    assert forall|k: int| 0 <= k < entries@.len() implies {
        &&& (#[trigger] entries@[k]).name@ == all@[offset + k].name@
        &&& entries@[k].ino == all@[offset + k].ino
        &&& entries@[k].kind == all@[offset + k].kind
        &&& entries@[k].offset == all@[offset + k].offset
    } by {
        assert(later_views[k] == entries@[k]@);
        assert(views[offset + k] == all@[offset + k]@);
        assert(listing.skip(offset as int)[k] == listing[offset + k]);
    }
}

/// The catalogue answered everything about an entry, and its answer on the directory of one name
/// is one of its answers on all directories.
pub open spec fn answered(mgr: InodeManager, ino: u64, name: Seq<char>, rows: &DataRows) -> bool {
    if ino == DATA_INO || mgr.data_inodes@[ino] is SourcePathDir {
        rows.prefixes is Some && rows.torrents is Some
    } else {
        &&& rows.directories is Some
        &&& rows.files is Some
        &&& match rows.named_directory {
            Some(Some(d)) => d.name@ == name && exists|i: int|
                0 <= i < rows.directories->0@.len() && #[trigger] rows.directories->0@[i] == d,
            Some(None) => forall|i: int|
                0 <= i < rows.directories->0@.len() ==> (#[trigger] rows.directories->0@[i]).name@
                    != name,
            None => false,
        }
    }
}

/// What a lookup below `data/` finds, a listing shows under the same name, inode number and kind.
pub proof fn found_data_entry_is_listed(
    before: InodeManager,
    looked: InodeManager,
    after: InodeManager,
    ino: u64,
    name: Seq<char>,
    rows: &DataRows,
    found: (u64, FileKind, u64),
    r: Option<Vec<DirEntry>>,
)
    requires
        lookup::looks_up_data(before, looked, ino, name, rows, Some(found)),
        lookup::lists_data(before, after, ino, 0, rows, r),
        rows.fit(),
        ino == DATA_INO || before.data_inodes@.contains_key(ino),
        answered(before, ino, name, rows),
    ensures
        r matches Some(entries) && shows(entries@, name, found.0 as int, found.1),
{
    known_by_its_view(before, ino);
    let entries = r->0;
    listing_from_the_start(before, after, ino, rows, entries);
    let children = lookup::data_children(before.data_nodes(), ino, rows)->0;
    if ino == DATA_INO || before.data_inodes@[ino] is SourcePathDir {
        let dirs = rows.prefixes->0@;
        let torrents = rows.torrents->0@;
        let (first_dir, first_torrent) = if ino == DATA_INO {
            (torrents.len() as int, 0int)
        } else {
            (0int, dirs.len() as int)
        };
        let names = text::views(dirs);
        let files = lookup::filenames(torrents);
        lookup::first_place_is_first(files, name);
        if names.contains(name) {
            let i = names.index_of(name);
            assert(children[first_dir + i].name == names[i]);
        } else {
            let i = lookup::first_place(files, name)->0;
            assert(children[first_torrent + i].name == files[i]);
        }
    } else {
        let dirs = rows.directories->0@;
        let names = lookup::file_names(rows.files->0@);
        lookup::first_place_is_first(names, name);
        match rows.named_directory->0 {
            Some(d) => {
                let i = choose|i: int| 0 <= i < dirs.len() && #[trigger] dirs[i] == d;
                assert(children[i].name == name);
            },
            None => {
                let i = lookup::first_place(names, name)->0;
                assert(children[dirs.len() + i].name == names[i]);
            },
        }
    }
}

/// What a listing below `data/` shows under a name that comes once, a lookup of the name finds,
/// with the same inode number and kind.
pub proof fn listed_data_entry_is_looked_up(
    before: InodeManager,
    looked: InodeManager,
    after: InodeManager,
    ino: u64,
    rows: &DataRows,
    entries: Vec<DirEntry>,
    k: int,
    found: Option<(u64, FileKind, u64)>,
)
    requires
        lookup::lists_data(before, after, ino, 0, rows, Some(entries)),
        2 <= k < entries@.len(),
        forall|j: int|
            2 <= j < entries@.len() && (#[trigger] entries@[j]).name@ == entries@[k].name@ ==> j
                == k,
        lookup::looks_up_data(before, looked, ino, entries@[k].name@, rows, found),
        rows.fit(),
        ino == DATA_INO || before.data_inodes@.contains_key(ino),
        answered(before, ino, entries@[k].name@, rows),
    ensures
        found matches Some((i, kind, _)) && i == entries@[k].ino && kind == entries@[k].kind,
{
    let name = entries@[k].name@;
    known_by_its_view(before, ino);
    listing_from_the_start(before, after, ino, rows, entries);
    let children = lookup::data_children(before.data_nodes(), ino, rows)->0;
    if ino == DATA_INO || before.data_inodes@[ino] is SourcePathDir {
        let dirs = rows.prefixes->0@;
        let torrents = rows.torrents->0@;
        let names = text::views(dirs);
        let files = lookup::filenames(torrents);
        let (first_dir, first_torrent) = if ino == DATA_INO {
            (torrents.len() as int, 0int)
        } else {
            (0int, dirs.len() as int)
        };
        lookup::first_place_is_first(files, name);
        if names.contains(name) {
            let i = names.index_of(name);
            assert(entries@[first_dir + i + 2].name@ == name);
        } else {
            if first_dir <= k - 2 < first_dir + dirs.len() {
                assert(names[k - 2 - first_dir] == name);
            }
            assert(files[k - 2 - first_torrent] == name);
            let i = lookup::first_place(files, name)->0;
            assert(entries@[first_torrent + i + 2].name@ == name);
        }
    } else {
        let dirs = rows.directories->0@;
        let names = lookup::file_names(rows.files->0@);
        lookup::first_place_is_first(names, name);
        match rows.named_directory->0 {
            Some(d) => {
                let i = choose|i: int| 0 <= i < dirs.len() && #[trigger] dirs[i] == d;
                assert(entries@[i + 2].name@ == name);
            },
            None => {
                if k - 2 < dirs.len() {
                    assert(dirs[k - 2].name@ == name);
                }
                assert(names[k - 2 - dirs.len()] == name);
                let i = lookup::first_place(names, name)->0;
                assert(entries@[dirs.len() + i + 2].name@ == name);
            },
        }
    }
}

proof fn child_is_known(m: Map<u64, DataNode>, children: Seq<lookup::Child>, i: int)
    requires
        0 <= i < children.len(),
        forall|j: int|
            0 <= j < children.len() && (#[trigger] children[j]).ino == children[i].ino ==> j == i,
    ensures
        lookup::with_children(m, children).contains_key(children[i].ino),
        lookup::with_children(m, children)[children[i].ino] == children[i].node,
    decreases children.len(),
{
    let last = children.len() - 1;
    if i < last {
        let fewer = children.drop_last();
        assert forall|j: int| 0 <= j < fewer.len() && (#[trigger] fewer[j]).ino
            == fewer[i].ino implies j == i by {
            assert(children[j].ino == children[i].ino);
        }
        child_is_known(m, fewer, i);
        assert(children[last].ino != children[i].ino);
    }
}

/// An entry that a listing below `data/` showed is known from then on: its attributes tell the
/// same kind.
pub proof fn listed_data_entry_has_attributes(
    before: InodeManager,
    ino: u64,
    rows: &DataRows,
    entries: Vec<DirEntry>,
    k: int,
    s: FsService,
    told: AttrStep,
)
    requires
        lookup::lists_data(before, s.inode_mgr, ino, 0, rows, Some(entries)),
        rows.fit(),
        2 <= k < entries@.len(),
        forall|j: int|
            2 <= j < entries@.len() && (#[trigger] entries@[j]).ino == entries@[k].ino ==> j == k,
        below_data(entries@[k].ino),
        s.has_attr(entries@[k].ino, told),
    ensures
        told matches AttrStep::Answer(attr) && attr.ino == entries@[k].ino && attr.kind
            == entries@[k].kind,
{
    listing_from_the_start(before, s.inode_mgr, ino, rows, entries);
    let children = lookup::data_children(before.data_nodes(), ino, rows)->0;
    assert forall|j: int| 0 <= j < children.len() && (#[trigger] children[j]).ino == children[k
        - 2].ino implies j == k - 2 by {
        assert(entries@[j + 2].ino == entries@[k].ino);
    }
    child_is_known(before.data_nodes(), children, k - 2);
    known_by_its_view(s.inode_mgr, entries@[k].ino);
}

/// The file of a torrent that a listing showed is known with the row that the catalogue answered
/// with.
pub proof fn listed_file_is_its_row(
    before: InodeManager,
    after: InodeManager,
    ino: u64,
    torrent: i64,
    rows: &DataRows,
    entries: Vec<DirEntry>,
    k: int,
)
    requires
        lookup::lists_data(before, after, ino, 0, rows, Some(entries)),
        rows.fit(),
        is_in_torrent(before, ino, torrent),
        2 <= k < entries@.len(),
        entries@[k].kind == FileKind::RegularFile,
        forall|j: int|
            2 <= j < entries@.len() && (#[trigger] entries@[j]).ino == entries@[k].ino ==> j == k,
    ensures
        after.data_inodes@.contains_key(entries@[k].ino),
        after.data_inodes@[entries@[k].ino] matches DataInode::TorrentFile {
            torrent_id,
            file_id,
            name,
            size,
        } && torrent_id == torrent && name@ == entries@[k].name@ && exists|i: int|
            0 <= i < rows.files->0@.len() && (#[trigger] rows.files->0@[i]).id == file_id
                && rows.files->0@[i].name@ == name@ && rows.files->0@[i].size == size,
{
    known_by_its_view(before, ino);
    listing_from_the_start(before, after, ino, rows, entries);
    let children = lookup::data_children(before.data_nodes(), ino, rows)->0;
    assert forall|j: int| 0 <= j < children.len() && (#[trigger] children[j]).ino == children[k
        - 2].ino implies j == k - 2 by {
        assert(entries@[j + 2].ino == entries@[k].ino);
    }
    child_is_known(before.data_nodes(), children, k - 2);
    known_by_its_view(after, entries@[k].ino);
    let dirs = rows.directories->0@;
    assert(rows.files->0@[k - 2 - dirs.len()].name@ == entries@[k].name@);
}

/// From a directory of a source path `..` leads back to the directory that it was found in.
pub proof fn source_path_leads_back(
    before: InodeManager,
    after: InodeManager,
    ino: u64,
    path: Seq<char>,
    name: Seq<char>,
    rows: &DataRows,
    entries: Vec<DirEntry>,
)
    requires
        lookup::lists_data(before, after, ino, 0, rows, Some(entries)),
        rows.fit(),
        ino == DATA_INO || is_source_path(before, ino, path_in(path, name)),
        !name.contains('/'),
        name.len() > 0,
    ensures
        entries@[1].ino == (if ino == DATA_INO {
            ROOT_INO
        } else if path.len() == 0 {
            DATA_INO
        } else {
            inodes::source_path_dir_ino(path)
        }),
{
    known_by_its_view(before, ino);
    listing_from_the_start(before, after, ino, rows, entries);
    reveal_strlit("/");
    assert("/"@ =~= seq!['/']);
    text::split_of_plain(name, '/');
    if path.len() > 0 {
        text::split_of_joined(path, name, '/');
        text::split_is_not_empty(path, '/');
        assert((text::split(path, '/') + seq![name]).drop_last() =~= text::split(path, '/'));
        text::join_undoes_split(path, '/');
    }
}

/// From the top directories of a torrent `..` leads to the torrent, and from the others to the
/// directory that holds them.
pub proof fn torrent_directory_leads_back(
    before: InodeManager,
    after: InodeManager,
    ino: u64,
    torrent: i64,
    rows: &DataRows,
    entries: Vec<DirEntry>,
)
    requires
        lookup::lists_data(before, after, ino, 0, rows, Some(entries)),
        rows.fit(),
        is_in_torrent(before, ino, torrent),
        before.data_inodes@[ino] is TorrentDir,
        0 <= torrent <= u64::MAX - DATA_TORRENT_INO_BASE,
        rows.own_directory is Some,
    ensures
        match rows.own_directory->0.parent_id {
            Some(p) => p >= 0 ==> entries@[1].ino == DATA_DIR_INO_BASE + p,
            None => entries@[1].ino == DATA_TORRENT_INO_BASE + torrent,
        },
{
    known_by_its_view(before, ino);
    listing_from_the_start(before, after, ino, rows, entries);
}

/// The inode number of a source path is made of the hash of the whole path.
pub proof fn source_path_number_is_its_hash(path: Seq<char>)
    ensures
        inodes::source_path_dir_ino(path) == 4_000_000 + DefaultHasher::spec_finish(
            inodes::hashed_text(Seq::empty(), path),
        ) % 1_000_000,
{
}

/// Of an entry below `data/` that has not been seen yet the catalogue is asked where its number is that
/// of a torrent, for that torrent; any other is missing.
pub proof fn unseen_entry_is_asked_for(s: FsService, ino: u64, told: AttrStep)
    requires
        below_data(ino),
        !s.inode_mgr.data_inodes@.contains_key(ino),
        s.has_attr(ino, told),
    ensures
        ino < 2_000_000 ==> (told matches AttrStep::Torrent { torrent_id } && 1_000_000 + torrent_id
            == ino),
        ino >= 2_000_000 ==> told is Missing,
{
}

} // verus!

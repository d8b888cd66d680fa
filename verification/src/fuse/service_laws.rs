//! What holds of the root, of the `.stats` files and of reading a torrent's files, of two calls and
//! more.

use vstd::prelude::*;

use super::data_laws;
use super::fs_service;
use super::fs_service::{
    AttrStep, DataRead, FsService, LookupStep, PiecesNext, ReadStep, ReaddirStep, StatsSource,
    TorrentAnswer,
};
use super::fs_types::{DirEntry, FileKind, ReadOutcome};
use super::inodes::{
    DataInode, DATA_INO, METADATA_INO, ROOT_INO, STATS_INO, STATS_INO_OFFSET,
};
use crate::domain::error::TorrentResult;
use crate::domain::fs_error::FsResult;
use crate::text;

verus! {

broadcast use vstd::std_specs::hash::group_hash_axioms;

/// The root shows `metadata`, `data` and `.stats`, each with the inode and the kind that a lookup
/// of its name tells, and a lookup finds nothing else there.
pub proof fn root_shows_what_is_found(
    s: FsService,
    entries: Vec<DirEntry>,
    name: Seq<char>,
    found: LookupStep,
)
    requires
        s.lists(ROOT_INO, 0, ReaddirStep::Entries(entries)),
        s.looks_up(ROOT_INO, name, found),
        name != "."@ && name != ".."@,
    ensures
        match found {
            LookupStep::Answer(Some(e)) => {
                &&& e.attr.kind == FileKind::Directory
                &&& data_laws::shows(entries@, name, e.ino as int, FileKind::Directory)
                &&& e.ino == METADATA_INO ==> e.attr.perm == 0o755
                &&& e.ino == DATA_INO ==> e.attr.perm == 0o555
            },
            LookupStep::Stats { ino, source } => {
                &&& source is Global
                &&& data_laws::shows(entries@, name, ino as int, FileKind::RegularFile)
            },
            LookupStep::Answer(None) => forall|i: int|
                0 <= i < entries@.len() ==> (#[trigger] entries@[i]).name@ != name,
            LookupStep::Data => false,
        },
        data_laws::shows(entries@, "metadata"@, METADATA_INO as int, FileKind::Directory),
        data_laws::shows(entries@, "data"@, DATA_INO as int, FileKind::Directory),
        data_laws::shows(entries@, ".stats"@, STATS_INO as int, FileKind::RegularFile),
{
    let all = fs_service::root_listing();
    fs_service::listing_resumes(all, 0);
    let views = fs_service::entry_views(entries@);
    assert(views =~= all) by {
        assert(all.skip(0) =~= all);
    }
    assert(views[2] == entries@[2]@);
    assert(views[3] == entries@[3]@);
    assert(views[4] == entries@[4]@);
    assert forall|i: int| 0 <= i < entries@.len() implies (#[trigger] entries@[i]).name@
        == all[i].name by {
        assert(views[i] == entries@[i]@);
    }
}

/// A directory below `data/` that has a `.stats` file: `data/` itself, a source path, or the root of
/// a torrent.
pub open spec fn has_stats(s: FsService, dir: u64) -> bool {
    dir == DATA_INO || (s.inode_mgr.data_inodes@.contains_key(dir) && (
    s.inode_mgr.data_inodes@[dir] is SourcePathDir || s.inode_mgr.data_inodes@[dir]
        is TorrentRoot))
}

/// The statistics are those of the directory `dir`.
pub open spec fn tells_of(s: FsService, dir: u64, source: StatsSource) -> bool {
    if dir == DATA_INO {
        source matches StatsSource::Directory { path } && path@.len() == 0
    } else {
        match s.inode_mgr.data_inodes@[dir] {
            DataInode::SourcePathDir { path } => source matches StatsSource::Directory { path: p }
                && p@ == path@,
            DataInode::TorrentRoot { torrent_id, .. } => source matches StatsSource::Torrent {
                torrent_id: t,
            } && t == torrent_id,
            _ => false,
        }
    }
}

/// The `.stats` file of a directory below `data/` tells of that directory: what a lookup finds, what
/// is told of its attributes and what is read from it come from the same source. No two directories
/// share one.
pub proof fn stats_file_tells_of_its_directory(
    s: FsService,
    dir: u64,
    found: LookupStep,
    told: AttrStep,
    offset: i64,
    size: u32,
    read: ReadStep,
)
    requires
        has_stats(s, dir),
        dir < 10_000_000,
        dir != ROOT_INO,
        s.looks_up(dir, ".stats"@, found),
        found matches LookupStep::Stats { ino, .. } ==> s.has_attr(ino, told) && s.reads(
            ino,
            offset,
            size,
            read,
        ),
    ensures
        found matches LookupStep::Stats { ino, source } && tells_of(s, dir, source) && ino
            != STATS_INO && ino - dir == STATS_INO_OFFSET,
        told matches AttrStep::Stats { source } && tells_of(s, dir, source),
        read matches ReadStep::Stats { source } && tells_of(s, dir, source),
{
    assert(s.data_nodes().contains_key(dir) == s.inode_mgr.data_inodes@.contains_key(dir));
    assert(s.data_nodes().contains_key(dir) ==> s.data_nodes()[dir]
        == s.inode_mgr.data_inodes@[dir]@);
}

/// The `.stats` file of the root tells of the whole session, however it is asked for.
pub proof fn root_stats_tell_of_the_session(
    s: FsService,
    found: LookupStep,
    told: AttrStep,
    offset: i64,
    size: u32,
    read: ReadStep,
)
    requires
        s.looks_up(ROOT_INO, ".stats"@, found),
        found matches LookupStep::Stats { ino, .. } ==> s.has_attr(ino, told) && s.reads(
            ino,
            offset,
            size,
            read,
        ),
    ensures
        found matches LookupStep::Stats { source, .. } && source is Global,
        told matches AttrStep::Stats { source } && source is Global,
        read matches ReadStep::Stats { source } && source is Global,
{
    reveal_strlit(".stats");
    reveal_strlit("metadata");
    reveal_strlit("data");
    assert(".stats"@[0] == '.');
    assert("metadata"@[0] == 'm');
    assert("data"@[0] == 'd');
}

proof fn same_numeral(a: int, b: int)
    requires
        text::dec_signed(a) == text::dec_signed(b),
    ensures
        a == b,
{
    let x = if a < 0 { -a } else { a };
    let y = if b < 0 { -b } else { b };
    let most = x + y;
    text::numeral_reads_dec(x, most);
    text::numeral_reads_dec(y, most);
    assert(text::is_digit(text::dec(x)[0]));
    assert(text::is_digit(text::dec(y)[0]));
    if a < 0 {
        assert(text::dec_signed(a)[0] == '-');
        assert(text::dec_signed(a).skip(1) =~= text::dec(x));
    }
    if b < 0 {
        assert(text::dec_signed(b)[0] == '-');
        assert(text::dec_signed(b).skip(1) =~= text::dec(y));
    }
}

/// Two files have the same place in the cache of file contents only where they are the same file:
/// info hashes are texts of one length.
pub proof fn content_keys_tell_files_apart(
    hash: Seq<char>,
    file: i64,
    other_hash: Seq<char>,
    other_file: i64,
)
    requires
        hash.len() == other_hash.len(),
        fs_service::content_key(hash, file) == fs_service::content_key(other_hash, other_file),
    ensures
        hash == other_hash,
        file == other_file,
{
    let x = fs_service::content_key(hash, file);
    let y = fs_service::content_key(other_hash, other_file);
    let n = hash.len() as int;
    reveal_strlit(":");
    assert(x.take(n) =~= hash);
    assert(y.take(n) =~= other_hash);
    assert(x.skip(n + 1) =~= text::dec_signed(file as int));
    assert(y.skip(n + 1) =~= text::dec_signed(other_file as int));
    same_numeral(file as int, other_file as int);
}

/// A read of a file of a torrent gives the bytes from `offset` on of the content that is kept for
/// that very file, as many as were asked for or as there are; where nothing is kept, the pieces of
/// the file at its place in the torrent are asked for. It counts as one hit, or as one miss, and as
/// neither where the file is not there.
pub proof fn kept_content_is_read(
    before: FsService,
    after: FsService,
    file_id: i64,
    offset: u64,
    size: u32,
    answer: TorrentAnswer,
    can_download: bool,
    r: FsResult<DataRead>,
)
    requires
        before.begins_read(file_id, offset, size, answer, can_download, r, &after),
        before.metrics.l1_hits < u64::MAX,
        before.metrics.l1_misses < u64::MAX,
    ensures
        answer !is Found ==> r is Err && after.metrics == before.metrics,
        answer matches TorrentAnswer::Found(t) ==> {
            let listed = exists|i: int|
                0 <= i < t.files@.len() && (#[trigger] t.files@[i]).id == file_id;
            let key = t.info_hash@ + seq![':'] + text::dec_signed(file_id as int);
            let kept = before.torrent_data_cache@[key]@;
            if !listed {
                r is Err && after.metrics == before.metrics
            } else if before.torrent_data_cache@.contains_key(key) {
                &&& after.metrics.l1_hits == before.metrics.l1_hits + 1
                &&& after.metrics.l1_misses == before.metrics.l1_misses
                &&& r matches Ok(DataRead::Ready(bytes)) && {
                    &&& bytes@.len() == size || offset + bytes@.len() == kept.len() || (offset
                        >= kept.len() && bytes@.len() == 0)
                    &&& bytes@.len() <= size
                    &&& forall|i: int|
                        0 <= i < bytes@.len() ==> offset + i < kept.len() && #[trigger] bytes@[i]
                            == kept[offset + i]
                }
            } else {
                &&& after.metrics.l1_hits == before.metrics.l1_hits
                &&& after.metrics.l1_misses == before.metrics.l1_misses + 1
                &&& can_download <==> r is Ok
                &&& r matches Ok(asked) ==> asked matches DataRead::NeedPieces {
                    info_hash,
                    file_index,
                } && info_hash@ == t.info_hash@ && (t.files@.len() <= i32::MAX ==> 0 <= file_index
                    < t.files@.len() && t.files@[file_index as int].id == file_id)
            }
        },
{
    reveal_strlit(":");
    assert(":"@ =~= seq![':']);
}

/// Where the pieces are on disk the read goes on at once; where they are not, the wait is for the
/// very range that was asked for; a failure is passed on. Each counts as what it is.
pub proof fn waiting_read_is_the_same_read(
    before: FsService,
    after: FsService,
    on_disk: TorrentResult<bool>,
    torrent_id: i64,
    info_hash: String,
    file_index: i32,
    offset: u64,
    size: u32,
    r: FsResult<PiecesNext>,
)
    requires
        before.goes_on(
            on_disk,
            torrent_id,
            info_hash,
            file_index,
            offset,
            size,
            r,
            &after,
        ),
        before.metrics.l2_hits < u64::MAX,
        before.metrics.l2_misses < u64::MAX,
        before.metrics.deferred_reads < u64::MAX,
    ensures
        on_disk is Err <==> r is Err,
        on_disk == Ok::<bool, crate::domain::error::TorrentError>(true) <==> r matches Ok(
            PiecesNext::ReadNow,
        ),
        r matches Ok(PiecesNext::Wait(ReadOutcome::Pending {
            file_index: f,
            offset: o,
            size: n,
            info_hash: h,
            torrent_id: t,
        })) ==> f == file_index && o == offset && n == size && h@ == info_hash@ && t == torrent_id,
        r matches Ok(PiecesNext::Wait(w)) ==> w is Pending,
        after.metrics.l2_hits - before.metrics.l2_hits == (if r matches Ok(PiecesNext::ReadNow) {
            1int
        } else {
            0
        }),
        after.metrics.l2_misses - before.metrics.l2_misses == (if r matches Ok(
            PiecesNext::Wait(_),
        ) {
            1int
        } else {
            0
        }),
        after.metrics.deferred_reads - before.metrics.deferred_reads == after.metrics.l2_misses
            - before.metrics.l2_misses,
        after.metrics.l1_hits == before.metrics.l1_hits,
        after.metrics.l1_misses == before.metrics.l1_misses,
{
}

/// A parsed torrent that was remembered is found where it was put, until another place is remembered
/// for it; the others are found where they were. Each look counts as one hit or one miss.
pub proof fn remembered_torrent_is_recalled(
    before: FsService,
    kept: FsService,
    after: FsService,
    info_hash: Seq<char>,
    place: u64,
    asked: Seq<char>,
    r: Option<u64>,
)
    requires
        before.remembers(info_hash, place, &kept),
        kept.recalls(asked, r, &after),
        kept.metrics.l3_hits < u64::MAX,
        kept.metrics.l3_misses < u64::MAX,
    ensures
        asked == info_hash ==> r == Some(place),
        asked != info_hash ==> (r is Some <==> before.torrent_info_cache@.contains_key(asked)) && (
        r is Some ==> r == Some(before.torrent_info_cache@[asked])),
        after.metrics.l3_hits == kept.metrics.l3_hits + (if r is Some {
            1int
        } else {
            0
        }),
        after.metrics.l3_misses == kept.metrics.l3_misses + (if r is Some {
            0int
        } else {
            1
        }),
{
}

} // verus!

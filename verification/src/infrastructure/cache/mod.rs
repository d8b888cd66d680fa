//! The index of the pieces that lie in the cache directory.
//!
//! The index knows sizes, times and counts; the files themselves are handled by the caller, who
//! tells the index what was found, removed or written.

use vstd::prelude::*;

use crate::domain::error::{TorrentError, TorrentResult};
use crate::domain::piece_key;
use crate::table::TextMap;
use crate::text;

verus! {

/// The name of the file in the cache directory that holds the index.
pub open spec fn metadata_file_name() -> Seq<char> {
    "cache_metadata.txt"@
}

#[derive(Debug, Clone, Copy, PartialEq, Eq, Structural)]
pub struct PieceMetadata {
    /// Milliseconds since the epoch.
    pub last_accessed: u64,
    pub size: u64,
    pub hit_count: u64,
}

/// A file that was found in the cache directory, and when.
pub struct ScannedFile {
    pub name: String,
    pub size: u64,
    pub seen_at: u64,
}

/// Where a piece lies below the cache directory: `pieces/{directory}/{file}`.
pub struct PiecePath {
    pub directory: String,
    pub file: String,
}

/// What stands where the pieces of a torrent are kept.
#[derive(Debug, Clone, Copy, PartialEq, Eq, Structural)]
pub enum PiecesDirectory {
    Absent,
    Directory,
    Other,
}

/// The index of the cache.
pub struct CacheManager {
    pub metadata: TextMap<PieceMetadata>,
    pub max_cache_size: u64,
    pub current_size: u64,
    pub miss_count: u64,
    pub hit_count: u64,
    /// The pieces whose content is known to be good: those that were added after a download, and
    /// those that passed a check of their hash. A piece that was merely found is not among them.
    pub verified_piece_keys: TextMap<()>,
}

/// What is known of the pieces of one torrent together.
#[derive(Debug)]
pub struct InfohashCacheStats {
    pub info_hash: String,
    pub piece_count: u64,
    pub total_size: u64,
    pub hit_count: u64,
}

/// What failed in reading a part of a piece's file.
#[derive(Debug, Clone, Copy, PartialEq, Eq, Structural)]
pub enum RangeFault {
    Open,
    Seek,
    Read,
}

pub open spec fn range_fault_text(
    fault: RangeFault,
    key: Seq<char>,
    offset: int,
    size: int,
    reason: Seq<char>,
) -> Seq<char> {
    match fault {
        RangeFault::Open => "Failed to open cached piece "@ + key + " for range read: "@ + reason,
        RangeFault::Seek => "Failed to seek in cached piece "@ + key + ": "@ + reason,
        RangeFault::Read => "Failed to read cached piece "@ + key + " (wanted "@ + text::dec(size)
            + " bytes at offset "@ + text::dec(offset) + "): "@ + reason,
    }
}

/// The first part of a key, before the colon.
pub open spec fn first_part(key: Seq<char>) -> Seq<char> {
    text::split(key, ':')[0]
}

/// The info hash that a key names; `unknown` where the key begins with a colon or is empty.
pub open spec fn info_hash_of(key: Seq<char>) -> Seq<char> {
    if first_part(key).len() > 0 {
        first_part(key)
    } else {
        "unknown"@
    }
}

/// The number after the last colon of a key, or -1 where there is none.
pub open spec fn index_of(key: Seq<char>) -> int {
    match text::signed_numeral(text::split(key, ':').last()) {
        Some(i) => i,
        None => -1,
    }
}

/// A line of the index file.
pub open spec fn metadata_line(key: Seq<char>, meta: PieceMetadata) -> Seq<char> {
    key + seq!['\t'] + text::dec(meta.last_accessed as int) + seq!['\t'] + text::dec(
        meta.size as int,
    ) + seq!['\t'] + text::dec(meta.hit_count as int)
}

/// What a line of the index file says: a key, a time and a size, and a count where there is a
/// readable one.
pub open spec fn parsed_line(line: Seq<char>) -> Option<(Seq<char>, PieceMetadata)> {
    let parts = text::split(line, '\t');
    if parts.len() < 3 {
        None
    } else {
        match (
            text::numeral(parts[1], u64::MAX as int),
            text::numeral(parts[2], u64::MAX as int),
        ) {
            (Some(last_accessed), Some(size)) => Some(
                (
                    parts[0],
                    PieceMetadata {
                        last_accessed: last_accessed as u64,
                        size: size as u64,
                        hit_count: if parts.len() >= 4 {
                            match text::numeral(parts[3], u64::MAX as int) {
                                Some(n) => n as u64,
                                None => 0,
                            }
                        } else {
                            0
                        },
                    },
                ),
            ),
            _ => None,
        }
    }
}

/// The index with what the lines say; a later line for a key replaces an earlier one.
pub open spec fn with_lines(
    m: Map<Seq<char>, PieceMetadata>,
    lines: Seq<Seq<char>>,
) -> Map<Seq<char>, PieceMetadata>
    decreases lines.len(),
{
    if lines.len() == 0 {
        m
    } else {
        let before = with_lines(m, lines.drop_last());
        match parsed_line(lines.last()) {
            Some((key, meta)) => before.insert(key, meta),
            None => before,
        }
    }
}

/// The text of the index file for the given entries.
pub open spec fn metadata_text_of(entries: Seq<(String, PieceMetadata)>) -> Seq<char>
    decreases entries.len(),
{
    if entries.len() == 0 {
        Seq::empty()
    } else {
        metadata_text_of(entries.drop_last()) + metadata_line(
            entries.last().0@,
            entries.last().1,
        ) + seq!['\n']
    }
}

/// The index with the files that were found: each with its size, and with the time and count
/// that it had before, where it was known.
pub open spec fn with_files(
    m: Map<Seq<char>, PieceMetadata>,
    files: Seq<ScannedFile>,
) -> Map<Seq<char>, PieceMetadata>
    decreases files.len(),
{
    if files.len() == 0 {
        m
    } else {
        let before = with_files(m, files.drop_last());
        let f = files.last();
        if f.name@ == metadata_file_name() {
            before
        } else {
            before.insert(
                f.name@,
                PieceMetadata {
                    last_accessed: if before.contains_key(f.name@) {
                        before[f.name@].last_accessed
                    } else {
                        f.seen_at
                    },
                    size: f.size,
                    hit_count: if before.contains_key(f.name@) {
                        before[f.name@].hit_count
                    } else {
                        0
                    },
                },
            )
        }
    }
}

/// The size of the found files together, the index file aside.
pub open spec fn files_size(files: Seq<ScannedFile>) -> int
    decreases files.len(),
{
    if files.len() == 0 {
        0
    } else {
        files_size(files.drop_last()) + (if files.last().name@ == metadata_file_name() {
            0
        } else {
            files.last().size as int
        })
    }
}

proof fn files_size_grows(files: Seq<ScannedFile>, n: int)
    requires
        0 <= n <= files.len(),
    ensures
        0 <= files_size(files.take(n)) <= files_size(files),
    decreases files.len() - n,
{
    if n < files.len() {
        files_size_grows(files, n + 1);
        assert(files.take(n + 1).drop_last() =~= files.take(n));
        files_size_is_natural(files.take(n));
    } else {
        assert(files.take(n) =~= files);
        files_size_is_natural(files);
    }
}

proof fn files_size_is_natural(files: Seq<ScannedFile>)
    ensures
        0 <= files_size(files),
    decreases files.len(),
{
    if files.len() > 0 {
        files_size_is_natural(files.drop_last());
    }
}

/// The keys of one torrent begin with its info hash and a colon.
pub open spec fn belongs_to(key: Seq<char>, info_hash: Seq<char>) -> bool {
    text::begins(key, info_hash + seq![':'])
}

/// A table without the keys of one torrent.
pub open spec fn without_torrent<V>(m: Map<Seq<char>, V>, info_hash: Seq<char>) -> Map<
    Seq<char>,
    V,
> {
    Map::new(
        |k: Seq<char>| m.contains_key(k) && !belongs_to(k, info_hash),
        |k: Seq<char>| m[k],
    )
}

/// The registered sizes of one torrent's pieces together.
pub open spec fn size_of_torrent(
    entries: Seq<(String, PieceMetadata)>,
    info_hash: Seq<char>,
) -> int
    decreases entries.len(),
{
    if entries.len() == 0 {
        0
    } else {
        size_of_torrent(entries.drop_last(), info_hash) + (if belongs_to(
            entries.last().0@,
            info_hash,
        ) {
            entries.last().1.size as int
        } else {
            0
        })
    }
}

/// The pieces of one torrent: how many, their sizes and their counts together.
pub open spec fn torrent_totals(
    entries: Seq<(String, PieceMetadata)>,
    info_hash: Seq<char>,
) -> (int, int, int)
    decreases entries.len(),
{
    if entries.len() == 0 {
        (0, 0, 0)
    } else {
        let (n, s, h) = torrent_totals(entries.drop_last(), info_hash);
        if first_part(entries.last().0@) == info_hash {
            (n + 1, s + entries.last().1.size, h + entries.last().1.hit_count)
        } else {
            (n, s, h)
        }
    }
}

/// How many of some accesses were to a piece.
pub open spec fn accesses(keys: Seq<Seq<char>>, key: Seq<char>) -> int
    decreases keys.len(),
{
    if keys.len() == 0 {
        0
    } else {
        accesses(keys.drop_last(), key) + (if keys.last() == key {
            1int
        } else {
            0
        })
    }
}

/// How many of some accesses were to pieces that are known.
pub open spec fn known_accesses(keys: Seq<Seq<char>>, known: Set<Seq<char>>) -> int
    decreases keys.len(),
{
    if keys.len() == 0 {
        0
    } else {
        known_accesses(keys.drop_last(), known) + (if known.contains(keys.last()) {
            1int
        } else {
            0
        })
    }
}

/// What several torrents have together of pieces, of their sizes and of their counts.
pub open spec fn totals_together(
    entries: Seq<(String, PieceMetadata)>,
    info_hashes: Seq<Seq<char>>,
) -> (int, int, int)
    decreases info_hashes.len(),
{
    if info_hashes.len() == 0 {
        (0, 0, 0)
    } else {
        let (n, s, h) = totals_together(entries, info_hashes.drop_last());
        let (m, t, g) = torrent_totals(entries, info_hashes.last());
        (n + m, s + t, h + g)
    }
}

/// The sizes and the counts of all entries together.
pub open spec fn entry_totals(entries: Seq<(String, PieceMetadata)>) -> (int, int)
    decreases entries.len(),
{
    if entries.len() == 0 {
        (0, 0)
    } else {
        let (s, h) = entry_totals(entries.drop_last());
        (s + entries.last().1.size, h + entries.last().1.hit_count)
    }
}

/// A name that leads to an entry of the directory itself: not empty, without a slash, and
/// neither of the two dot names.
pub open spec fn plain_name(s: Seq<char>) -> bool {
    s.len() > 0 && !s.contains('/') && s != "."@ && s != ".."@
}

/// One less the other, or zero where the other is more.
pub open spec fn less(a: u64, b: int) -> u64 {
    if a >= b {
        (a - b) as u64
    } else {
        0
    }
}

impl CacheManager {
    pub open spec fn wf(&self) -> bool {
        self.metadata.wf() && self.verified_piece_keys.wf()
    }

    /// The pieces that are known.
    pub open spec fn pieces(&self) -> Map<Seq<char>, PieceMetadata> {
        self.metadata@
    }

    pub open spec fn verified(&self, key: Seq<char>) -> bool {
        self.verified_piece_keys@.contains_key(key)
    }

    /// A cache without pieces, whose files may take up to `max_cache_size` bytes.
    pub fn new(max_cache_size: u64) -> (r: Self)
        ensures
            r.wf(),
            r.pieces() == Map::<Seq<char>, PieceMetadata>::empty(),
            r.verified_piece_keys@ == Map::<Seq<char>, ()>::empty(),
            r.max_cache_size == max_cache_size,
            r.current_size == 0,
            r.miss_count == 0,
            r.hit_count == 0,
    {
        CacheManager {
            metadata: TextMap::new(),
            max_cache_size,
            current_size: 0,
            miss_count: 0,
            hit_count: 0,
            verified_piece_keys: TextMap::new(),
        }
    }

    /// Everything but the pieces and the size is the same.
    pub open spec fn same_but_pieces(&self, other: &CacheManager) -> bool {
        &&& self.max_cache_size == other.max_cache_size
        &&& self.miss_count == other.miss_count
        &&& self.hit_count == other.hit_count
        &&& self.verified_piece_keys == other.verified_piece_keys
    }

    /// Takes over what the text of an index file says.
    pub fn load_metadata_file(&mut self, content: &str)
        requires
            old(self).wf(),
        ensures
            final(self).wf(),
            final(self).same_but_pieces(old(self)),
            final(self).current_size == old(self).current_size,
            final(self).pieces() == with_lines(old(self).pieces(), text::text_lines(content@)),
    {
        let lines = text::lines(content);
        let ghost all = text::text_lines(content@);
        let mut i: usize = 0;
        proof {
            assert(all.take(0) =~= Seq::empty());
        }
        while i < lines.len()
            invariant
                i <= lines@.len(),
                text::views(lines@) == all,
                self.wf(),
                self.same_but_pieces(old(self)),
                self.current_size == old(self).current_size,
                self.pieces() == with_lines(old(self).pieces(), all.take(i as int)),
            decreases lines@.len() - i,
        {
            proof {
                assert(all.take(i as int + 1).drop_last() =~= all.take(i as int));
                assert(all[i as int] == lines@[i as int]@);
            }
            match parse_metadata_line(lines[i].as_str()) {
                Some((key, meta)) => {
                    self.metadata.insert(key, meta);
                },
                None => {},
            }
            i = i + 1;
        }
        proof {
            assert(all.take(lines@.len() as int) =~= all);
        }
    }

    /// Takes over the files that were found in the cache directory, and counts its size anew.
    pub fn scan_cache_directory(&mut self, files: &Vec<ScannedFile>)
        requires
            old(self).wf(),
            files_size(files@) <= u64::MAX,
        ensures
            final(self).wf(),
            final(self).same_but_pieces(old(self)),
            final(self).current_size == files_size(files@),
            final(self).pieces() == with_files(old(self).pieces(), files@),
    {
        self.current_size = 0;
        let mut i: usize = 0;
        proof {
            assert(files@.take(0) =~= Seq::empty());
        }
        while i < files.len()
            invariant
                i <= files@.len(),
                self.wf(),
                self.same_but_pieces(old(self)),
                files_size(files@) <= u64::MAX,
                self.current_size == files_size(files@.take(i as int)),
                self.pieces() == with_files(old(self).pieces(), files@.take(i as int)),
            decreases files@.len() - i,
        {
            let f = &files[i];
            proof {
                assert(files@.take(i as int + 1).drop_last() =~= files@.take(i as int));
                files_size_grows(files@, i as int + 1);
            }
            if !text::same(f.name.as_str(), "cache_metadata.txt") {
                let known: Option<PieceMetadata> = match self.metadata.get(f.name.as_str()) {
                    Some(meta) => Some(*meta),
                    None => None,
                };
                let meta = match known {
                    Some(meta) => PieceMetadata {
                        last_accessed: meta.last_accessed,
                        size: f.size,
                        hit_count: meta.hit_count,
                    },
                    None => PieceMetadata {
                        last_accessed: f.seen_at,
                        size: f.size,
                        hit_count: 0,
                    },
                };
                self.metadata.insert(f.name.clone(), meta);
                self.current_size = self.current_size + f.size;
            }
            i = i + 1;
        }
        proof {
            assert(files@.take(files@.len() as int) =~= files@);
        }
    }

    /// Builds the index after a start: from the index file, where there is one, and from the
    /// files that were found.
    pub fn rebuild_index(&mut self, content: Option<String>, files: &Vec<ScannedFile>)
        requires
            old(self).wf(),
            files_size(files@) <= u64::MAX,
        ensures
            final(self).wf(),
            final(self).same_but_pieces(old(self)),
            final(self).current_size == files_size(files@),
            final(self).pieces() == with_files(
                match content {
                    Some(c) => with_lines(old(self).pieces(), text::text_lines(c@)),
                    None => old(self).pieces(),
                },
                files@,
            ),
    {
        match content {
            Some(c) => {
                self.load_metadata_file(c.as_str());
            },
            None => {},
        }
        self.scan_cache_directory(files);
    }

    /// The text of the index file.
    pub fn metadata_text(&self) -> (r: String)
        ensures
            r@ == metadata_text_of(self.metadata.entries@),
    {
        let mut r = String::new();
        let mut i: usize = 0;
        let ghost all = self.metadata.entries@;
        proof {
            assert(all.take(0) =~= Seq::empty());
            assert(r@ =~= metadata_text_of(all.take(0)));
        }
        while i < self.metadata.entries.len()
            invariant
                i <= all.len(),
                all == self.metadata.entries@,
                r@ == metadata_text_of(all.take(i as int)),
            decreases all.len() - i,
        {
            proof {
                assert(all.take(i as int + 1).drop_last() =~= all.take(i as int));
            }
            let line = format_metadata_line(
                self.metadata.entries[i].0.as_str(),
                self.metadata.entries[i].1,
            );
            r.append(line.as_str());
            r.push('\n');
            proof {
                assert(r@ =~= metadata_text_of(all.take(i as int + 1)));
            }
            i = i + 1;
        }
        proof {
            assert(all.take(all.len() as int) =~= all);
        }
        r
    }

    /// `after` is what an access to a piece at the time `now` makes of `self`.
    pub open spec fn accessed_to(&self, after: CacheManager, key: Seq<char>, now: u64) -> bool {
        &&& after.max_cache_size == self.max_cache_size
        &&& after.current_size == self.current_size
        &&& after.verified_piece_keys == self.verified_piece_keys
        &&& if self.pieces().contains_key(key) {
            let m = self.pieces()[key];
            &&& m.hit_count < u64::MAX
            &&& after.pieces() == self.pieces().insert(
                key,
                PieceMetadata {
                    last_accessed: now,
                    size: m.size,
                    hit_count: (m.hit_count + 1) as u64,
                },
            )
            &&& after.hit_count == self.hit_count + 1
            &&& after.miss_count == self.miss_count
        } else {
            &&& after.pieces() == self.pieces()
            &&& after.hit_count == self.hit_count
            &&& after.miss_count == self.miss_count + 1
        }
    }

    /// Notes that a piece was read at the time `now`.
    pub fn record_access(&mut self, piece_key: &str, now: u64) -> (r: TorrentResult<()>)
        requires
            old(self).wf(),
            old(self).hit_count < u64::MAX,
            old(self).miss_count < u64::MAX,
            old(self).pieces().contains_key(piece_key@) ==> old(
                self,
            ).pieces()[piece_key@].hit_count < u64::MAX,
        ensures
            final(self).wf(),
            old(self).accessed_to(*final(self), piece_key@, now),
            match r {
                Ok(_) => old(self).pieces().contains_key(piece_key@),
                Err(e) => {
                    &&& !old(self).pieces().contains_key(piece_key@)
                    &&& e matches TorrentError::IoError(t) && t@ == "Piece not found in cache: "@
                        + piece_key@
                },
            },
    {
        let known: Option<PieceMetadata> = match self.metadata.get(piece_key) {
            Some(meta) => Some(*meta),
            None => None,
        };
        match known {
            Some(meta) => {
                self.metadata.insert(
                    piece_key.to_owned(),
                    PieceMetadata {
                        last_accessed: now,
                        size: meta.size,
                        hit_count: meta.hit_count + 1,
                    },
                );
                self.hit_count = self.hit_count + 1;
                Ok(())
            },
            None => {
                self.miss_count = self.miss_count + 1;
                Err(
                    TorrentError::IoError(
                        text::concat2("Piece not found in cache: ", piece_key),
                    ),
                )
            },
        }
    }

    /// Notes a piece that was downloaded at the time `now`: its content is known to be good. The
    /// size is counted again where the piece was known before.
    ///
    /// Where the cache is over its limit now, pieces have to be evicted.
    pub fn add_piece(&mut self, piece_key: &str, size: u64, now: u64)
        requires
            old(self).wf(),
            old(self).current_size + size <= u64::MAX,
            old(self).miss_count < u64::MAX,
        ensures
            final(self).wf(),
            final(self).max_cache_size == old(self).max_cache_size,
            final(self).hit_count == old(self).hit_count,
            final(self).pieces() == old(self).pieces().insert(
                piece_key@,
                PieceMetadata { last_accessed: now, size, hit_count: 0 },
            ),
            final(self).verified_piece_keys@ == old(self).verified_piece_keys@.insert(
                piece_key@,
                (),
            ),
            final(self).current_size == old(self).current_size + size,
            final(self).miss_count == old(self).miss_count + (if old(
                self,
            ).pieces().contains_key(piece_key@) {
                0int
            } else {
                1
            }),
    {
        if !self.metadata.contains_key(piece_key) {
            self.miss_count = self.miss_count + 1;
        }
        self.metadata.insert(
            piece_key.to_owned(),
            PieceMetadata { last_accessed: now, size, hit_count: 0 },
        );
        self.verified_piece_keys.insert(piece_key.to_owned(), ());
        self.current_size = self.current_size + size;
    }

    /// More than the limit is taken, and there are pieces.
    pub open spec fn must_evict(&self) -> bool {
        self.current_size > self.max_cache_size && self.pieces().dom().len() > 0
    }

    /// No known piece was read longer ago.
    pub open spec fn is_oldest(&self, key: Seq<char>) -> bool {
        self.pieces().contains_key(key) && forall|k: Seq<char>| #[trigger]
            self.pieces().contains_key(k) ==> self.pieces()[key].last_accessed
                <= self.pieces()[k].last_accessed
    }

    /// The piece to evict next: one of those that were read longest ago, as long as the cache is
    /// over its limit. The file has to be removed, and the removal reported.
    pub fn evict_lru(&self) -> (r: Option<String>)
        requires
            self.wf(),
        ensures
            match r {
                Some(key) => self.must_evict() && self.is_oldest(key@),
                None => !self.must_evict(),
            },
    {
        proof {
            self.metadata.len_is_entries();
        }
        if self.current_size <= self.max_cache_size || self.metadata.entries.len() == 0 {
            return None;
        }
        let mut best: usize = 0;
        let mut i: usize = 1;
        while i < self.metadata.entries.len()
            invariant
                0 < i <= self.metadata.entries@.len(),
                best < i,
                forall|j: int|
                    0 <= j < i ==> self.metadata.entries@[best as int].1.last_accessed
                        <= (#[trigger] self.metadata.entries@[j]).1.last_accessed,
            decreases self.metadata.entries@.len() - i,
        {
            if self.metadata.entries[i].1.last_accessed
                < self.metadata.entries[best].1.last_accessed {
                best = i;
            }
            i = i + 1;
        }
        let key = self.metadata.entries[best].0.clone();
        proof {
            self.metadata.entry_is_mapped(best as int);
            assert forall|k: Seq<char>| #[trigger] self.pieces().contains_key(k) implies self.pieces()[key@].last_accessed
                <= self.pieces()[k].last_accessed by {
                let j = self.metadata.keys().index_of(k);
                assert(self.metadata.keys().contains(k));
                self.metadata.entry_is_mapped(j);
                assert(self.metadata.entries@[j].1 == self.pieces()[k]);
            }
        }
        Some(key)
    }

    /// Whom to tell of the eviction of a piece: its torrent and its index, where the key names a
    /// torrent.
    pub fn eviction_notice(&self, piece_key: &str) -> (r: Option<(String, i32)>)
        ensures
            match r {
                Some((hash, index)) => info_hash_of(piece_key@) != "unknown"@ && hash@
                    == info_hash_of(piece_key@) && index == index_of(piece_key@),
                None => info_hash_of(piece_key@) == "unknown"@,
            },
    {
        let hash = self.extract_info_hash(piece_key);
        if text::same(hash.as_str(), "unknown") {
            None
        } else {
            Some((hash, self.extract_piece_index(piece_key)))
        }
    }

    /// `after` is what taking a piece out of the index makes of `self`.
    pub open spec fn deleted_to(
        &self,
        after: CacheManager,
        key: Seq<char>,
        file_size: Option<u64>,
    ) -> bool {
        &&& after.max_cache_size == self.max_cache_size
        &&& after.hit_count == self.hit_count
        &&& after.miss_count == self.miss_count
        &&& after.pieces() == self.pieces().remove(key)
        &&& after.verified_piece_keys@ == self.verified_piece_keys@.remove(key)
        &&& after.current_size == (match file_size {
            Some(size) => less(self.current_size, size as int),
            None => self.current_size,
        })
    }

    /// Takes a piece out of the index; `file_size` is the size of its removed file, where there
    /// was one.
    pub fn delete_piece(&mut self, piece_key: &str, file_size: Option<u64>)
        requires
            old(self).wf(),
        ensures
            final(self).wf(),
            old(self).deleted_to(*final(self), piece_key@, file_size),
    {
        match file_size {
            Some(size) => {
                self.current_size = if self.current_size >= size {
                    self.current_size - size
                } else {
                    0
                };
            },
            None => {},
        }
        self.metadata.remove(piece_key);
        self.verified_piece_keys.remove(piece_key);
    }

    pub fn extract_info_hash(&self, piece_key: &str) -> (r: String)
        ensures
            r@ == info_hash_of(piece_key@),
    {
        let parts = text::split_on(piece_key, ':');
        proof {
            assert(text::views(parts@)[0] == parts@[0]@);
        }
        if parts[0].as_str().is_empty() {
            "unknown".to_owned()
        } else {
            parts[0].clone()
        }
    }

    /// The index at the end of a key of the form `{info_hash}:piece:{index}`, or -1.
    pub fn extract_piece_index(&self, piece_key: &str) -> (r: i32)
        ensures
            r == index_of(piece_key@),
    {
        let parts = text::split_on(piece_key, ':');
        let last: usize = parts.len() - 1;
        proof {
            assert(text::views(parts@)[last as int] == parts@[last as int]@);
        }
        match text::parse_i32(parts[last].as_str()) {
            Some(i) => i,
            None => -1,
        }
    }

    pub fn piece_path(&self, piece_key: &str) -> (r: PiecePath)
        ensures
            r.directory@ == info_hash_of(piece_key@),
            r.file@ == piece_key@,
    {
        PiecePath { directory: self.extract_info_hash(piece_key), file: piece_key.to_owned() }
    }

    pub fn has_piece(&self, piece_key: &str) -> (r: bool)
        ensures
            r == self.pieces().contains_key(piece_key@),
    {
        self.metadata.contains_key(piece_key)
    }

    /// Takes what came of reading `size` bytes of a piece's file from `offset` on: the bytes, or
    /// what failed and why.
    pub fn read_piece_range(
        &self,
        piece_key: &str,
        offset: u64,
        size: usize,
        read: Result<Vec<u8>, (RangeFault, String)>,
    ) -> (r: TorrentResult<Vec<u8>>)
        ensures
            match read {
                Ok(data) => r == Ok::<Vec<u8>, TorrentError>(data),
                Err((fault, reason)) => r matches Err(TorrentError::IoError(m)) && m@
                    == range_fault_text(fault, piece_key@, offset as int, size as int, reason@),
            },
    {
        match read {
            Ok(data) => Ok(data),
            Err((fault, reason)) => {
                let mut m = match fault {
                    RangeFault::Open => "Failed to open cached piece ".to_owned(),
                    RangeFault::Seek => "Failed to seek in cached piece ".to_owned(),
                    RangeFault::Read => "Failed to read cached piece ".to_owned(),
                };
                m.append(piece_key);
                match fault {
                    RangeFault::Open => {
                        m.append(" for range read: ");
                    },
                    RangeFault::Seek => {
                        m.append(": ");
                    },
                    RangeFault::Read => {
                        m.append(" (wanted ");
                        m.append(text::decimal(size as u64).as_str());
                        m.append(" bytes at offset ");
                        m.append(text::decimal(offset).as_str());
                        m.append("): ");
                    },
                }
                m.append(reason.as_str());
                Err(TorrentError::IoError(m))
            },
        }
    }

    pub fn piece_metadata_size(&self, piece_key: &str) -> (r: Option<u64>)
        requires
            self.wf(),
        ensures
            r == (if self.pieces().contains_key(piece_key@) {
                Some(self.pieces()[piece_key@].size)
            } else {
                None
            }),
    {
        match self.metadata.get(piece_key) {
            Some(meta) => Some(meta.size),
            None => None,
        }
    }

    pub fn piece_hit_count(&self, piece_key: &str) -> (r: u64)
        requires
            self.wf(),
        ensures
            r == (if self.pieces().contains_key(piece_key@) {
                self.pieces()[piece_key@].hit_count
            } else {
                0
            }),
    {
        match self.metadata.get(piece_key) {
            Some(meta) => meta.hit_count,
            None => 0,
        }
    }

    pub fn is_piece_verified(&self, piece_key: &str) -> (r: bool)
        ensures
            r == self.verified(piece_key@),
    {
        self.verified_piece_keys.contains_key(piece_key)
    }

    /// The known pieces whose content has not been found good.
    pub fn unverified_pieces(&self) -> (r: Vec<String>)
        requires
            self.wf(),
        ensures
            text::views(r@).no_duplicates(),
            forall|k: Seq<char>| #[trigger]
                text::views(r@).contains(k) <==> self.pieces().contains_key(k) && !self.verified(k),
    {
        let mut r: Vec<String> = Vec::new();
        let mut i: usize = 0;
        let ghost keys = self.metadata.keys();
        while i < self.metadata.entries.len()
            invariant
                i <= keys.len(),
                keys == self.metadata.keys(),
                keys.no_duplicates(),
                text::views(r@).no_duplicates(),
                forall|k: Seq<char>| #[trigger]
                    text::views(r@).contains(k) <==> keys.take(i as int).contains(k)
                        && !self.verified(k),
            decreases keys.len() - i,
        {
            let key = self.metadata.entries[i].0.clone();
            let ghost before = text::views(r@);
            let ghost k = keys[i as int];
            proof {
                assert(key@ == k);
                text::push_contains(keys.take(i as int), k);
                assert(keys.take(i as int).push(k) =~= keys.take(i as int + 1));
                text::push_contains(before, k);
                if keys.take(i as int).contains(k) {
                    let j = choose|j: int| 0 <= j < i && #[trigger] keys.take(i as int)[j] == k;
                    assert(keys[j] == keys[i as int]);
                }
            }
            if !self.verified_piece_keys.contains_key(key.as_str()) {
                r.push(key);
                proof {
                    assert(text::views(r@) =~= before.push(k));
                    assert(!before.contains(k));
                    text::push_no_duplicates(before, k);
                }
            }
            i = i + 1;
        }
        proof {
            assert(keys.take(keys.len() as int) =~= keys);
        }
        r
    }

    /// Notes that the content of a piece passed the check of its hash.
    pub fn mark_verified(&mut self, piece_key: &str)
        requires
            old(self).wf(),
        ensures
            final(self).wf(),
            final(self).verified_piece_keys@ == old(self).verified_piece_keys@.insert(
                piece_key@,
                (),
            ),
            final(self).metadata == old(self).metadata,
            final(self).max_cache_size == old(self).max_cache_size,
            final(self).current_size == old(self).current_size,
            final(self).miss_count == old(self).miss_count,
            final(self).hit_count == old(self).hit_count,
    {
        self.verified_piece_keys.insert(piece_key.to_owned(), ());
    }

    pub fn current_size(&self) -> (r: u64)
        ensures
            r == self.current_size,
    {
        self.current_size
    }

    pub fn piece_count(&self) -> (r: usize)
        requires
            self.wf(),
        ensures
            r == self.pieces().len(),
    {
        self.metadata.len()
    }

    pub fn max_cache_size(&self) -> (r: u64)
        ensures
            r == self.max_cache_size,
    {
        self.max_cache_size
    }
}

/// A line of the index file.
pub fn format_metadata_line(key: &str, meta: PieceMetadata) -> (r: String)
    ensures
        r@ == metadata_line(key@, meta),
{
    let mut r = key.to_owned();
    r.push('\t');
    r.append(text::decimal(meta.last_accessed).as_str());
    r.push('\t');
    r.append(text::decimal(meta.size).as_str());
    r.push('\t');
    r.append(text::decimal(meta.hit_count).as_str());
    proof {
        assert(r@ =~= metadata_line(key@, meta));
    }
    r
}

/// Reads a line of the index file.
pub fn parse_metadata_line(line: &str) -> (r: Option<(String, PieceMetadata)>)
    ensures
        match r {
            Some((key, meta)) => parsed_line(line@) == Some((key@, meta)),
            None => parsed_line(line@) is None,
        },
{
    let parts = text::split_on(line, '\t');
    proof {
        assert forall|i: int| 0 <= i < parts@.len() implies text::split(line@, '\t')[i]
            == #[trigger] parts@[i]@ by {
            assert(text::views(parts@)[i] == parts@[i]@);
        }
    }
    if parts.len() < 3 {
        return None;
    }
    let last_accessed: u64 = match text::parse_number(parts[1].as_str(), u64::MAX) {
        Some(n) => n,
        None => {
            return None;
        },
    };
    let size: u64 = match text::parse_number(parts[2].as_str(), u64::MAX) {
        Some(n) => n,
        None => {
            return None;
        },
    };
    let hit_count: u64 = if parts.len() >= 4 {
        match text::parse_number(parts[3].as_str(), u64::MAX) {
            Some(n) => n,
            None => 0,
        }
    } else {
        0
    };
    Some((parts[0].clone(), PieceMetadata { last_accessed, size, hit_count }))
}

impl CacheManager {
    /// The registered sizes of the pieces of a torrent together.
    pub fn infohash_total_size(&self, info_hash: &str) -> (r: u64)
        requires
            size_of_torrent(self.metadata.entries@, info_hash@) <= u64::MAX,
        ensures
            r == size_of_torrent(self.metadata.entries@, info_hash@),
    {
        let prefix = colon_prefix(info_hash);
        let ghost all = self.metadata.entries@;
        let mut sum: u64 = 0;
        let mut i: usize = 0;
        proof {
            assert(all.take(0) =~= Seq::empty());
        }
        while i < self.metadata.entries.len()
            invariant
                i <= all.len(),
                all == self.metadata.entries@,
                prefix@ == info_hash@ + seq![':'],
                sum == size_of_torrent(all.take(i as int), info_hash@),
                size_of_torrent(all, info_hash@) <= u64::MAX,
            decreases all.len() - i,
        {
            proof {
                assert(all.take(i as int + 1).drop_last() =~= all.take(i as int));
                size_of_torrent_grows(all, info_hash@, i as int + 1);
            }
            if text::starts_with(self.metadata.entries[i].0.as_str(), prefix.as_str()) {
                sum = sum + self.metadata.entries[i].1.size;
            }
            i = i + 1;
        }
        proof {
            assert(all.take(all.len() as int) =~= all);
        }
        sum
    }

    /// Forgets the pieces of a torrent.
    pub fn remove_infohash_metadata(&mut self, info_hash: &str)
        requires
            old(self).wf(),
        ensures
            final(self).wf(),
            final(self).pieces() == without_torrent(old(self).pieces(), info_hash@),
            final(self).verified_piece_keys@ == without_torrent(
                old(self).verified_piece_keys@,
                info_hash@,
            ),
            final(self).max_cache_size == old(self).max_cache_size,
            final(self).current_size == old(self).current_size,
            final(self).miss_count == old(self).miss_count,
            final(self).hit_count == old(self).hit_count,
    {
        let prefix = colon_prefix(info_hash);
        let gone = self.metadata.keys_with_prefix(prefix.as_str());
        self.metadata.remove_all(&gone);
        let gone = self.verified_piece_keys.keys_with_prefix(prefix.as_str());
        self.verified_piece_keys.remove_all(&gone);
        proof {
            assert(self.pieces() =~= without_torrent(old(self).pieces(), info_hash@));
            assert(self.verified_piece_keys@ =~= without_torrent(
                old(self).verified_piece_keys@,
                info_hash@,
            ));
        }
    }

    /// Whether the pieces of a torrent may be purged: its info hash names a directory among the
    /// pieces, and nothing elsewhere.
    pub fn may_purge(&self, info_hash: &str) -> (r: bool)
        ensures
            r == plain_name(info_hash@),
    {
        if info_hash.is_empty() || text::same(info_hash, ".") || text::same(info_hash, "..") {
            return false;
        }
        let cs = text::chars_of(info_hash);
        let mut i: usize = 0;
        while i < cs.len()
            invariant
                i <= cs@.len(),
                cs@ == info_hash@,
                forall|j: int| 0 <= j < i ==> cs@[j] != '/',
            decreases cs@.len() - i,
        {
            if cs[i] == '/' {
                proof {
                    assert(info_hash@[i as int] == '/');
                    assert(info_hash@.contains('/'));
                }
                return false;
            }
            i = i + 1;
        }
        true
    }

    /// Forgets the pieces of a torrent that is deleted; `directory` says what stood where they
    /// are kept, and a directory has been removed by now. Nothing happens where the info hash is
    /// no plain name, or where something other than a directory stands there.
    pub fn remove_infohash_pieces(&mut self, info_hash: &str, directory: PiecesDirectory)
        requires
            old(self).wf(),
            size_of_torrent(old(self).metadata.entries@, info_hash@) <= u64::MAX,
        ensures
            final(self).wf(),
            final(self).max_cache_size == old(self).max_cache_size,
            final(self).miss_count == old(self).miss_count,
            final(self).hit_count == old(self).hit_count,
            if plain_name(info_hash@) && directory != PiecesDirectory::Other {
                &&& final(self).pieces() == without_torrent(old(self).pieces(), info_hash@)
                &&& final(self).verified_piece_keys@ == without_torrent(
                    old(self).verified_piece_keys@,
                    info_hash@,
                )
                &&& final(self).current_size == (if directory == PiecesDirectory::Directory {
                    less(
                        old(self).current_size,
                        size_of_torrent(old(self).metadata.entries@, info_hash@),
                    )
                } else {
                    old(self).current_size
                })
            } else {
                *final(self) == *old(self)
            },
    {
        if !self.may_purge(info_hash) || directory == PiecesDirectory::Other {
            return ;
        }
        if directory == PiecesDirectory::Directory {
            let removed: u64 = self.infohash_total_size(info_hash);
            self.current_size = if self.current_size >= removed {
                self.current_size - removed
            } else {
                0
            };
        }
        self.remove_infohash_metadata(info_hash);
    }

    /// The info hashes that the keys name, each once, in the order of a dictionary.
    pub fn get_all_infohashes(&self) -> (r: Vec<String>)
        requires
            self.wf(),
        ensures
            sorted_names(text::views(r@)),
            forall|h: Seq<char>| #[trigger]
                text::views(r@).contains(h) <==> h.len() > 0 && exists|k: Seq<char>| #[trigger]
                    self.pieces().contains_key(k) && first_part(k) == h,
    {
        let mut r: Vec<String> = Vec::new();
        let mut i: usize = 0;
        let ghost keys = self.metadata.keys();
        while i < self.metadata.entries.len()
            invariant
                i <= keys.len(),
                keys == self.metadata.keys(),
                sorted_names(text::views(r@)),
                forall|h: Seq<char>| #[trigger]
                    text::views(r@).contains(h) <==> h.len() > 0 && named_within(keys, h, i as int),
            decreases keys.len() - i,
        {
            let ghost before = text::views(r@);
            let parts = text::split_on(self.metadata.entries[i].0.as_str(), ':');
            let hash = parts[0].clone();
            proof {
                assert(text::views(parts@)[0] == parts@[0]@);
                assert(hash@ == first_part(keys[i as int]));
                assert forall|h: Seq<char>| #[trigger]
                    named_within(keys, h, i as int + 1) <==> named_within(keys, h, i as int)
                        || h == hash@ by {
                    if h == hash@ {
                        assert(first_part(keys[i as int]) == h);
                    }
                }
            }
            if !hash.as_str().is_empty() {
                insert_sorted(&mut r, hash);
            }
            i = i + 1;
        }
        proof {
            assert forall|h: Seq<char>| #[trigger]
                named_within(keys, h, keys.len() as int) <==> exists|k: Seq<char>| #[trigger]
                    self.pieces().contains_key(k) && first_part(k) == h by {
                if named_within(keys, h, keys.len() as int) {
                    let j = choose|j: int|
                        0 <= j < keys.len() && first_part(#[trigger] keys[j]) == h;
                    self.metadata.entry_is_mapped(j);
                    assert(self.pieces().contains_key(keys[j]));
                }
                if exists|k: Seq<char>| #[trigger]
                    self.pieces().contains_key(k) && first_part(k) == h {
                    let k = choose|k: Seq<char>| #[trigger]
                        self.pieces().contains_key(k) && first_part(k) == h;
                    let j = keys.index_of(k);
                    assert(first_part(keys[j]) == h);
                }
            }
        }
        r
    }

    /// What is known of the pieces of one torrent together.
    pub fn get_cache_stats_by_infohash(&self, info_hash: &str) -> (r: InfohashCacheStats)
        requires
            torrent_totals(self.metadata.entries@, info_hash@).1 <= u64::MAX,
            torrent_totals(self.metadata.entries@, info_hash@).2 <= u64::MAX,
        ensures
            r.info_hash@ == info_hash@,
            (r.piece_count as int, r.total_size as int, r.hit_count as int) == torrent_totals(
                self.metadata.entries@,
                info_hash@,
            ),
    {
        let ghost all = self.metadata.entries@;
        let mut piece_count: u64 = 0;
        let mut total_size: u64 = 0;
        let mut hit_count: u64 = 0;
        let mut i: usize = 0;
        proof {
            assert(all.take(0) =~= Seq::empty());
        }
        while i < self.metadata.entries.len()
            invariant
                i <= all.len(),
                all == self.metadata.entries@,
                piece_count <= i,
                (piece_count as int, total_size as int, hit_count as int) == torrent_totals(
                    all.take(i as int),
                    info_hash@,
                ),
                torrent_totals(all, info_hash@).1 <= u64::MAX,
                torrent_totals(all, info_hash@).2 <= u64::MAX,
            decreases all.len() - i,
        {
            proof {
                assert(all.take(i as int + 1).drop_last() =~= all.take(i as int));
                torrent_totals_grow(all, info_hash@, i as int + 1);
            }
            let parts = text::split_on(self.metadata.entries[i].0.as_str(), ':');
            proof {
                assert(text::views(parts@)[0] == parts@[0]@);
            }
            if text::same(parts[0].as_str(), info_hash) {
                piece_count = piece_count + 1;
                total_size = total_size + self.metadata.entries[i].1.size;
                hit_count = hit_count + self.metadata.entries[i].1.hit_count;
            }
            i = i + 1;
        }
        proof {
            assert(all.take(all.len() as int) =~= all);
        }
        InfohashCacheStats {
            info_hash: info_hash.to_owned(),
            piece_count,
            total_size,
            hit_count,
        }
    }
}

/// The info hash and a colon.
fn colon_prefix(info_hash: &str) -> (r: String)
    ensures
        r@ == info_hash@ + seq![':'],
{
    let mut r = info_hash.to_owned();
    r.push(':');
    proof {
        assert(r@ =~= info_hash@ + seq![':']);
    }
    r
}

/// Each name comes before all later ones.
pub open spec fn sorted_names(s: Seq<Seq<char>>) -> bool {
    forall|i: int, j: int| 0 <= i < j < s.len() ==> text::precedes(#[trigger] s[i], #[trigger] s[j])
}

/// One of the first `n` keys names the info hash.
spec fn named_within(keys: Seq<Seq<char>>, h: Seq<char>, n: int) -> bool {
    exists|j: int| 0 <= j < n && first_part(#[trigger] keys[j]) == h
}

/// Puts a name into its place among sorted names, unless it is there.
fn insert_sorted(v: &mut Vec<String>, s: String)
    requires
        sorted_names(text::views(old(v)@)),
    ensures
        sorted_names(text::views(final(v)@)),
        forall|h: Seq<char>| #[trigger]
            text::views(final(v)@).contains(h) <==> text::views(old(v)@).contains(h) || h == s@,
{
    let ghost before = text::views(v@);
    let mut i: usize = 0;
    while i < v.len()
        invariant
            i <= v@.len(),
            *v == *old(v),
            before == text::views(v@),
            sorted_names(before),
            forall|j: int| 0 <= j < i ==> text::precedes(#[trigger] before[j], s@),
        ensures
            *v == *old(v),
            i <= v@.len(),
            forall|j: int| 0 <= j < i ==> text::precedes(#[trigger] before[j], s@),
            i < v@.len() ==> !text::precedes(before[i as int], s@),
        decreases v@.len() - i,
    {
        proof {
            assert(before[i as int] == v@[i as int]@);
        }
        if !text::comes_before(v[i].as_str(), s.as_str()) {
            break;
        }
        i = i + 1;
    }
    proof {
        if i < v@.len() {
            assert(before[i as int] == v@[i as int]@);
        }
    }
    if i < v.len() && text::same(v[i].as_str(), s.as_str()) {
        proof {
            assert(before.contains(before[i as int]));
        }
        return ;
    }
    let ghost name = s@;
    v.insert(i, s);
    proof {
        let after = text::views(v@);
        assert(after =~= before.insert(i as int, name));
        if i < before.len() {
            text::precedes_is_total(before[i as int], name);
        }
        assert forall|a: int, b: int| 0 <= a < b < after.len() implies text::precedes(
            #[trigger] after[a],
            #[trigger] after[b],
        ) by {
            if a < i && b < i {
                assert(after[a] == before[a] && after[b] == before[b]);
            } else if a < i && b == i {
                assert(after[a] == before[a]);
            } else if a < i {
                assert(after[a] == before[a] && after[b] == before[b - 1]);
            } else if a == i {
                assert(after[b] == before[b - 1]);
                if b - 1 > i {
                    text::precedes_is_transitive(name, before[i as int], before[b - 1]);
                }
            } else {
                assert(after[a] == before[a - 1] && after[b] == before[b - 1]);
            }
        }
        assert forall|h: Seq<char>| #[trigger] after.contains(h) <==> before.contains(h) || h
            == name by {
            if before.contains(h) {
                let j = choose|j: int| 0 <= j < before.len() && #[trigger] before[j] == h;
                if j < i {
                    assert(after[j] == h);
                } else {
                    assert(after[j + 1] == h);
                }
            }
            if h == name {
                assert(after[i as int] == h);
            }
            if after.contains(h) {
                let j = choose|j: int| 0 <= j < after.len() && #[trigger] after[j] == h;
                if j < i {
                    assert(before[j] == h);
                } else if j > i {
                    assert(before[j - 1] == h);
                }
            }
        }
    }
}

proof fn size_of_torrent_grows(entries: Seq<(String, PieceMetadata)>, h: Seq<char>, n: int)
    requires
        0 <= n <= entries.len(),
    ensures
        size_of_torrent(entries.take(n), h) <= size_of_torrent(entries, h),
    decreases entries.len() - n,
{
    if n < entries.len() {
        size_of_torrent_grows(entries, h, n + 1);
        assert(entries.take(n + 1).drop_last() =~= entries.take(n));
    } else {
        assert(entries.take(n) =~= entries);
    }
}

proof fn torrent_totals_grow(entries: Seq<(String, PieceMetadata)>, h: Seq<char>, n: int)
    requires
        0 <= n <= entries.len(),
    ensures
        torrent_totals(entries.take(n), h).1 <= torrent_totals(entries, h).1,
        torrent_totals(entries.take(n), h).2 <= torrent_totals(entries, h).2,
    decreases entries.len() - n,
{
    if n < entries.len() {
        torrent_totals_grow(entries, h, n + 1);
        assert(entries.take(n + 1).drop_last() =~= entries.take(n));
    } else {
        assert(entries.take(n) =~= entries);
    }
}

/// Where a file of the cache directory itself belongs: a file with a colon in its name is a
/// piece, and goes into the directory of its first part.
pub open spec fn migrated_to(filename: Seq<char>) -> Option<Seq<char>> {
    if filename != metadata_file_name() && filename.contains(':') {
        Some(first_part(filename))
    } else {
        None
    }
}

/// The directory that a piece file at the top of the cache directory has to be moved into.
pub fn migration_target(filename: &str) -> (r: Option<String>)
    ensures
        match r {
            Some(dir) => migrated_to(filename@) == Some(dir@),
            None => migrated_to(filename@) is None,
        },
{
    if text::same(filename, "cache_metadata.txt") {
        return None;
    }
    let parts = text::split_on(filename, ':');
    proof {
        assert(text::views(parts@)[0] == parts@[0]@);
        if filename@.contains(':') {
            text::split_of_holder(filename@, ':');
        } else {
            text::split_of_plain(filename@, ':');
        }
        assert(text::views(parts@).len() == parts@.len());
    }
    if parts.len() < 2 {
        None
    } else {
        let dir = parts[0].clone();
        proof {
            assert(dir@ == first_part(filename@));
        }
        Some(dir)
    }
}

proof fn numerals_hold_no(n: int, c: char)
    requires
        n >= 0,
        c == '\t' || c == '\n' || c == '\r',
    ensures
        !text::dec(n).contains(c),
        text::dec(n).len() > 0,
{
    text::numeral_reads_dec(n, n);
    assert forall|i: int| 0 <= i < text::dec(n).len() implies text::dec(n)[i] != c by {
        assert(text::is_digit(text::dec(n)[i]));
    }
}

/// Reading the line for a piece gives the piece back, where its key holds no tab.
pub proof fn line_round_trip(key: Seq<char>, meta: PieceMetadata)
    requires
        !key.contains('\t'),
    ensures
        parsed_line(metadata_line(key, meta)) == Some((key, meta)),
{
    let a = text::dec(meta.last_accessed as int);
    let b = text::dec(meta.size as int);
    let c = text::dec(meta.hit_count as int);
    numerals_hold_no(meta.last_accessed as int, '\t');
    numerals_hold_no(meta.size as int, '\t');
    numerals_hold_no(meta.hit_count as int, '\t');
    text::numeral_reads_dec(meta.last_accessed as int, u64::MAX as int);
    text::numeral_reads_dec(meta.size as int, u64::MAX as int);
    text::numeral_reads_dec(meta.hit_count as int, u64::MAX as int);
    text::split_of_plain(key, '\t');
    text::split_of_plain(a, '\t');
    text::split_of_plain(b, '\t');
    text::split_of_plain(c, '\t');
    let bc = b + seq!['\t'] + c;
    let abc = a + seq!['\t'] + bc;
    text::split_of_joined(b, c, '\t');
    text::split_of_joined(a, bc, '\t');
    text::split_of_joined(key, abc, '\t');
    assert(metadata_line(key, meta) =~= key + seq!['\t'] + abc);
    assert(text::split(metadata_line(key, meta), '\t') =~= seq![key, a, b, c]);
}

proof fn line_is_one_line(key: Seq<char>, meta: PieceMetadata)
    requires
        !key.contains('\n'),
    ensures
        !metadata_line(key, meta).contains('\n'),
        metadata_line(key, meta).len() > 0,
        metadata_line(key, meta).last() != '\r',
{
    let a = text::dec(meta.last_accessed as int);
    let b = text::dec(meta.size as int);
    let c = text::dec(meta.hit_count as int);
    numerals_hold_no(meta.last_accessed as int, '\n');
    numerals_hold_no(meta.size as int, '\n');
    numerals_hold_no(meta.hit_count as int, '\n');
    numerals_hold_no(meta.hit_count as int, '\r');
    let line = metadata_line(key, meta);
    let head = key + seq!['\t'] + a + seq!['\t'] + b + seq!['\t'];
    assert(line == head + c);
    assert(line.last() == c[c.len() - 1]);
    assert(c.contains(c[c.len() - 1]));
    assert forall|i: int| 0 <= i < line.len() implies line[i] != '\n' by {
        let k1 = key.len() as int;
        let k2 = k1 + 1 + a.len();
        let k3 = k2 + 1 + b.len();
        if i < k1 {
            assert(line[i] == key[i]);
            assert(key.contains(key[i]));
        } else if k1 < i < k2 {
            assert(line[i] == a[i - k1 - 1]);
            assert(a.contains(a[i - k1 - 1]));
        } else if k2 < i < k3 {
            assert(line[i] == b[i - k2 - 1]);
            assert(b.contains(b[i - k2 - 1]));
        } else if i > k3 {
            assert(line[i] == c[i - k3 - 1]);
            assert(c.contains(c[i - k3 - 1]));
        }
    }
}

/// The keys of entries hold neither tabs nor line feeds.
pub open spec fn keys_fit_lines(entries: Seq<(String, PieceMetadata)>) -> bool {
    forall|i: int|
        0 <= i < entries.len() ==> !(#[trigger] entries[i]).0@.contains('\t')
            && !entries[i].0@.contains('\n')
}

/// The lines of the entries.
spec fn entry_lines(entries: Seq<(String, PieceMetadata)>) -> Seq<Seq<char>> {
    Seq::new(entries.len(), |i: int| metadata_line(entries[i].0@, entries[i].1))
}

proof fn text_falls_into_lines(entries: Seq<(String, PieceMetadata)>)
    requires
        keys_fit_lines(entries),
    ensures
        text::split(metadata_text_of(entries), '\n') == entry_lines(entries).push(
            Seq::<char>::empty(),
        ),
        text::text_lines(metadata_text_of(entries)) == entry_lines(entries),
    decreases entries.len(),
{
    if entries.len() == 0 {
        assert(entry_lines(entries).push(Seq::<char>::empty()) =~= seq![Seq::<char>::empty()]);
    } else {
        let head = entries.drop_last();
        let line = metadata_line(entries.last().0@, entries.last().1);
        let before = metadata_text_of(head);
        assert forall|i: int| 0 <= i < head.len() implies !(#[trigger] head[i]).0@.contains('\t')
            && !head[i].0@.contains('\n') by {
            assert(head[i] == entries[i]);
        }
        text_falls_into_lines(head);
        assert(entries[entries.len() - 1].0@ == entries.last().0@);
        line_is_one_line(entries.last().0@, entries.last().1);
        text::split_of_plain(line, '\n');
        // The text ends with a line feed, so what follows it is one more, empty part.
        text::split_of_joined(line, Seq::empty(), '\n');
        assert(text::split(Seq::<char>::empty(), '\n') =~= seq![Seq::<char>::empty()]);
        assert(line + seq!['\n'] + Seq::<char>::empty() =~= line + seq!['\n']);
        assert(text::split(line + seq!['\n'], '\n') =~= seq![line, Seq::<char>::empty()]);
        text::split_after_separator(before, line + seq!['\n'], '\n', entry_lines(head));
        assert(before + (line + seq!['\n']) =~= metadata_text_of(entries));
        assert(entry_lines(entries).push(Seq::<char>::empty()) =~= entry_lines(head)
            + seq![line, Seq::<char>::empty()]);
    }
    let parts = entry_lines(entries).push(Seq::<char>::empty());
    assert(text::text_lines(metadata_text_of(entries)) =~= entry_lines(entries)) by {
        assert forall|i: int| 0 <= i < entries.len() implies text::chomped(#[trigger] parts[i])
            == entry_lines(entries)[i] by {
            assert(entries[i].0@ == entries[i].0@);
            line_is_one_line(entries[i].0@, entries[i].1);
        }
    }
}

proof fn lines_give_entries(t: &TextMap<PieceMetadata>, n: int)
    requires
        t.wf(),
        keys_fit_lines(t.entries@),
        0 <= n <= t.entries@.len(),
    ensures
        with_lines(Map::empty(), entry_lines(t.entries@).take(n)) == Map::new(
            |k: Seq<char>| t.keys().take(n).contains(k),
            |k: Seq<char>| t@[k],
        ),
    decreases n,
{
    let lines = entry_lines(t.entries@);
    if n == 0 {
        assert(lines.take(0) =~= Seq::empty());
        assert(with_lines(Map::empty(), lines.take(0)) =~= Map::new(
            |k: Seq<char>| t.keys().take(0).contains(k),
            |k: Seq<char>| t@[k],
        ));
    } else {
        lines_give_entries(t, n - 1);
        assert(lines.take(n).drop_last() =~= lines.take(n - 1));
        let key = t.keys()[n - 1];
        assert(t.entries@[n - 1].0@ == key);
        line_round_trip(key, t.entries@[n - 1].1);
        t.entry_is_mapped(n - 1);
        assert(t.keys().take(n - 1).push(key) =~= t.keys().take(n));
        text::push_contains(t.keys().take(n - 1), key);
        assert(with_lines(Map::empty(), lines.take(n)) =~= Map::new(
            |k: Seq<char>| t.keys().take(n).contains(k),
            |k: Seq<char>| t@[k],
        ));
    }
}

/// Reading the index file that a cache wrote gives every piece back as it was, where no key holds
/// a tab or a line feed.
pub proof fn index_file_round_trip(cache: CacheManager)
    requires
        cache.wf(),
        keys_fit_lines(cache.metadata.entries@),
    ensures
        with_lines(
            Map::empty(),
            text::text_lines(metadata_text_of(cache.metadata.entries@)),
        ) == cache.pieces(),
{
    let t = &cache.metadata;
    text_falls_into_lines(t.entries@);
    lines_give_entries(t, t.entries@.len() as int);
    assert(entry_lines(t.entries@).take(t.entries@.len() as int) =~= entry_lines(t.entries@));
    assert(t.keys().take(t.entries@.len() as int) =~= t.keys());
    assert(with_lines(Map::empty(), entry_lines(t.entries@)) =~= cache.pieces());
}

/// Evicting a piece leaves one piece less, so that evictions come to an end.
pub proof fn eviction_comes_to_an_end(cache: CacheManager, key: Seq<char>)
    requires
        cache.wf(),
        cache.is_oldest(key),
    ensures
        cache.pieces().remove(key).dom().len() == cache.pieces().dom().len() - 1,
{
    cache.metadata.len_is_entries();
    assert(cache.pieces().remove(key).dom() =~= cache.pieces().dom().remove(key));
}

/// Where evictions have come to an end, the cache is within its limit or holds no piece.
pub proof fn settled_cache_is_within_its_limit(cache: CacheManager)
    requires
        cache.wf(),
        !cache.must_evict(),
    ensures
        cache.current_size <= cache.max_cache_size || cache.pieces() == Map::<
            Seq<char>,
            PieceMetadata,
        >::empty(),
{
    cache.metadata.len_is_entries();
    if cache.current_size > cache.max_cache_size {
        assert(cache.pieces() =~= Map::<Seq<char>, PieceMetadata>::empty());
    }
}

/// `caches` are the states of a cache in which one piece after another is evicted: each time one of
/// those that were read longest ago, as long as the cache is over its limit.
pub open spec fn evictions(
    caches: Seq<CacheManager>,
    keys: Seq<Seq<char>>,
    file_sizes: Seq<Option<u64>>,
) -> bool {
    &&& caches.len() == keys.len() + 1
    &&& file_sizes.len() == keys.len()
    &&& forall|i: int| 0 <= i < caches.len() ==> (#[trigger] caches[i]).wf()
    &&& forall|i: int|
        0 <= i < keys.len() ==> {
            &&& (#[trigger] caches[i]).must_evict()
            &&& caches[i].is_oldest(keys[i])
            &&& caches[i].deleted_to(caches[i + 1], keys[i], file_sizes[i])
        }
}

proof fn evicted_so_far(
    caches: Seq<CacheManager>,
    keys: Seq<Seq<char>>,
    file_sizes: Seq<Option<u64>>,
    n: int,
)
    requires
        evictions(caches, keys, file_sizes),
        0 <= n <= keys.len(),
    ensures
        caches[n].max_cache_size == caches[0].max_cache_size,
        forall|i: int| 0 <= i < n ==> caches[0].pieces().contains_key(#[trigger] keys[i]),
        forall|i: int| 0 <= i < n ==> !caches[n].pieces().contains_key(#[trigger] keys[i]),
        forall|k: Seq<char>| #[trigger]
            caches[n].pieces().contains_key(k) <==> caches[0].pieces().contains_key(k)
                && !keys.take(n).contains(k),
        forall|k: Seq<char>| #[trigger]
            caches[n].pieces().contains_key(k) ==> caches[n].pieces()[k] == caches[0].pieces()[k],
        forall|i: int, k: Seq<char>|
            #![trigger keys[i], caches[n].pieces().contains_key(k)]
            0 <= i < n && caches[n].pieces().contains_key(k)
                ==> caches[0].pieces()[keys[i]].last_accessed
                <= caches[0].pieces()[k].last_accessed,
        forall|i: int, j: int|
            0 <= i < j < n ==> (#[trigger] keys[i]) != (#[trigger] keys[j])
                && caches[0].pieces()[keys[i]].last_accessed
                <= caches[0].pieces()[keys[j]].last_accessed,
    decreases n,
{
    if n > 0 {
        let m = n - 1;
        evicted_so_far(caches, keys, file_sizes, m);
        let before = caches[m];
        let gone = keys[m];
        assert(before.is_oldest(gone) && before.deleted_to(caches[n], gone, file_sizes[m]));
        assert(before.pieces().contains_key(gone));
        assert(keys.take(n) =~= keys.take(m).push(gone));
        assert forall|k: Seq<char>| #[trigger]
            caches[n].pieces().contains_key(k) <==> caches[0].pieces().contains_key(k)
                && !keys.take(n).contains(k) by {
            text::push_contains(keys.take(m), gone);
            assert(caches[n].pieces().contains_key(k) <==> before.pieces().contains_key(k) && k
                != gone);
        }
        assert forall|i: int, k: Seq<char>|
            #![trigger keys[i], caches[n].pieces().contains_key(k)]
            0 <= i < n && caches[n].pieces().contains_key(
                k,
            ) implies caches[0].pieces()[keys[i]].last_accessed
            <= caches[0].pieces()[k].last_accessed by {
            assert(before.pieces().contains_key(k));
        }
        assert forall|i: int, j: int| 0 <= i < j < n implies (#[trigger] keys[i])
            != (#[trigger] keys[j]) && caches[0].pieces()[keys[i]].last_accessed
            <= caches[0].pieces()[keys[j]].last_accessed by {
            if j == m {
                assert(!before.pieces().contains_key(keys[i]));
            }
        }
    }
}

/// Evicting until the cache is settled takes the pieces that were read longest ago, in that order,
/// and no more of them than needed: every other piece stays as it was and was read no earlier than
/// any that went, the cache is within its limit or holds no piece, and with the last file that was
/// removed it would exceed the limit.
pub proof fn eviction_takes_the_oldest_only(
    caches: Seq<CacheManager>,
    keys: Seq<Seq<char>>,
    file_sizes: Seq<Option<u64>>,
)
    requires
        evictions(caches, keys, file_sizes),
        !caches.last().must_evict(),
    ensures
        caches.last().pieces() == caches[0].pieces().remove_keys(keys.to_set()),
        keys.no_duplicates(),
        forall|i: int| 0 <= i < keys.len() ==> caches[0].pieces().contains_key(#[trigger] keys[i]),
        forall|i: int, k: Seq<char>|
            #![trigger keys[i], caches.last().pieces().contains_key(k)]
            0 <= i < keys.len() && caches.last().pieces().contains_key(k)
                ==> caches[0].pieces()[keys[i]].last_accessed
                <= caches[0].pieces()[k].last_accessed,
        forall|i: int, j: int|
            0 <= i < j < keys.len() ==> caches[0].pieces()[#[trigger] keys[i]].last_accessed
                <= caches[0].pieces()[#[trigger] keys[j]].last_accessed,
        caches.last().current_size <= caches[0].max_cache_size || caches.last().pieces() == Map::<
            Seq<char>,
            PieceMetadata,
        >::empty(),
        keys.len() > 0 ==> caches.last().current_size + (match file_sizes.last() {
            Some(size) => size as int,
            None => 0,
        }) > caches[0].max_cache_size,
{
    let n = keys.len() as int;
    evicted_so_far(caches, keys, file_sizes, n);
    assert(keys.take(n) =~= keys);
    assert(caches.last() == caches[n]);
    assert(caches.last().pieces() =~= caches[0].pieces().remove_keys(keys.to_set())) by {
        assert forall|k: Seq<char>| #[trigger] keys.to_set().contains(k) == keys.contains(k) by {}
    }
    settled_cache_is_within_its_limit(caches.last());
    if n > 0 {
        evicted_so_far(caches, keys, file_sizes, n - 1);
        assert(caches[n - 1].must_evict());
        assert(caches[n - 1].deleted_to(caches[n], keys[n - 1], file_sizes[n - 1]));
    }
}

/// Forgetting one torrent leaves the pieces of every other one as they were.
pub proof fn other_torrents_stay(cache: CacheManager, info_hash: Seq<char>, key: Seq<char>)
    requires
        !belongs_to(key, info_hash),
    ensures
        without_torrent(cache.pieces(), info_hash).contains_key(key) == cache.pieces().contains_key(
            key,
        ),
        cache.pieces().contains_key(key) ==> without_torrent(cache.pieces(), info_hash)[key]
            == cache.pieces()[key],
        without_torrent(cache.verified_piece_keys@, info_hash).contains_key(key)
            == cache.verified(key),
{
}

/// Over any accesses, each known piece counts the accesses to it, and the cache counts those that
/// found a piece and those that found none. No access makes a piece known or forgets one.
pub proof fn accesses_are_counted(
    caches: Seq<CacheManager>,
    keys: Seq<Seq<char>>,
    times: Seq<u64>,
    key: Seq<char>,
)
    requires
        caches.len() == keys.len() + 1,
        times.len() == keys.len(),
        forall|i: int|
            0 <= i < keys.len() ==> (#[trigger] caches[i]).accessed_to(
                caches[i + 1],
                keys[i],
                times[i],
            ),
    ensures
        caches.last().pieces().dom() == caches[0].pieces().dom(),
        caches[0].pieces().contains_key(key) ==> caches.last().pieces()[key].hit_count
            == caches[0].pieces()[key].hit_count + accesses(keys, key),
        caches.last().hit_count == caches[0].hit_count + known_accesses(
            keys,
            caches[0].pieces().dom(),
        ),
        caches.last().hit_count + caches.last().miss_count == caches[0].hit_count
            + caches[0].miss_count + keys.len(),
    decreases keys.len(),
{
    if keys.len() > 0 {
        let n = keys.len() - 1;
        let earlier = caches.drop_last();
        assert forall|i: int| 0 <= i < n implies (#[trigger] earlier[i]).accessed_to(
            earlier[i + 1],
            keys.drop_last()[i],
            times.drop_last()[i],
        ) by {
            assert(caches[i].accessed_to(caches[i + 1], keys[i], times[i]));
        }
        accesses_are_counted(earlier, keys.drop_last(), times.drop_last(), key);
        assert(caches[n].accessed_to(caches[n + 1], keys[n], times[n]));
        assert(caches[n + 1].pieces().dom() =~= caches[n].pieces().dom());
    }
}

/// The pieces, sizes and counts of the torrents, each taken once, add up to those of the cache.
pub proof fn torrents_add_up(cache: CacheManager, info_hashes: Seq<Seq<char>>)
    requires
        cache.wf(),
        info_hashes.no_duplicates(),
        forall|key: Seq<char>| #[trigger]
            cache.pieces().contains_key(key) ==> info_hashes.contains(first_part(key)),
    ensures
        ({
            let (s, h) = entry_totals(cache.metadata.entries@);
            totals_together(cache.metadata.entries@, info_hashes) == (
                cache.pieces().dom().len() as int,
                s,
                h,
            )
        }),
{
    let entries = cache.metadata.entries@;
    cache.metadata.len_is_entries();
    assert forall|i: int| 0 <= i < entries.len() implies info_hashes.contains(
        first_part((#[trigger] entries[i]).0@),
    ) by {
        cache.metadata.entry_is_mapped(i);
        assert(cache.pieces().contains_key(entries[i].0@));
    }
    entries_add_up(entries, info_hashes);
}

proof fn entries_add_up(entries: Seq<(String, PieceMetadata)>, info_hashes: Seq<Seq<char>>)
    requires
        info_hashes.no_duplicates(),
        forall|i: int|
            0 <= i < entries.len() ==> info_hashes.contains(first_part((#[trigger] entries[i]).0@)),
    ensures
        totals_together(entries, info_hashes) == (
            entries.len() as int,
            entry_totals(entries).0,
            entry_totals(entries).1,
        ),
    decreases entries.len(),
{
    if entries.len() == 0 {
        nothing_together(entries, info_hashes);
    } else {
        assert forall|i: int| 0 <= i < entries.drop_last().len() implies info_hashes.contains(
            first_part((#[trigger] entries.drop_last()[i]).0@),
        ) by {
            assert(entries[i] == entries.drop_last()[i]);
        }
        entries_add_up(entries.drop_last(), info_hashes);
        one_more_entry(entries, info_hashes);
        assert(entries.last() == entries[entries.len() - 1]);
    }
}

proof fn nothing_together(entries: Seq<(String, PieceMetadata)>, info_hashes: Seq<Seq<char>>)
    requires
        entries.len() == 0,
    ensures
        totals_together(entries, info_hashes) == (0int, 0int, 0int),
    decreases info_hashes.len(),
{
    if info_hashes.len() > 0 {
        nothing_together(entries, info_hashes.drop_last());
    }
}

/// The last entry counts in one of the torrents where its torrent is among them, and in none
/// where it is not.
proof fn one_more_entry(entries: Seq<(String, PieceMetadata)>, info_hashes: Seq<Seq<char>>)
    requires
        entries.len() > 0,
        info_hashes.no_duplicates(),
    ensures
        ({
            let (n, s, h) = totals_together(entries.drop_last(), info_hashes);
            totals_together(entries, info_hashes) == if info_hashes.contains(
                first_part(entries.last().0@),
            ) {
                (n + 1, s + entries.last().1.size, h + entries.last().1.hit_count)
            } else {
                (n, s, h)
            }
        }),
    decreases info_hashes.len(),
{
    if info_hashes.len() > 0 {
        let fewer = info_hashes.drop_last();
        let mine = first_part(entries.last().0@);
        one_more_entry(entries, fewer);
        assert(info_hashes =~= fewer.push(info_hashes.last()));
        if fewer.contains(mine) {
            let i = choose|i: int| 0 <= i < fewer.len() && fewer[i] == mine;
            assert(info_hashes[i] == mine);
        } else if info_hashes.last() == mine {
            assert(info_hashes[info_hashes.len() - 1] == mine);
        } else {
            assert(!info_hashes.contains(mine)) by {
                if info_hashes.contains(mine) {
                    let i = choose|i: int| 0 <= i < info_hashes.len() && info_hashes[i] == mine;
                    assert(fewer[i] == mine);
                }
            }
        }
    }
}

/// The key of a piece names its torrent, its index and the directory of its file.
pub proof fn piece_key_names_the_piece(info_hash: Seq<char>, index: i32)
    requires
        info_hash.len() > 0,
        !info_hash.contains(':'),
        index >= 0,
    ensures
        info_hash_of(piece_key::piece_key(info_hash, index as int)) == info_hash,
        index_of(piece_key::piece_key(info_hash, index as int)) == index,
        belongs_to(piece_key::piece_key(info_hash, index as int), info_hash),
{
    piece_key::piece_key_splits(info_hash, index as int);
    text::signed_numeral_reads_dec(index as int);
    let key = piece_key::piece_key(info_hash, index as int);
    let head = info_hash + seq![':'];
    reveal_strlit(":piece:");
    assert(key.subrange(0, head.len() as int) =~= head);
}

/// A scan knows the files that were found by their sizes: a file that was known keeps its time and its
/// count, a new one has none. What was known and not found stays known. The index file is no piece.
pub proof fn found_files_are_known(
    m: Map<Seq<char>, PieceMetadata>,
    files: Seq<ScannedFile>,
    i: int,
)
    requires
        0 <= i < files.len(),
        forall|j: int, k: int|
            0 <= j < k < files.len() ==> (#[trigger] files[j]).name@ != (#[trigger] files[k]).name@,
    ensures
        files[i].name@ != "cache_metadata.txt"@ ==> {
            let after = with_files(m, files);
            let name = files[i].name@;
            &&& after.contains_key(name)
            &&& after[name].size == files[i].size
            &&& m.contains_key(name) ==> after[name].last_accessed == m[name].last_accessed
                && after[name].hit_count == m[name].hit_count
            &&& !m.contains_key(name) ==> after[name].last_accessed == files[i].seen_at
                && after[name].hit_count == 0
        },
    decreases files.len(),
{
    let fewer = files.drop_last();
    assert(files.last() == files[files.len() - 1]);
    if i == files.len() - 1 {
        assert forall|j: int| 0 <= j < fewer.len() implies (#[trigger] fewer[j]).name@
            != files[i].name@ by {
            assert(files[j].name@ != files[i].name@);
        }
        others_stay_known(m, fewer, files[i].name@);
    } else {
        assert forall|j: int, k: int| 0 <= j < k < fewer.len() implies (#[trigger] fewer[j]).name@
            != (#[trigger] fewer[k]).name@ by {
            assert(files[j].name@ != files[k].name@);
        }
        assert(files[i].name@ != files[files.len() - 1].name@);
        assert(fewer[i] == files[i]);
        found_files_are_known(m, fewer, i);
    }
}

/// A scan leaves what is known of a piece whose file was not found.
pub proof fn others_stay_known(
    m: Map<Seq<char>, PieceMetadata>,
    files: Seq<ScannedFile>,
    name: Seq<char>,
)
    requires
        forall|j: int| 0 <= j < files.len() ==> (#[trigger] files[j]).name@ != name,
    ensures
        with_files(m, files).contains_key(name) == m.contains_key(name),
        m.contains_key(name) ==> with_files(m, files)[name] == m[name],
    decreases files.len(),
{
    if files.len() > 0 {
        let fewer = files.drop_last();
        assert forall|j: int| 0 <= j < fewer.len() implies (#[trigger] fewer[j]).name@ != name by {
            assert(fewer[j] == files[j]);
        }
        assert(files.last() == files[files.len() - 1]);
        others_stay_known(m, fewer, name);
    }
}

/// The size of a cache directory is that of its files together, the index file aside: one more file
/// adds its size, and no file takes none.
pub proof fn sizes_of_files_add_up(files: Seq<ScannedFile>, more: ScannedFile)
    ensures
        files_size(Seq::<ScannedFile>::empty()) == 0,
        more.name@ != "cache_metadata.txt"@ ==> files_size(files.push(more)) == files_size(files)
            + more.size,
        more.name@ == "cache_metadata.txt"@ ==> files_size(files.push(more)) == files_size(files),
{
    assert(files.push(more).drop_last() =~= files);
}

/// A torrent that is forgotten leaves none of its pieces behind, whatever their indices, and every
/// piece of another torrent.
pub proof fn forgotten_torrent_leaves_nothing(
    cache: CacheManager,
    info_hash: Seq<char>,
    index: int,
    other: Seq<char>,
    other_index: int,
)
    requires
        !info_hash.contains(':'),
        !other.contains(':'),
        info_hash != other,
    ensures
        ({
            let after = without_torrent(cache.pieces(), info_hash);
            let mine = piece_key::piece_key(info_hash, index);
            let theirs = piece_key::piece_key(other, other_index);
            &&& !after.contains_key(mine)
            &&& after.contains_key(theirs) == cache.pieces().contains_key(theirs)
            &&& cache.pieces().contains_key(theirs) ==> after[theirs] == cache.pieces()[theirs]
        }),
{
    let mine = piece_key::piece_key(info_hash, index);
    let theirs = piece_key::piece_key(other, other_index);
    let head = info_hash + seq![':'];
    assert(text::begins(mine, head)) by {
        reveal_strlit(":piece:");
        assert(mine.take(head.len() as int) =~= head);
    }
    reveal_strlit(":piece:");
    if text::begins(theirs, head) {
        let n = info_hash.len() as int;
        let m = other.len() as int;
        assert(theirs.take(head.len() as int) == head);
        assert(theirs[n] == head[n]);
        assert(theirs[m] == ':');
        if n < m {
            assert(theirs[n] == other[n]);
            assert(other.contains(':'));
        } else if m < n {
            assert(theirs[m] == head[m]);
            assert(head[m] == info_hash[m]);
            assert(info_hash.contains(':'));
        } else {
            assert(theirs.take(n) =~= other);
            assert(head.take(n) =~= info_hash);
            assert forall|i: int| 0 <= i < n implies other[i] == info_hash[i] by {
                assert(theirs[i] == head[i]);
            }
            assert(other =~= info_hash);
        }
    }
}

/// An access to a known piece sets its time and leaves its size, and all that is known of the others; a
/// piece that is taken out is known no more, and the size of its file is free again.
pub proof fn access_and_removal_touch_one_piece(
    before: CacheManager,
    accessed: CacheManager,
    removed: CacheManager,
    key: Seq<char>,
    now: u64,
    file_size: Option<u64>,
    other: Seq<char>,
)
    requires
        before.pieces().contains_key(key),
        other != key,
        before.accessed_to(accessed, key, now),
        before.deleted_to(removed, key, file_size),
    ensures
        accessed.pieces()[key].last_accessed == now,
        accessed.pieces()[key].size == before.pieces()[key].size,
        accessed.pieces()[key].hit_count == before.pieces()[key].hit_count + 1,
        accessed.current_size == before.current_size,
        accessed.verified(key) == before.verified(key),
        accessed.pieces().contains_key(other) == before.pieces().contains_key(other),
        before.pieces().contains_key(other) ==> accessed.pieces()[other] == before.pieces()[other],
        !removed.pieces().contains_key(key),
        !removed.verified(key),
        removed.pieces().contains_key(other) == before.pieces().contains_key(other),
        before.pieces().contains_key(other) ==> removed.pieces()[other] == before.pieces()[other],
        removed.verified(other) == before.verified(other),
        file_size is None ==> removed.current_size == before.current_size,
        file_size matches Some(n) ==> (n <= before.current_size ==> removed.current_size + n
            == before.current_size) && (n > before.current_size ==> removed.current_size == 0),
{
}

/// The file of a piece that was kept at the top of the cache directory moves into the directory of its
/// torrent; the index file stays, and so does every file that is no piece.
pub proof fn old_piece_moves_to_its_torrent(info_hash: Seq<char>, index: int, name: Seq<char>)
    requires
        !info_hash.contains(':'),
        !name.contains(':'),
    ensures
        migrated_to(piece_key::piece_key(info_hash, index)) == Some(info_hash),
        migrated_to(name) is None,
        migrated_to("cache_metadata.txt"@) is None,
{
    piece_key::piece_key_splits(info_hash, index);
    let key = piece_key::piece_key(info_hash, index);
    reveal_strlit(":piece:");
    reveal_strlit("cache_metadata.txt");
    let n = info_hash.len() as int;
    assert(key[n] == ':');
    assert(key.contains(':'));
    if key == "cache_metadata.txt"@ {
        assert("cache_metadata.txt"@[n] == ':');
    }
}

/// What a torrent's pieces take is the sum of their sizes: one more piece of the torrent adds its own
/// size and its own hits, and one of another torrent adds nothing.
pub proof fn pieces_of_a_torrent_add_up(
    entries: Seq<(String, PieceMetadata)>,
    key: String,
    meta: PieceMetadata,
    info_hash: Seq<char>,
    owner: Seq<char>,
    index: int,
)
    requires
        !info_hash.contains(':'),
        !owner.contains(':'),
        key@ == piece_key::piece_key(owner, index),
    ensures
        ({
            let more = entries.push((key, meta));
            let (n, size, hits) = torrent_totals(entries, info_hash);
            let one: int = if owner == info_hash {
                1
            } else {
                0
            };
            &&& size_of_torrent(more, info_hash) == size_of_torrent(entries, info_hash) + one
                * meta.size
            &&& torrent_totals(more, info_hash) == (
                n + one,
                size + one * meta.size,
                hits + one * meta.hit_count,
            )
        }),
        size_of_torrent(Seq::empty(), info_hash) == 0,
{
    let more = entries.push((key, meta));
    assert(more.drop_last() =~= entries);
    piece_key::piece_key_splits(owner, index);
    assert(first_part(key@) == owner);
    reveal_strlit(":piece:");
    let head = info_hash + seq![':'];
    if owner == info_hash {
        assert(key@.subrange(0, head.len() as int) =~= head);
    } else if belongs_to(key@, info_hash) {
        let n = info_hash.len() as int;
        let m = owner.len() as int;
        assert(key@.subrange(0, n + 1) == head);
        assert(key@[m] == ':');
        assert forall|i: int| 0 <= i <= n implies key@[i] == head[i] by {
            assert(key@.subrange(0, n + 1)[i] == key@[i]);
        }
        assert(key@[n] == head[n]);
        assert(head[n] == ':');
        if n < m {
            assert(key@[n] == owner[n]);
            assert(owner[n] == ':');
            assert(owner.contains(':'));
        } else if m < n {
            assert(head[m] == info_hash[m]);
            assert(info_hash.contains(':'));
        } else {
            assert forall|i: int| 0 <= i < n implies owner[i] == info_hash[i] by {
                assert(key@[i] == head[i]);
            }
            assert(owner =~= info_hash);
        }
    }
}

} // verus!

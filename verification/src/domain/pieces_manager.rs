//! Which pieces of a torrent are wanted, and how much.
//!
//! Every torrent starts with no piece wanted, so that its peers can be seen without downloading.
//! A read of a file raises the pieces of that file: the range that is read the most, what follows
//! it less and less, and what precedes it the least. A piece that is in the cache is not wanted.

use vstd::prelude::*;

use super::error::{TorrentError, TorrentResult};
use super::piece_key;
use super::piece_key::make_piece_key;
use crate::fuse::inodes;
use crate::infrastructure::cache;
use crate::infrastructure::cache::{CacheManager, PieceMetadata, RangeFault};
use crate::infrastructure::digest;
use crate::infrastructure::digest::hex_encode;
use crate::table::TextMap;
use crate::text;

verus! {

/// How much the pieces of a file are wanted.
#[derive(Debug, Clone)]
pub struct PiecePriorityConfig {
    /// How many MiB after the read range are fetched ahead.
    pub prefetch_window_mb: u32,
    /// For the pieces of the read range.
    pub current_priority: i32,
    /// For the first pieces after the read range.
    pub step_priorities: [i32; 4],
    /// For the pieces after the window.
    pub rest_priority: i32,
    /// For the pieces before the read range.
    pub backward_priority: i32,
}

impl PiecePriorityConfig {
    /// The priorities that hold unless others are set.
    pub open spec fn is_default(&self) -> bool {
        &&& self.prefetch_window_mb == 4
        &&& self.current_priority == 7
        &&& self.step_priorities@ == seq![6i32, 5i32, 4i32, 3i32]
        &&& self.rest_priority == 2
        &&& self.backward_priority == 1
    }
}

impl Default for PiecePriorityConfig {
    fn default() -> (r: Self)
        ensures
            r.is_default(),
    {
        let r = PiecePriorityConfig {
            prefetch_window_mb: 4,
            current_priority: 7,
            step_priorities: [6, 5, 4, 3],
            rest_priority: 2,
            backward_priority: 1,
        };
        proof {
            assert(r.step_priorities@ =~= seq![6i32, 5i32, 4i32, 3i32]);
        }
        r
    }
}

/// Where the pieces of a file lie in its torrent.
#[derive(Debug, Clone, Copy, PartialEq, Eq, Structural)]
pub struct FilePieceInfo {
    pub first_piece: i64,
    pub num_pieces: i64,
    /// Where the file begins, counted from the start of the torrent.
    pub file_offset: i64,
}

/// The file that is read, in its torrent.
pub struct ReadTarget {
    pub info_hash: Vec<u8>,
    pub piece_length: u64,
    pub num_pieces: i32,
    pub file: FilePieceInfo,
    pub file_size: u64,
}

/// What the read range covers, in pieces.
pub struct PieceWindow {
    /// The pieces of the file that the torrent has.
    pub file_start: int,
    pub file_end: int,
    /// The pieces of the read range.
    pub cur_start: int,
    pub cur_end: int,
    /// The last piece that is fetched ahead.
    pub prefetch_end: int,
}

/// How many pieces the window of `mb` MiB takes.
pub open spec fn pieces_ahead(mb: u32, piece_length: int) -> int {
    let bytes = mb * 1048576;
    if bytes > 0 {
        ((bytes + piece_length - 1) / piece_length) as i32 as int
    } else {
        0
    }
}

/// How many pieces the window of `mb` MiB takes: as many as hold it, rounded up.
pub fn prefetch_pieces(mb: u32, piece_length: u64) -> (r: i32)
    requires
        piece_length > 0,
        mb * 1048576 + piece_length <= u64::MAX,
    ensures
        r == pieces_ahead(mb, piece_length as int),
{
    let bytes: u64 = mb as u64 * 1048576;
    if bytes > 0 {
        ((bytes + piece_length - 1) / piece_length) as i32
    } else {
        0
    }
}

/// A sum of 32-bit integers, held at the largest or smallest one.
pub open spec fn saturated(n: int) -> int {
    if n > i32::MAX {
        i32::MAX as int
    } else if n < i32::MIN {
        i32::MIN as int
    } else {
        n
    }
}

impl ReadTarget {
    pub open spec fn first(&self) -> int {
        self.file.first_piece as i32 as int
    }

    /// The last piece of the file.
    pub open spec fn last(&self) -> int {
        self.first() + (self.file.num_pieces as i32) - 1
    }

    pub open spec fn start(&self, offset: u64) -> int {
        inodes::as_unsigned(self.file.file_offset) + offset
    }

    pub open spec fn end(&self) -> int {
        inodes::as_unsigned(self.file.file_offset) + self.file_size
    }

    /// The numbers of the file fit together: its pieces and bytes can be counted.
    pub open spec fn fits(&self, offset: u64) -> bool {
        &&& self.piece_length > 0 ==> self.end() / (self.piece_length as int) <= i32::MAX
        &&& self.end() <= u64::MAX
        &&& self.start(offset) <= u64::MAX
        &&& i32::MIN <= self.last() <= i32::MAX
        &&& i32::MIN <= self.first() + (self.file.num_pieces as i32) <= i32::MAX
        &&& self.piece_length <= 0x7fff_ffff_ffff_ffff
    }

    /// There is something to raise: the torrent has pieces, the file lies among them, and the
    /// read begins before the end of the file.
    pub open spec fn applies(&self, offset: u64) -> bool {
        &&& self.num_pieces > 0
        &&& self.piece_length > 0
        &&& self.first() < self.num_pieces
        &&& self.last() >= 0
        &&& self.start(offset) < self.end()
    }

    /// The first of the file's pieces among those of the torrent.
    pub open spec fn file_start(&self) -> int {
        if self.first() > 0 {
            self.first()
        } else {
            0
        }
    }

    /// The last of the file's pieces among those of the torrent.
    pub open spec fn file_end(&self) -> int {
        if self.last() < self.num_pieces - 1 {
            self.last()
        } else {
            self.num_pieces - 1
        }
    }

    /// The pieces of a read of `size` bytes at `offset`.
    pub open spec fn window(&self, mb: u32, offset: u64, size: u32) -> PieceWindow {
        let start = self.start(offset);
        let left = self.end() - start;
        let n = if size < left {
            size as int
        } else {
            left
        };
        let l = self.piece_length as int;
        let cur_start = start / l;
        let cur_end = if n > 0 {
            (start + n - 1) / l
        } else {
            cur_start
        };
        let ahead = saturated(cur_end + pieces_ahead(mb, l));
        PieceWindow {
            file_start: self.file_start(),
            file_end: self.file_end(),
            cur_start,
            cur_end,
            prefetch_end: if self.last() < ahead {
                self.last()
            } else {
                ahead
            },
        }
    }
}

/// How much a piece is wanted that is not in the cache.
pub open spec fn gradient(config: PiecePriorityConfig, w: PieceWindow, p: int) -> i32 {
    if p < w.cur_start {
        config.backward_priority
    } else if p <= w.cur_end {
        config.current_priority
    } else if p - w.cur_end <= 4 {
        config.step_priorities@[p - w.cur_end - 1]
    } else if p <= w.prefetch_end {
        3
    } else {
        config.rest_priority
    }
}

/// How much a piece is wanted: not at all where it is in the cache.
pub open spec fn wanted(
    config: PiecePriorityConfig,
    w: PieceWindow,
    cached: Map<Seq<char>, PieceMetadata>,
    info_hash: Seq<char>,
    p: int,
) -> i32 {
    if cached.contains_key(piece_key::piece_key(info_hash, p)) {
        0
    } else {
        gradient(config, w, p)
    }
}

/// With the default priorities a piece is wanted less the farther it lies after the read range,
/// never more than the range itself, always more than what lies before the range, and always to
/// some degree.
pub proof fn default_gradient_decays(config: PiecePriorityConfig, w: PieceWindow, p: int, q: int)
    requires
        config.is_default(),
        w.cur_start <= w.cur_end,
        w.cur_start <= p <= q,
    ensures
        gradient(config, w, p) >= gradient(config, w, q),
        gradient(config, w, w.cur_end) == config.current_priority,
        gradient(config, w, w.cur_end) >= gradient(config, w, p),
        gradient(config, w, p) > gradient(config, w, w.cur_start - 1),
        gradient(config, w, w.cur_start - 1) > 0,
{
    assert(config.step_priorities@[0] == 6);
    assert(config.step_priorities@[1] == 5);
    assert(config.step_priorities@[2] == 4);
    assert(config.step_priorities@[3] == 3);
}

/// A piece is not wanted where it is in the cache, and with the default priorities nowhere else.
pub proof fn cached_pieces_are_not_wanted(
    config: PiecePriorityConfig,
    w: PieceWindow,
    cached: Map<Seq<char>, PieceMetadata>,
    info_hash: Seq<char>,
    p: int,
)
    requires
        config.is_default(),
        w.cur_start <= w.cur_end,
    ensures
        wanted(config, w, cached, info_hash, p) == 0 <==> cached.contains_key(
            piece_key::piece_key(info_hash, p),
        ),
{
    assert(config.step_priorities@[0] == 6);
    assert(config.step_priorities@[1] == 5);
    assert(config.step_priorities@[2] == 4);
    assert(config.step_priorities@[3] == 3);
}

/// A piece and its new priority.
#[derive(Debug, Clone, Copy, PartialEq, Eq, Structural)]
pub struct PriorityChange {
    pub piece: i32,
    pub priority: i32,
}

/// The changes for the pieces from `from` to just before `to`.
pub open spec fn changes_for(
    config: PiecePriorityConfig,
    w: PieceWindow,
    cached: Map<Seq<char>, PieceMetadata>,
    info_hash: Seq<char>,
    from: int,
    to: int,
) -> Seq<PriorityChange> {
    Seq::new(
        if to > from {
            (to - from) as nat
        } else {
            0
        },
        |i: int|
            PriorityChange {
                piece: (from + i) as i32,
                priority: wanted(config, w, cached, info_hash, from + i),
            },
    )
}

/// The priorities of a torrent: those that were set, or none wanted.
pub open spec fn priorities_of(
    elevated: Map<Seq<char>, Vec<i32>>,
    info_hash: Seq<char>,
    num_pieces: int,
) -> Seq<i32> {
    if elevated.contains_key(info_hash) {
        elevated[info_hash]@
    } else {
        Seq::new(num_pieces as nat, |i: int| 0i32)
    }
}

/// The priorities after the changes for the pieces of the window.
pub open spec fn raised(
    before: Seq<i32>,
    config: PiecePriorityConfig,
    w: PieceWindow,
    cached: Map<Seq<char>, PieceMetadata>,
    info_hash: Seq<char>,
) -> Seq<i32> {
    Seq::new(
        before.len(),
        |i: int|
            if w.file_start <= i <= w.file_end {
                wanted(config, w, cached, info_hash, i)
            } else {
                before[i]
            },
    )
}

/// The priorities of the pieces of all torrents, and the cache.
pub struct PiecesManager {
    /// By info hash, and then by piece.
    pub elevated: TextMap<Vec<i32>>,
    pub config: PiecePriorityConfig,
    pub cache_manager: CacheManager,
}

fn zeros(n: usize) -> (r: Vec<i32>)
    ensures
        r@ == Seq::new(n as nat, |i: int| 0i32),
{
    let mut r: Vec<i32> = Vec::new();
    let mut i: usize = 0;
    while i < n
        invariant
            i <= n,
            r@ == Seq::new(i as nat, |k: int| 0i32),
        decreases n - i,
    {
        r.push(0);
        proof {
            assert(r@ =~= Seq::new((i + 1) as nat, |k: int| 0i32));
        }
        i = i + 1;
    }
    r
}

fn copy_priorities(v: &Vec<i32>) -> (r: Vec<i32>)
    ensures
        r@ == v@,
{
    let mut r: Vec<i32> = Vec::new();
    r.extend_from_slice(v.as_slice());
    proof {
        assert(r@ =~= v@);
    }
    r
}

impl PiecesManager {
    pub open spec fn wf(&self) -> bool {
        self.elevated.wf() && self.cache_manager.wf()
    }

    pub open spec fn cached(&self, info_hash: Seq<char>, p: int) -> bool {
        self.cache_manager.pieces().contains_key(piece_key::piece_key(info_hash, p))
    }

    pub fn new(cache_manager: CacheManager, config: PiecePriorityConfig) -> (r: Self)
        requires
            cache_manager.wf(),
        ensures
            r.wf(),
            r.elevated@ == Map::<Seq<char>, Vec<i32>>::empty(),
            r.config == config,
            r.cache_manager == cache_manager,
    {
        PiecesManager { elevated: TextMap::new(), config, cache_manager }
    }

    /// Notes that no piece of a torrent is wanted.
    pub fn init_upload_mode(&mut self, info_hash: &str, num_pieces: i32)
        requires
            old(self).wf(),
        ensures
            final(self).wf(),
            final(self).config == old(self).config,
            final(self).cache_manager == old(self).cache_manager,
            if num_pieces <= 0 {
                final(self).elevated@ == old(self).elevated@
            } else {
                exists|v: Vec<i32>|
                    v@ == Seq::new(num_pieces as nat, |i: int| 0i32) && final(self).elevated@
                        == #[trigger] old(self).elevated@.insert(info_hash@, v)
            },
    {
        if num_pieces <= 0 {
            return ;
        }
        let none = zeros(num_pieces as usize);
        self.elevated.insert(info_hash.to_owned(), none);
    }

    /// The recorded priorities of a torrent, where there are any, reach as far as the pieces that a
    /// read at `offset` raises.
    pub open spec fn records_reach(&self, target: &ReadTarget, offset: u64) -> bool {
        let hash = digest::hex_text(target.info_hash@);
        target.applies(offset) && self.elevated@.contains_key(hash) && target.file_start()
            <= target.file_end() ==> self.elevated@[hash]@.len() > target.file_end()
    }

    /// `after` and `changes` are what a read of `size` bytes at `offset` makes of `self`.
    pub open spec fn raises_for(
        &self,
        after: &PiecesManager,
        target: &ReadTarget,
        offset: u64,
        size: u32,
        changes: Seq<PriorityChange>,
    ) -> bool {
        if !target.applies(offset) {
            changes == Seq::<PriorityChange>::empty() && after.elevated@ == self.elevated@
        } else {
            let hash = digest::hex_text(target.info_hash@);
            let w = target.window(self.config.prefetch_window_mb, offset, size);
            let cached = self.cache_manager.pieces();
            &&& changes == changes_for(
                self.config,
                w,
                cached,
                hash,
                w.file_start,
                w.file_end + 1,
            )
            &&& after.elevated@.contains_key(hash)
            &&& after.elevated@[hash]@ == raised(
                priorities_of(self.elevated@, hash, target.num_pieces as int),
                self.config,
                w,
                cached,
                hash,
            )
            &&& after.elevated@.remove(hash) == self.elevated@.remove(hash)
        }
    }

    /// Whether the recorded priorities reach as far as the pieces that a read at `offset` raises.
    pub fn reaches(&self, target: &ReadTarget, offset: u64) -> (r: bool)
        requires
            self.wf(),
            target.fits(offset),
        ensures
            r == self.records_reach(target, offset),
    {
        let raw: i64 = target.file.file_offset;
        assert(raw < 0 ==> (raw as u64) == raw + 0x1_0000_0000_0000_0000) by (bit_vector);
        let file_offset: u64 = raw as u64;
        let first: i32 = target.file.first_piece as i32;
        let last: i32 = (first + target.file.num_pieces as i32) - 1;
        if target.num_pieces <= 0 || target.piece_length == 0 || first >= target.num_pieces || last
            < 0 || file_offset + offset >= file_offset + target.file_size {
            return true;
        }
        let p_start: i32 = if first > 0 {
            first
        } else {
            0
        };
        let p_end: i32 = if last < target.num_pieces - 1 {
            last
        } else {
            target.num_pieces - 1
        };
        let hash = hex_encode(&target.info_hash);
        match self.elevated.get(hash.as_str()) {
            Some(v) => p_start > p_end || v.len() > p_end as usize,
            None => true,
        }
    }

    /// Raises the pieces of a file for a read of `size` bytes at `offset`, and gives the changes
    /// to hand on.
    pub fn apply_read_priority(&mut self, target: &ReadTarget, offset: u64, size: u32) -> (r: Vec<
        PriorityChange,
    >)
        requires
            old(self).wf(),
            target.fits(offset),
            old(self).records_reach(target, offset),
        ensures
            final(self).wf(),
            final(self).config == old(self).config,
            final(self).cache_manager == old(self).cache_manager,
            old(self).raises_for(final(self), target, offset, size, r@),
    {
        let mut changes: Vec<PriorityChange> = Vec::new();
        let hash = hex_encode(&target.info_hash);
        if target.num_pieces <= 0 || target.piece_length == 0 {
            return changes;
        }
        let raw: i64 = target.file.file_offset;
        assert(raw < 0 ==> (raw as u64) == raw + 0x1_0000_0000_0000_0000) by (bit_vector);
        let file_offset: u64 = raw as u64;
        let first: i32 = target.file.first_piece as i32;
        let last: i32 = (first + target.file.num_pieces as i32) - 1;
        if first >= target.num_pieces || last < 0 {
            return changes;
        }
        let start: u64 = file_offset + offset;
        let end: u64 = file_offset + target.file_size;
        if start >= end {
            return changes;
        }
        let left: u64 = end - start;
        let n: u64 = if (size as u64) < left {
            size as u64
        } else {
            left
        };
        let l: u64 = target.piece_length;
        let ghost w = target.window(self.config.prefetch_window_mb, offset, size);
        proof {
            vstd::arithmetic::div_mod::lemma_div_is_ordered(start as int, end as int, l as int);
            vstd::arithmetic::div_mod::lemma_div_pos_is_pos(start as int, l as int);
            if n > 0 {
                vstd::arithmetic::div_mod::lemma_div_is_ordered(
                    start + n - 1,
                    end as int,
                    l as int,
                );
                vstd::arithmetic::div_mod::lemma_div_is_ordered(
                    start as int,
                    start + n - 1,
                    l as int,
                );
            }
        }
        let cur_start: i32 = (start / l) as i32;
        let cur_end: i32 = if n > 0 {
            ((start + n - 1) / l) as i32
        } else {
            cur_start
        };
        let ahead: i32 = prefetch_pieces(self.config.prefetch_window_mb, l);
        let reach: i64 = cur_end as i64 + ahead as i64;
        let reach_end: i32 = if reach > i32::MAX as i64 {
            i32::MAX
        } else if reach < i32::MIN as i64 {
            i32::MIN
        } else {
            reach as i32
        };
        let prefetch_end: i32 = if last < reach_end {
            last
        } else {
            reach_end
        };
        let p_start: i32 = if first > 0 {
            first
        } else {
            0
        };
        let p_end: i32 = if last < target.num_pieces - 1 {
            last
        } else {
            target.num_pieces - 1
        };
        proof {
            assert(w.cur_start == cur_start && w.cur_end == cur_end);
            assert(w.file_start == p_start && w.file_end == p_end);
            assert(w.prefetch_end == prefetch_end);
        }
        let mut priorities: Vec<i32> = match self.elevated.get(hash.as_str()) {
            Some(v) => copy_priorities(v),
            None => zeros(target.num_pieces as usize),
        };
        let ghost before = priorities@;
        let ghost cached = self.cache_manager.pieces();
        let mut p: i32 = p_start;
        proof {
            assert(changes@ =~= changes_for(self.config, w, cached, hash@, p_start as int, p as int));
            assert(before == priorities_of(
                old(self).elevated@,
                hash@,
                target.num_pieces as int,
            ));
        }
        while p <= p_end
            invariant
                0 <= p_start,
                p_start <= p,
                p <= p_end + 1 || p == p_start,
                p_end < target.num_pieces,
                self.wf(),
                self.config == old(self).config,
                self.cache_manager == old(self).cache_manager,
                self.elevated@ == old(self).elevated@,
                cached == self.cache_manager.pieces(),
                w.cur_start == cur_start,
                w.cur_end == cur_end,
                w.prefetch_end == prefetch_end,
                w.file_start == p_start,
                w.file_end == p_end,
                0 <= cur_start <= cur_end,
                priorities@.len() == before.len(),
                p <= p_end ==> before.len() > p_end,
                changes@ == changes_for(
                    self.config,
                    w,
                    cached,
                    hash@,
                    p_start as int,
                    p as int,
                ),
                forall|i: int|
                    0 <= i < before.len() ==> #[trigger] priorities@[i] == (if p_start <= i < p {
                        wanted(self.config, w, cached, hash@, i)
                    } else {
                        before[i]
                    }),
            decreases p_end + 1 - p,
        {
            let key = make_piece_key(hash.as_str(), p);
            let prio: i32 = if self.cache_manager.has_piece(key.as_str()) {
                0
            } else if p < cur_start {
                self.config.backward_priority
            } else if p <= cur_end {
                self.config.current_priority
            } else {
                let dist: i32 = p - cur_end;
                if dist <= 4 {
                    self.config.step_priorities[(dist - 1) as usize]
                } else if p <= prefetch_end {
                    3
                } else {
                    self.config.rest_priority
                }
            };
            proof {
                assert(prio == wanted(self.config, w, cached, hash@, p as int));
            }
            priorities.set(p as usize, prio);
            let ghost done = changes@;
            changes.push(PriorityChange { piece: p, priority: prio });
            proof {
                assert(changes@ =~= changes_for(
                    self.config,
                    w,
                    cached,
                    hash@,
                    p_start as int,
                    p + 1,
                ));
            }
            p = p + 1;
        }
        proof {
            assert(changes@ =~= changes_for(
                self.config,
                w,
                cached,
                hash@,
                w.file_start,
                w.file_end + 1,
            ));
            assert(priorities@ =~= raised(before, self.config, w, cached, hash@));
        }
        let ghost v = priorities;
        let ghost k = hash@;
        self.elevated.insert(hash, priorities);
        proof {
            assert(self.elevated@.remove(k) =~= old(self).elevated@.remove(k));
        }
        changes
    }
}

/// Whether a piece is not to be wanted any more: any one where `all`, else one in the cache.
pub open spec fn goes(
    cached: Map<Seq<char>, PieceMetadata>,
    info_hash: Seq<char>,
    all: bool,
    p: int,
) -> bool {
    all || cached.contains_key(piece_key::piece_key(info_hash, p))
}

/// The priorities with the pieces that go not wanted any more.
pub open spec fn lowered(
    before: Seq<i32>,
    cached: Map<Seq<char>, PieceMetadata>,
    info_hash: Seq<char>,
    all: bool,
) -> Seq<i32> {
    Seq::new(
        before.len(),
        |i: int|
            if goes(cached, info_hash, all, i) {
                0i32
            } else {
                before[i]
            },
    )
}

/// The places, among the first `n`, of the pieces that were wanted and go, in order.
pub open spec fn lowered_places(
    before: Seq<i32>,
    cached: Map<Seq<char>, PieceMetadata>,
    info_hash: Seq<char>,
    all: bool,
    n: nat,
) -> Seq<i32>
    decreases n,
{
    if n == 0 {
        Seq::empty()
    } else {
        let head = lowered_places(before, cached, info_hash, all, (n - 1) as nat);
        if before[n - 1] != 0 && goes(cached, info_hash, all, n - 1) {
            head.push((n - 1) as i32)
        } else {
            head
        }
    }
}

impl PiecesManager {
    /// The pieces of a torrent that are wanted no more, where `all` or where they are in the
    /// cache by now.
    fn lower(&mut self, info_hash: &str, all: bool) -> (r: Vec<i32>)
        requires
            old(self).wf(),
            old(self).elevated@.contains_key(info_hash@) ==> old(
                self,
            ).elevated@[info_hash@]@.len() <= i32::MAX,
        ensures
            final(self).wf(),
            final(self).config == old(self).config,
            final(self).cache_manager == old(self).cache_manager,
            final(self).elevated@.remove(info_hash@) == old(self).elevated@.remove(info_hash@),
            final(self).elevated@.contains_key(info_hash@) == old(self).elevated@.contains_key(
                info_hash@,
            ),
            if old(self).elevated@.contains_key(info_hash@) {
                let before = old(self).elevated@[info_hash@]@;
                let cached = old(self).cache_manager.pieces();
                &&& final(self).elevated@[info_hash@]@ == lowered(
                    before,
                    cached,
                    info_hash@,
                    all,
                )
                &&& r@ == lowered_places(before, cached, info_hash@, all, before.len())
            } else {
                r@ == Seq::<i32>::empty()
            },
    {
        let mut places: Vec<i32> = Vec::new();
        let mut priorities: Vec<i32> = match self.elevated.get(info_hash) {
            Some(v) => copy_priorities(v),
            None => {
                return places;
            },
        };
        let ghost before = priorities@;
        let ghost cached = self.cache_manager.pieces();
        let mut p: usize = 0;
        proof {
            assert(places@ =~= lowered_places(before, cached, info_hash@, all, 0));
        }
        while p < priorities.len()
            invariant
                p <= before.len(),
                before.len() <= i32::MAX,
                priorities@.len() == before.len(),
                *self == *old(self),
                self.wf(),
                cached == self.cache_manager.pieces(),
                places@ == lowered_places(before, cached, info_hash@, all, p as nat),
                forall|i: int|
                    0 <= i < before.len() ==> #[trigger] priorities@[i] == (if i < p && goes(
                        cached,
                        info_hash@,
                        all,
                        i,
                    ) {
                        0i32
                    } else {
                        before[i]
                    }),
            decreases before.len() - p,
        {
            if priorities[p] != 0 {
                let go = if all {
                    true
                } else {
                    let key = make_piece_key(info_hash, p as i32);
                    self.cache_manager.has_piece(key.as_str())
                };
                proof {
                    assert(go == goes(cached, info_hash@, all, p as int));
                }
                if go {
                    priorities.set(p, 0);
                    places.push(p as i32);
                }
            }
            p = p + 1;
        }
        proof {
            assert(priorities@ =~= lowered(before, cached, info_hash@, all));
        }
        self.elevated.insert(info_hash.to_owned(), priorities);
        proof {
            assert(self.elevated@.remove(info_hash@) =~= old(self).elevated@.remove(info_hash@));
        }
        places
    }

    /// `after` and `changed` are what is left when the pieces of a torrent are wanted no more, where
    /// `all` or where they are in the cache.
    pub open spec fn lowers(
        &self,
        after: &PiecesManager,
        info_hash: Seq<char>,
        all: bool,
        changed: Seq<i32>,
    ) -> bool {
        &&& after.elevated@.remove(info_hash) == self.elevated@.remove(info_hash)
        &&& after.elevated@.contains_key(info_hash) == self.elevated@.contains_key(info_hash)
        &&& if self.elevated@.contains_key(info_hash) {
            let before = self.elevated@[info_hash]@;
            let cached = self.cache_manager.pieces();
            &&& after.elevated@[info_hash]@ == lowered(before, cached, info_hash, all)
            &&& changed == lowered_places(before, cached, info_hash, all, before.len())
        } else {
            changed == Seq::<i32>::empty()
        }
    }

    /// Pieces of a torrent that are in the cache are wanted no more; gives those that changed.
    pub fn deprioritize_cached(&mut self, info_hash: &str) -> (r: Vec<i32>)
        requires
            old(self).wf(),
            old(self).elevated@.contains_key(info_hash@) ==> old(
                self,
            ).elevated@[info_hash@]@.len() <= i32::MAX,
        ensures
            final(self).wf(),
            final(self).config == old(self).config,
            final(self).cache_manager == old(self).cache_manager,
            old(self).lowers(final(self), info_hash@, false, r@),
    {
        self.lower(info_hash, false)
    }

    /// No piece of a torrent is wanted any more; gives those that changed.
    pub fn reset_all(&mut self, info_hash: &str) -> (r: Vec<i32>)
        requires
            old(self).wf(),
            old(self).elevated@.contains_key(info_hash@) ==> old(
                self,
            ).elevated@[info_hash@]@.len() <= i32::MAX,
        ensures
            final(self).wf(),
            final(self).config == old(self).config,
            final(self).cache_manager == old(self).cache_manager,
            old(self).lowers(final(self), info_hash@, true, r@),
    {
        self.lower(info_hash, true)
    }

    pub fn has_piece(&self, info_hash: &str, piece_index: i32) -> (r: bool)
        ensures
            r == self.cached(info_hash@, piece_index as int),
    {
        self.cache_manager.has_piece(make_piece_key(info_hash, piece_index).as_str())
    }

    /// Takes what came of reading a part of a piece's file.
    pub fn read_piece_range(
        &self,
        piece_key: &str,
        offset: u64,
        size: usize,
        read: Result<Vec<u8>, (RangeFault, String)>,
    ) -> (r: TorrentResult<Vec<u8>>)
        ensures
            match read {
                Ok(data) => r == Ok::<Vec<u8>, TorrentError>(data),
                Err((fault, reason)) => r matches Err(TorrentError::IoError(m)) && m@
                    == cache::range_fault_text(
                    fault,
                    piece_key@,
                    offset as int,
                    size as int,
                    reason@,
                ),
            },
    {
        self.cache_manager.read_piece_range(piece_key, offset, size, read)
    }

    /// `after` and `known` are what is left when a downloaded piece goes into the cache.
    pub open spec fn takes_in(
        &self,
        after: &PiecesManager,
        info_hash: Seq<char>,
        piece_index: i32,
        size: u64,
        now: u64,
        known: bool,
    ) -> bool {
        let key = piece_key::piece_key(info_hash, piece_index as int);
        let before = self.cache_manager;
        &&& after.cache_manager.pieces() == before.pieces().insert(
            key,
            PieceMetadata { last_accessed: now, size, hit_count: 0 },
        )
        &&& after.cache_manager.verified_piece_keys@ == before.verified_piece_keys@.insert(key, ())
        &&& after.cache_manager.current_size == before.current_size + size
        &&& after.cache_manager.max_cache_size == before.max_cache_size
        &&& after.cache_manager.hit_count == before.hit_count
        &&& after.cache_manager.miss_count == before.miss_count + (if self.cached(
            info_hash,
            piece_index as int,
        ) {
            0int
        } else {
            1
        })
        &&& known == (self.elevated@.contains_key(info_hash) && 0 <= piece_index
            < self.elevated@[info_hash]@.len())
        &&& if known {
            &&& after.elevated@.contains_key(info_hash)
            &&& after.elevated@[info_hash]@ == self.elevated@[info_hash]@.update(
                piece_index as int,
                0,
            )
            &&& after.elevated@.remove(info_hash) == self.elevated@.remove(info_hash)
        } else {
            after.elevated@ == self.elevated@
        }
    }

    /// Notes a downloaded piece in the cache; it is wanted no more. Says whether its priority is
    /// to be set.
    pub fn add_piece(&mut self, info_hash: &str, piece_index: i32, size: u64, now: u64) -> (r: bool)
        requires
            old(self).wf(),
            old(self).cache_manager.current_size + size <= u64::MAX,
            old(self).cache_manager.miss_count < u64::MAX,
        ensures
            final(self).wf(),
            final(self).config == old(self).config,
            old(self).takes_in(final(self), info_hash@, piece_index, size, now, r),
    {
        let key = make_piece_key(info_hash, piece_index);
        self.cache_manager.add_piece(key.as_str(), size, now);
        let mut priorities: Vec<i32> = match self.elevated.get(info_hash) {
            Some(v) => copy_priorities(v),
            None => {
                return false;
            },
        };
        if piece_index < 0 || piece_index as usize >= priorities.len() {
            return false;
        }
        priorities.set(piece_index as usize, 0);
        self.elevated.insert(info_hash.to_owned(), priorities);
        proof {
            assert(self.elevated@.remove(info_hash@) =~= old(self).elevated@.remove(info_hash@));
        }
        true
    }

    /// How much a piece is wanted; a piece that is not known is not.
    pub open spec fn priority_of(&self, info_hash: Seq<char>, p: int) -> i32 {
        if self.elevated@.contains_key(info_hash) && 0 <= p < self.elevated@[info_hash]@.len() {
            self.elevated@[info_hash]@[p]
        } else {
            0
        }
    }

    pub fn get_piece_priority(&self, info_hash: &str, piece_index: i32) -> (r: i32)
        requires
            self.wf(),
        ensures
            r == self.priority_of(info_hash@, piece_index as int),
    {
        match self.elevated.get(info_hash) {
            Some(v) => if piece_index >= 0 && (piece_index as usize) < v.len() {
                v[piece_index as usize]
            } else {
                0
            },
            None => 0,
        }
    }

    /// Of each piece of a torrent how much it is wanted and whether it is in the cache.
    pub fn get_pieces_status(&self, info_hash: &str, num_pieces: i32) -> (r: Vec<(i32, bool)>)
        requires
            self.wf(),
            num_pieces >= 0,
        ensures
            r@ == Seq::new(
                num_pieces as nat,
                |p: int| (self.priority_of(info_hash@, p), self.cached(info_hash@, p)),
            ),
    {
        let mut r: Vec<(i32, bool)> = Vec::new();
        let mut p: i32 = 0;
        while p < num_pieces
            invariant
                0 <= p <= num_pieces,
                self.wf(),
                r@ == Seq::new(
                    p as nat,
                    |p: int| (self.priority_of(info_hash@, p), self.cached(info_hash@, p)),
                ),
            decreases num_pieces - p,
        {
            let status = (self.get_piece_priority(info_hash, p), self.has_piece(info_hash, p));
            r.push(status);
            proof {
                assert(r@ =~= Seq::new(
                    (p + 1) as nat,
                    |p: int| (self.priority_of(info_hash@, p), self.cached(info_hash@, p)),
                ));
            }
            p = p + 1;
        }
        r
    }

    pub fn get_cache_manager(&self) -> (r: &CacheManager)
        ensures
            *r == self.cache_manager,
    {
        &self.cache_manager
    }
}

/// A piece begins at or before a byte exactly where its number is no more than the byte's piece,
/// and ends behind it exactly where its number is no less.
proof fn piece_of_byte(byte: int, length: int, p: int)
    requires
        byte >= 0,
        length > 0,
    ensures
        p * length <= byte <==> p <= byte / length,
        (p + 1) * length > byte <==> p >= byte / length,
{
    let q = byte / length;
    vstd::arithmetic::div_mod::lemma_fundamental_div_mod(byte, length);
    assert(length * q <= byte < length * q + length);
    assert(p <= q ==> p * length <= length * q) by (nonlinear_arith)
        requires
            length > 0,
    ;
    assert(p > q ==> p * length >= length * q + length) by (nonlinear_arith)
        requires
            length > 0,
    ;
    assert(p >= q ==> (p + 1) * length >= length * q + length) by (nonlinear_arith)
        requires
            length > 0,
    ;
    assert(p < q ==> (p + 1) * length <= length * q) by (nonlinear_arith)
        requires
            length > 0,
    ;
}

/// As many pieces as hold a window are those that begin inside of it.
proof fn pieces_of_window(bytes: int, length: int, k: int)
    requires
        bytes > 0,
        length > 0,
        k >= 0,
    ensures
        k < (bytes + length - 1) / length <==> k * length < bytes,
{
    piece_of_byte(bytes + length - 1, length, k + 1);
    assert((k + 1) * length == k * length + length) by (nonlinear_arith);
}

/// A read raises each piece of its file by where the piece lies: a piece in the cache is not
/// wanted; a piece that holds a byte of the read gets the priority of the read itself; one that
/// ends before the read that of what lies behind; the first four after it their steps; the others
/// that begin inside the window the third step, and what lies beyond the window the rest. What is
/// handed on is what is recorded.
pub proof fn read_raises_pieces_by_their_place(
    before: PiecesManager,
    after: PiecesManager,
    target: ReadTarget,
    offset: u64,
    size: u32,
    changes: Seq<PriorityChange>,
    p: int,
    last: int,
)
    requires
        before.raises_for(&after, &target, offset, size, changes),
        target.piece_length > 0,
        target.file.file_offset >= 0,
        0 <= target.file.first_piece <= p,
        target.file.first_piece + target.file.num_pieces <= i32::MAX,
        p < target.file.first_piece + target.file.num_pieces,
        p < target.num_pieces,
        offset < target.file_size,
        ({
            let from = target.file.file_offset + offset;
            let left = target.file_size - offset;
            let bytes = if size < left {
                size as int
            } else {
                left
            };
            let to = if bytes > 0 {
                from + bytes - 1
            } else {
                from
            };
            last * target.piece_length <= to < (last + 1) * target.piece_length
        }),
        before.records_reach(&target, offset),
        (before.config.prefetch_window_mb * 1048576 + target.piece_length - 1)
            / (target.piece_length as int) <= i32::MAX,
    ensures
        ({
            let hash = digest::hex_text(target.info_hash@);
            let length = target.piece_length as int;
            let from = target.file.file_offset + offset;
            let change = changes[p - target.file.first_piece];
            &&& changes.len() == (if target.file.first_piece + target.file.num_pieces
                < target.num_pieces {
                target.file.num_pieces as int
            } else {
                target.num_pieces - target.file.first_piece
            })
            &&& change.piece == p
            &&& after.elevated@.contains_key(hash)
            &&& p < after.elevated@[hash]@.len()
            &&& after.elevated@[hash]@[p] == change.priority
            &&& change.priority == (if before.cache_manager.pieces().contains_key(
                hash + ":piece:"@ + text::dec_signed(p),
            ) {
                0
            } else if (p + 1) * length <= from {
                before.config.backward_priority
            } else if p <= last {
                before.config.current_priority
            } else if p == last + 1 {
                before.config.step_priorities@[0]
            } else if p == last + 2 {
                before.config.step_priorities@[1]
            } else if p == last + 3 {
                before.config.step_priorities@[2]
            } else if p == last + 4 {
                before.config.step_priorities@[3]
            } else if (p - last - 1) * length < before.config.prefetch_window_mb * 1048576 {
                3
            } else {
                before.config.rest_priority
            })
        }),
{
    let length = target.piece_length as int;
    let from = target.file.file_offset + offset;
    let first = target.file.first_piece;
    let count = target.file.num_pieces;
    let left = target.file_size - offset;
    let bytes = if size < left {
        size as int
    } else {
        left
    };
    let to = if bytes > 0 {
        from + bytes - 1
    } else {
        from
    };
    let window = before.config.prefetch_window_mb * 1048576;
    let w = target.window(before.config.prefetch_window_mb, offset, size);
    assert(first as i32 == first && count as i32 == count);
    piece_of_byte(to, length, last);
    piece_of_byte(from, length, p);
    if window > 0 {
        if p - last - 1 >= 0 {
            pieces_of_window(window, length, p - last - 1);
        }
        assert((window + length - 1) / length >= 0) by (nonlinear_arith)
            requires
                window > 0,
                length > 0,
        ;
    } else if p > last {
        assert((p - last - 1) * length >= 0) by (nonlinear_arith)
            requires
                p - last - 1 >= 0,
                length > 0,
        ;
    }
    assert(w.cur_end == last);
    assert(w.cur_start == from / length);
}

/// A read leaves the priorities of all other torrents as they were, and one that begins at or
/// behind the end of its file changes nothing at all.
pub proof fn read_raises_nothing_else(
    before: PiecesManager,
    after: PiecesManager,
    target: ReadTarget,
    offset: u64,
    size: u32,
    changes: Seq<PriorityChange>,
    other: Seq<char>,
)
    requires
        before.raises_for(&after, &target, offset, size, changes),
    ensures
        other != digest::hex_text(target.info_hash@) ==> {
            &&& after.elevated@.contains_key(other) == before.elevated@.contains_key(other)
            &&& before.elevated@.contains_key(other) ==> after.elevated@[other]
                == before.elevated@[other]
        },
        offset >= target.file_size ==> changes.len() == 0 && after.elevated@ == before.elevated@,
{
    let hash = digest::hex_text(target.info_hash@);
    if target.applies(offset) && other != hash {
        assert(after.elevated@.remove(hash).contains_key(other)
            == before.elevated@.remove(hash).contains_key(other));
        assert(before.elevated@.contains_key(other) ==> after.elevated@.remove(hash)[other]
            == before.elevated@.remove(hash)[other]);
    }
}

/// Of a torrent's pieces those in the cache are wanted no more, or all of them; the others are wanted as
/// before, and told are those that were wanted and are no more. Other torrents are left alone.
pub proof fn lowered_pieces_are_told(
    before: PiecesManager,
    after: PiecesManager,
    info_hash: Seq<char>,
    all: bool,
    changed: Seq<i32>,
    p: int,
    other: Seq<char>,
)
    requires
        before.lowers(&after, info_hash, all, changed),
        before.elevated@.contains_key(info_hash),
        before.elevated@[info_hash]@.len() <= i32::MAX,
        0 <= p < before.elevated@[info_hash]@.len(),
        other != info_hash,
    ensures
        ({
            let was = before.elevated@[info_hash]@[p];
            let is_now = after.elevated@[info_hash]@[p];
            let goes = all || before.cache_manager.pieces().contains_key(
                info_hash + ":piece:"@ + text::dec_signed(p),
            );
            &&& after.elevated@[info_hash]@.len() == before.elevated@[info_hash]@.len()
            &&& goes ==> is_now == 0
            &&& !goes ==> is_now == was
            &&& changed.contains(p as i32) <==> goes && was != 0
        }),
        after.elevated@.contains_key(other) == before.elevated@.contains_key(other),
        before.elevated@.contains_key(other) ==> after.elevated@[other] == before.elevated@[other],
{
    let was = before.elevated@[info_hash]@;
    told_are_those(was, before.cache_manager.pieces(), info_hash, all, was.len(), p);
    assert(after.elevated@.remove(info_hash).contains_key(other) == after.elevated@.contains_key(
        other,
    ));
    assert(before.elevated@.remove(info_hash).contains_key(other) == before.elevated@.contains_key(
        other,
    ));
    if before.elevated@.contains_key(other) {
        assert(after.elevated@.remove(info_hash)[other] == after.elevated@[other]);
        assert(before.elevated@.remove(info_hash)[other] == before.elevated@[other]);
    }
}

proof fn told_are_those(
    was: Seq<i32>,
    cached: Map<Seq<char>, PieceMetadata>,
    info_hash: Seq<char>,
    all: bool,
    n: nat,
    p: int,
)
    requires
        n <= was.len() <= i32::MAX,
        0 <= p < was.len(),
    ensures
        lowered_places(was, cached, info_hash, all, n).contains(p as i32) <==> p < n && was[p] != 0
            && goes(cached, info_hash, all, p),
    decreases n,
{
    if n > 0 {
        told_are_those(was, cached, info_hash, all, (n - 1) as nat, p);
        text::push_contains(
            lowered_places(was, cached, info_hash, all, (n - 1) as nat),
            (n - 1) as i32,
        );
    }
}

/// A downloaded piece is in the cache from then on, known to be good and with its size, and wanted no
/// more; every other piece is in the cache as before and wanted as before.
pub proof fn downloaded_piece_is_kept(
    before: PiecesManager,
    after: PiecesManager,
    info_hash: Seq<char>,
    piece: i32,
    size: u64,
    now: u64,
    known: bool,
    other: int,
)
    requires
        before.takes_in(&after, info_hash, piece, size, now, known),
        other != piece,
    ensures
        ({
            let key = info_hash + ":piece:"@ + text::dec_signed(piece as int);
            &&& after.cache_manager.pieces().contains_key(key)
            &&& after.cache_manager.pieces()[key].size == size
            &&& after.cache_manager.pieces()[key].last_accessed == now
            &&& after.cache_manager.verified_piece_keys@.contains_key(key)
            &&& after.cache_manager.current_size - before.cache_manager.current_size == size
            &&& forall|k: Seq<char>|
                k != key ==> (#[trigger] after.cache_manager.pieces().contains_key(k)
                    == before.cache_manager.pieces().contains_key(k)) && (
                before.cache_manager.pieces().contains_key(k) ==> after.cache_manager.pieces()[k]
                    == before.cache_manager.pieces()[k])
        }),
        after.priority_of(info_hash, piece as int) == 0,
        after.priority_of(info_hash, other) == before.priority_of(info_hash, other),
        known ==> before.elevated@.contains_key(info_hash),
{
}

} // verus!

//! The torrents that the session holds, and where the bytes of a piece come from.

use vstd::prelude::*;

use super::wait;
use crate::domain::error::TorrentError;
use crate::infrastructure::cache::CacheManager;
use crate::infrastructure::digest;
use crate::table::TextMap;
use crate::text;

verus! {

/// The most that the cache may hold, in bytes.
pub const CACHE_LIMIT: u64 = 1_073_741_824;

/// Everything that is known of the downloads. A torrent's handle in the session is known by a
/// number.
pub struct DownloadManager {
    pub handles: TextMap<u64>,
    pub cache_manager: CacheManager,
    /// The session keeps pieces in files of their own.
    pub custom_storage_active: bool,
    /// In seconds.
    pub read_timeout_secs: u64,
}

/// How to get at a torrent in the session.
#[derive(Debug, Clone, Copy, PartialEq, Eq, Structural)]
pub enum HandlePlan {
    /// The session holds it already, under this number.
    Existing(u64),
    /// Add it with piece files under the cache's directory.
    CustomStorage,
    /// Add it with a directory of its own, named by its info hash, among the pieces.
    OwnDirectory,
    /// Add it with piece files under the cache's directory, without asking for pieces.
    CustomStorageUploadOnly,
    /// Add it with the directory of all pieces, without asking for pieces.
    UploadOnly,
}

/// Where the bytes of a piece come from.
#[derive(Debug, Clone, Copy, PartialEq, Eq, Structural)]
pub enum PieceSource {
    /// A file that the cache's index knows.
    Cached,
    /// A file that the cache's index does not know.
    OnDisk,
    Session,
}

/// What a file gave.
#[derive(Debug)]
pub enum PieceBytes {
    Data(Vec<u8>),
    /// The session has to be asked.
    AskSession,
    Failed(TorrentError),
}

impl DownloadManager {
    pub open spec fn wf(&self) -> bool {
        self.handles.wf() && self.cache_manager.wf()
    }

    /// The plan for a torrent that may be downloaded, or one that is only watched.
    pub open spec fn plan(&self, info_hash: Seq<char>, watched: bool) -> HandlePlan {
        if self.handles@.contains_key(info_hash) {
            HandlePlan::Existing(self.handles@[info_hash])
        } else if !self.custom_storage_active {
            if watched {
                HandlePlan::CustomStorageUploadOnly
            } else {
                HandlePlan::CustomStorage
            }
        } else if watched {
            HandlePlan::UploadOnly
        } else {
            HandlePlan::OwnDirectory
        }
    }

    /// `read_timeout` is what is configured, in seconds.
    pub fn new(read_timeout: Option<i64>) -> (r: Self)
        ensures
            r.wf(),
            r.handles@ == Map::<Seq<char>, u64>::empty(),
            r.cache_manager.pieces().len() == 0,
            r.cache_manager.max_cache_size == CACHE_LIMIT,
            r.cache_manager.current_size == 0,
            !r.custom_storage_active,
            r.read_timeout_secs == wait::timeout_of(read_timeout),
    {
        DownloadManager {
            handles: TextMap::new(),
            cache_manager: CacheManager::new(CACHE_LIMIT),
            custom_storage_active: false,
            read_timeout_secs: wait::read_timeout(read_timeout),
        }
    }

    pub fn get_cache_manager(&self) -> (r: &CacheManager)
        ensures
            *r == self.cache_manager,
    {
        &self.cache_manager
    }

    /// The handle under which the session holds a torrent.
    pub fn query_handle(&self, info_hash: &str) -> (r: Option<u64>)
        requires
            self.wf(),
        ensures
            r == if self.handles@.contains_key(info_hash@) {
                Some(self.handles@[info_hash@])
            } else {
                None
            },
    {
        match self.handles.get(info_hash) {
            Some(n) => Some(*n),
            None => None,
        }
    }

    /// All info hashes with their handles.
    pub fn get_all_handles(&self) -> (r: Vec<(String, u64)>)
        requires
            self.wf(),
        ensures
            r@.len() == self.handles@.len(),
            forall|i: int|
                0 <= i < r@.len() ==> self.handles@.contains_key(#[trigger] r@[i].0@)
                    && self.handles@[r@[i].0@] == r@[i].1,
            forall|i: int, j: int|
                0 <= i < j < r@.len() ==> (#[trigger] r@[i]).0@ != (#[trigger] r@[j]).0@,
    {
        let mut r: Vec<(String, u64)> = Vec::new();
        let mut i: usize = 0;
        while i < self.handles.entries.len()
            invariant
                i <= self.handles.entries@.len(),
                r@.len() == i,
                forall|k: int|
                    0 <= k < i ==> (#[trigger] r@[k]).0@ == self.handles.entries@[k].0@ && r@[k].1
                        == self.handles.entries@[k].1,
            decreases self.handles.entries@.len() - i,
        {
            r.push((self.handles.entries[i].0.clone(), self.handles.entries[i].1));
            i = i + 1;
        }
        proof {
            self.handles.len_is_entries();
            let keys = self.handles.keys();
            assert forall|k: int| 0 <= k < r@.len() implies self.handles@.contains_key(
                #[trigger] r@[k].0@,
            ) && self.handles@[r@[k].0@] == r@[k].1 by {
                self.handles.entry_is_mapped(k);
            }
            assert forall|k: int, j: int| 0 <= k < j < r@.len() implies (#[trigger] r@[k]).0@
                != (#[trigger] r@[j]).0@ by {
                assert(keys[k] != keys[j]);
            }
        }
        r
    }

    fn handle_plan(&self, info_hash: &str, watched: bool) -> (r: HandlePlan)
        requires
            self.wf(),
        ensures
            r == self.plan(info_hash@, watched),
    {
        if let Some(n) = self.handles.get(info_hash) {
            return HandlePlan::Existing(*n);
        }
        if !self.custom_storage_active {
            if watched {
                HandlePlan::CustomStorageUploadOnly
            } else {
                HandlePlan::CustomStorage
            }
        } else if watched {
            HandlePlan::UploadOnly
        } else {
            HandlePlan::OwnDirectory
        }
    }

    /// How to get at the torrent with an info hash, and the hash as text, so that its pieces can
    /// be downloaded.
    pub fn get_or_create_handle(&self, hash: &Vec<u8>) -> (r: (String, HandlePlan))
        requires
            self.wf(),
        ensures
            r.0@ == digest::hex_text(hash@),
            r.1 == self.plan(digest::hex_text(hash@), false),
    {
        let info_hash = digest::hex_encode(hash);
        let plan = self.handle_plan(info_hash.as_str(), false);
        (info_hash, plan)
    }

    /// How to get at the torrent with an info hash, and the hash as text, so that its peers are
    /// known but no piece is asked for.
    pub fn ensure_handle_lightweight(&self, hash: &Vec<u8>) -> (r: (String, HandlePlan))
        requires
            self.wf(),
        ensures
            r.0@ == digest::hex_text(hash@),
            r.1 == self.plan(digest::hex_text(hash@), true),
    {
        let info_hash = digest::hex_encode(hash);
        let plan = self.handle_plan(info_hash.as_str(), true);
        (info_hash, plan)
    }

    /// Takes note of a torrent that the session took on.
    pub fn handle_created(&mut self, info_hash: &str, handle: u64, plan: HandlePlan)
        requires
            old(self).wf(),
        ensures
            final(self).wf(),
            final(self).handles@ == old(self).handles@.insert(info_hash@, handle),
            final(self).custom_storage_active == (old(self).custom_storage_active || plan
                == HandlePlan::CustomStorage || plan == HandlePlan::CustomStorageUploadOnly),
            final(self).cache_manager == old(self).cache_manager,
            final(self).read_timeout_secs == old(self).read_timeout_secs,
            forall|watched: bool| #[trigger]
                final(self).plan(info_hash@, watched) == HandlePlan::Existing(handle),
    {
        if plan == HandlePlan::CustomStorage || plan == HandlePlan::CustomStorageUploadOnly {
            self.custom_storage_active = true;
        }
        self.handles.insert(info_hash.to_owned(), handle);
    }
}

/// The source of a piece, where `on_disk` tells whether its file exists.
pub open spec fn source_of(cache: CacheManager, key: Seq<char>, on_disk: bool) -> PieceSource {
    if cache.pieces().contains_key(key) {
        PieceSource::Cached
    } else if on_disk {
        PieceSource::OnDisk
    } else {
        PieceSource::Session
    }
}

/// Decides where the bytes of a piece come from.
pub fn piece_source(cache: &CacheManager, piece_key: &str, on_disk: bool) -> (r: PieceSource)
    ensures
        r == source_of(*cache, piece_key@, on_disk),
{
    if cache.has_piece(piece_key) {
        PieceSource::Cached
    } else if on_disk {
        PieceSource::OnDisk
    } else {
        PieceSource::Session
    }
}

/// The counters of the cache can take one more access of a piece of `size` bytes.
pub open spec fn has_room(cache: CacheManager, key: Seq<char>, size: int) -> bool {
    &&& cache.wf()
    &&& cache.hit_count < u64::MAX
    &&& cache.miss_count < u64::MAX
    &&& cache.current_size + size <= u64::MAX
    &&& cache.pieces().contains_key(key) ==> cache.pieces()[key].hit_count < u64::MAX
}

/// The cache after an access of a piece at the time `now`.
pub open spec fn accessed(
    before: CacheManager,
    after: CacheManager,
    key: Seq<char>,
    now: u64,
) -> bool {
    let m = before.pieces()[key];
    &&& after.pieces() == before.pieces().insert(
        key,
        crate::infrastructure::cache::PieceMetadata {
            last_accessed: now,
            size: m.size,
            hit_count: (m.hit_count + 1) as u64,
        },
    )
    &&& after.hit_count == before.hit_count + 1
    &&& after.miss_count == before.miss_count
    &&& after.current_size == before.current_size
    &&& after.max_cache_size == before.max_cache_size
    &&& after.verified_piece_keys == before.verified_piece_keys
}

/// The cache after a piece of `size` bytes was added to its index at the time `now`.
pub open spec fn registered(
    before: CacheManager,
    after: CacheManager,
    key: Seq<char>,
    size: int,
    now: u64,
) -> bool {
    &&& after.pieces() == before.pieces().insert(
        key,
        crate::infrastructure::cache::PieceMetadata {
            last_accessed: now,
            size: size as u64,
            hit_count: 0,
        },
    )
    &&& after.verified_piece_keys@ == before.verified_piece_keys@.insert(key, ())
    &&& after.hit_count == before.hit_count
    &&& after.miss_count == before.miss_count + (if before.pieces().contains_key(key) {
        0int
    } else {
        1
    })
    &&& after.current_size == before.current_size + size
    &&& after.max_cache_size == before.max_cache_size
}

pub open spec fn unreadable_text(key: Seq<char>, reason: Seq<char>) -> Seq<char> {
    "Failed to read cached piece "@ + key + " from disk: "@ + reason
}

/// Takes what came of reading the file of a piece: its bytes, or the reason why there are none.
///
/// A file of the index counts as an access; one that was merely found goes into the index. Where
/// the file of an indexed piece cannot be read, the session is asked.
pub fn piece_file_read(
    cache: &mut CacheManager,
    piece_key: &str,
    read: Result<Vec<u8>, String>,
    now: u64,
) -> (r: PieceBytes)
    requires
        has_room(
            *old(cache),
            piece_key@,
            match read {
                Ok(data) => data@.len() as int,
                Err(_) => 0,
            },
        ),
    ensures
        final(cache).wf(),
        match read {
            Ok(data) => {
                &&& r == PieceBytes::Data(data)
                &&& if old(cache).pieces().contains_key(piece_key@) {
                    accessed(*old(cache), *final(cache), piece_key@, now)
                } else {
                    registered(*old(cache), *final(cache), piece_key@, data@.len() as int, now)
                }
            },
            Err(reason) => {
                &&& *final(cache) == *old(cache)
                &&& if old(cache).pieces().contains_key(piece_key@) {
                    r is AskSession
                } else {
                    r matches PieceBytes::Failed(TorrentError::IoError(m)) && m@
                        == unreadable_text(piece_key@, reason@)
                }
            },
        },
{
    let indexed = cache.has_piece(piece_key);
    match read {
        Ok(data) => {
            if indexed {
                let _ = cache.record_access(piece_key, now);
            } else {
                cache.add_piece(piece_key, data.len() as u64, now);
            }
            PieceBytes::Data(data)
        },
        Err(reason) => {
            if indexed {
                PieceBytes::AskSession
            } else {
                let mut m = "Failed to read cached piece ".to_owned();
                m.append(piece_key);
                m.append(" from disk: ");
                m.append(reason.as_str());
                PieceBytes::Failed(TorrentError::IoError(m))
            }
        },
    }
}

/// Takes note of a piece of `size` bytes that the session gave.
pub fn piece_fetched(cache: &mut CacheManager, piece_key: &str, size: u64, now: u64)
    requires
        has_room(*old(cache), piece_key@, size as int),
    ensures
        final(cache).wf(),
        registered(*old(cache), *final(cache), piece_key@, size as int, now),
{
    cache.add_piece(piece_key, size, now);
}

/// A torrent that is only watched is never asked for pieces, one that is to be downloaded may be; a
/// torrent that the session holds is not added again. Only the first one is added with piece files.
pub proof fn handle_plan_fits_its_purpose(m: DownloadManager, info_hash: Seq<char>)
    ensures
        m.handles@.contains_key(info_hash) ==> m.plan(info_hash, true) == m.plan(info_hash, false)
            && m.plan(info_hash, true) == HandlePlan::Existing(m.handles@[info_hash]),
        !m.handles@.contains_key(info_hash) ==> {
            &&& m.plan(info_hash, true) is UploadOnly || m.plan(info_hash, true)
                is CustomStorageUploadOnly
            &&& m.plan(info_hash, false) is OwnDirectory || m.plan(info_hash, false)
                is CustomStorage
            &&& m.plan(info_hash, true) is CustomStorageUploadOnly <==> !m.custom_storage_active
            &&& m.plan(info_hash, false) is CustomStorage <==> !m.custom_storage_active
        },
{
}

/// A piece is taken from the session only where neither the index nor the disk has it.
pub proof fn session_is_asked_last(cache: CacheManager, key: Seq<char>, on_disk: bool)
    ensures
        source_of(cache, key, on_disk) is Session <==> !cache.pieces().contains_key(key)
            && !on_disk,
        cache.pieces().contains_key(key) <==> source_of(cache, key, on_disk) is Cached,
{
}

/// What is read from a file or given by the session is known afterwards, with its size and its time;
/// every other piece is as it was. A known piece counts one more hit, a new one is good and none.
pub proof fn used_piece_is_known(
    before: CacheManager,
    after: CacheManager,
    key: Seq<char>,
    other: Seq<char>,
    size: u64,
    now: u64,
)
    requires
        has_room(before, key, size as int),
        key != other,
    ensures
        accessed(before, after, key, now) && before.pieces().contains_key(key) ==> {
            &&& after.pieces().contains_key(key)
            &&& after.pieces()[key].last_accessed == now
            &&& after.pieces()[key].size == before.pieces()[key].size
            &&& after.pieces()[key].hit_count == before.pieces()[key].hit_count + 1
            &&& after.hit_count == before.hit_count + 1
            &&& after.current_size == before.current_size
            &&& after.verified(key) == before.verified(key)
        },
        registered(before, after, key, size as int, now) ==> {
            &&& after.pieces().contains_key(key)
            &&& after.pieces()[key].last_accessed == now
            &&& after.pieces()[key].size == size
            &&& after.pieces()[key].hit_count == 0
            &&& after.verified(key)
            &&& after.verified(other) == before.verified(other)
            &&& after.hit_count == before.hit_count
            &&& after.current_size == before.current_size + size
        },
        accessed(before, after, key, now) || registered(before, after, key, size as int, now) ==> {
            &&& after.pieces().contains_key(other) == before.pieces().contains_key(other)
            &&& before.pieces().contains_key(other) ==> after.pieces()[other]
                == before.pieces()[other]
        },
{
}

} // verus!

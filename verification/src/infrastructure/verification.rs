//! The check of cached pieces that were left from an earlier run.
//!
//! After a start every piece file is known but unverified: it may be whole, or the rest of an
//! interrupted write. A piece with the expected size is hashed; one whose hash is right is marked
//! as verified, any other is purged, so that it is downloaded again. A piece with another size
//! stays, unverified, until it is overwritten.

use vstd::prelude::*;

use super::cache::CacheManager;
use super::digest;

verus! {

/// What the torrent says of a piece; nothing where the torrent is not known, has no such piece
/// or gives no hash for it.
pub struct ExpectedPiece {
    pub hash: Option<Vec<u8>>,
    pub size: Option<u64>,
}

/// What to do with a piece before its content is read.
#[derive(Debug, Clone, Copy, PartialEq, Eq, Structural)]
pub enum PieceCheck {
    /// Nothing can be said: leave the piece alone.
    Skip,
    /// The file is gone: forget the piece.
    Purge,
    /// Read the file and compare its hash.
    Hash,
}

pub open spec fn piece_check(expected: ExpectedPiece, file_size: Option<u64>) -> PieceCheck {
    if expected.hash is None || expected.size is None {
        PieceCheck::Skip
    } else {
        match file_size {
            None => PieceCheck::Purge,
            Some(size) => if expected.size == Some(size) {
                PieceCheck::Hash
            } else {
                PieceCheck::Skip
            },
        }
    }
}

/// Decides by the size of the file, where there is one.
pub fn check_piece(expected: &ExpectedPiece, file_size: Option<u64>) -> (r: PieceCheck)
    ensures
        r == piece_check(*expected, file_size),
{
    if expected.hash.is_none() {
        return PieceCheck::Skip;
    }
    match expected.size {
        None => PieceCheck::Skip,
        Some(wanted) => match file_size {
            None => PieceCheck::Purge,
            Some(size) => if size == wanted {
                PieceCheck::Hash
            } else {
                PieceCheck::Skip
            },
        },
    }
}

/// Whether a hash is the expected one.
pub fn hash_matches(actual: &Vec<u8>, expected: &Vec<u8>) -> (r: bool)
    ensures
        r == (actual@ == expected@),
{
    digest::same_bytes(actual, expected)
}

/// Whether the content of a piece has the expected hash; the content is missing where the file
/// vanished in the meantime.
pub fn content_is_good(content: &Option<Vec<u8>>, expected: &Vec<u8>) -> (r: bool)
    ensures
        r == (match *content {
            Some(data) => digest::sha1_of(data@) == expected@,
            None => false,
        }),
{
    match content {
        Some(data) => hash_matches(&digest::sha1(data), expected),
        None => false,
    }
}

/// What was found out about a piece.
#[derive(Debug, Clone, Copy, PartialEq, Eq, Structural)]
pub enum PieceFinding {
    /// Nothing can be said.
    Unknown,
    /// The content has the expected hash.
    Good,
    /// The file is gone, or its content has another hash.
    Bad,
}

/// What the size of a piece's file and its content say; the content matters only for a file of
/// the expected size.
pub open spec fn finding(
    expected: ExpectedPiece,
    file_size: Option<u64>,
    content: Option<Vec<u8>>,
) -> PieceFinding {
    match piece_check(expected, file_size) {
        PieceCheck::Skip => PieceFinding::Unknown,
        PieceCheck::Purge => PieceFinding::Bad,
        PieceCheck::Hash => if content matches Some(data) && digest::sha1_of(data@)
            == expected.hash->0@ {
            PieceFinding::Good
        } else {
            PieceFinding::Bad
        },
    }
}

/// Finds out about a piece. The content has to be read only where `check_piece` asks for its
/// hash.
pub fn judge_piece(
    expected: &ExpectedPiece,
    file_size: Option<u64>,
    content: &Option<Vec<u8>>,
) -> (r: PieceFinding)
    ensures
        r == finding(*expected, file_size, *content),
{
    match check_piece(expected, file_size) {
        PieceCheck::Skip => PieceFinding::Unknown,
        PieceCheck::Purge => PieceFinding::Bad,
        PieceCheck::Hash => match &expected.hash {
            Some(hash) => if content_is_good(content, hash) {
                PieceFinding::Good
            } else {
                PieceFinding::Bad
            },
            None => PieceFinding::Unknown,
        },
    }
}

/// A piece is found good only where its file has the size and the hash that the torrent gives.
pub proof fn good_piece_has_its_hash(
    expected: ExpectedPiece,
    file_size: Option<u64>,
    content: Option<Vec<u8>>,
)
    requires
        finding(expected, file_size, content) is Good,
    ensures
        file_size is Some && file_size == expected.size,
        content is Some && expected.hash is Some,
        digest::sha1_of(content->0@) == expected.hash->0@,
{
}

/// A file of another size is the rest of an interrupted write: it is never purged.
pub proof fn interrupted_write_is_left_alone(
    expected: ExpectedPiece,
    file_size: u64,
    content: Option<Vec<u8>>,
)
    requires
        expected.size != Some(file_size),
    ensures
        finding(expected, Some(file_size), content) is Unknown,
{
}

/// How many pieces were verified, purged and left alone.
#[derive(Debug, Clone, Copy, PartialEq, Eq, Structural)]
pub struct VerificationTally {
    pub verified: u64,
    pub purged: u64,
    pub skipped: u64,
}

/// What became of a piece.
#[derive(Debug, Clone, Copy, PartialEq, Eq, Structural)]
pub enum PieceVerdict {
    Verified,
    /// Purged; with the size of the removed file, where there was one.
    Purged { file_size: Option<u64> },
    /// To be purged, but its file could not be removed: it counts as purged and stays known.
    Stuck,
    Skipped,
}

/// What became of the file of a piece that is to be purged.
#[derive(Debug, Clone, Copy, PartialEq, Eq, Structural)]
pub enum FileRemoval {
    /// There is none any more; with its size, where there was one.
    Gone { file_size: Option<u64> },
    Failed,
}

/// What becomes of a piece by what was found out about it; the file is removed only where the
/// piece is bad.
pub fn verdict_for(found: PieceFinding, removal: FileRemoval) -> (r: PieceVerdict)
    ensures
        r == (match found {
            PieceFinding::Good => PieceVerdict::Verified,
            PieceFinding::Bad => match removal {
                FileRemoval::Gone { file_size } => PieceVerdict::Purged { file_size },
                FileRemoval::Failed => PieceVerdict::Stuck,
            },
            PieceFinding::Unknown => PieceVerdict::Skipped,
        }),
{
    match found {
        PieceFinding::Good => PieceVerdict::Verified,
        PieceFinding::Bad => match removal {
            FileRemoval::Gone { file_size } => PieceVerdict::Purged { file_size },
            FileRemoval::Failed => PieceVerdict::Stuck,
        },
        PieceFinding::Unknown => PieceVerdict::Skipped,
    }
}

impl VerificationTally {
    pub open spec fn counting(self, verdict: PieceVerdict) -> VerificationTally {
        match verdict {
            PieceVerdict::Verified => VerificationTally {
                verified: (self.verified + 1) as u64,
                ..self
            },
            PieceVerdict::Purged { .. } | PieceVerdict::Stuck => VerificationTally {
                purged: (self.purged + 1) as u64,
                ..self
            },
            PieceVerdict::Skipped => VerificationTally {
                skipped: (self.skipped + 1) as u64,
                ..self
            },
        }
    }
}

/// Enters a verdict into the index and counts it.
pub fn enter_verdict(
    cache: &mut CacheManager,
    piece_key: &str,
    verdict: PieceVerdict,
    tally: VerificationTally,
) -> (r: VerificationTally)
    requires
        old(cache).wf(),
        tally.verified < u64::MAX,
        tally.purged < u64::MAX,
        tally.skipped < u64::MAX,
    ensures
        final(cache).wf(),
        r == tally.counting(verdict),
        final(cache).max_cache_size == old(cache).max_cache_size,
        final(cache).miss_count == old(cache).miss_count,
        final(cache).hit_count == old(cache).hit_count,
        match verdict {
            PieceVerdict::Verified => {
                &&& final(cache).pieces() == old(cache).pieces()
                &&& final(cache).verified_piece_keys@ == old(cache).verified_piece_keys@.insert(
                    piece_key@,
                    (),
                )
                &&& final(cache).current_size == old(cache).current_size
            },
            PieceVerdict::Purged { file_size } => {
                &&& final(cache).pieces() == old(cache).pieces().remove(piece_key@)
                &&& final(cache).verified_piece_keys@ == old(cache).verified_piece_keys@.remove(
                    piece_key@,
                )
                &&& final(cache).current_size == (match file_size {
                    Some(size) => super::cache::less(old(cache).current_size, size as int),
                    None => old(cache).current_size,
                })
            },
            PieceVerdict::Stuck | PieceVerdict::Skipped => *final(cache) == *old(cache),
        },
{
    match verdict {
        PieceVerdict::Verified => {
            cache.mark_verified(piece_key);
            VerificationTally {
                verified: tally.verified + 1,
                purged: tally.purged,
                skipped: tally.skipped,
            }
        },
        PieceVerdict::Purged { file_size } => {
            cache.delete_piece(piece_key, file_size);
            VerificationTally {
                verified: tally.verified,
                purged: tally.purged + 1,
                skipped: tally.skipped,
            }
        },
        PieceVerdict::Stuck => VerificationTally {
            verified: tally.verified,
            purged: tally.purged + 1,
            skipped: tally.skipped,
        },
        PieceVerdict::Skipped => VerificationTally {
            verified: tally.verified,
            purged: tally.purged,
            skipped: tally.skipped + 1,
        },
    }
}

/// What is known of a piece decides alone: a file of the right size with the right hash is good and
/// one with another hash is bad, a missing file is bad, and of a piece that the torrent does not
/// describe nothing is said.
pub proof fn every_finding_has_its_reason(
    expected: ExpectedPiece,
    file_size: Option<u64>,
    content: Option<Vec<u8>>,
)
    ensures
        expected.hash is None || expected.size is None ==> finding(expected, file_size, content)
            is Unknown,
        expected.hash is Some && expected.size is Some && file_size is None ==> finding(
            expected,
            file_size,
            content,
        ) is Bad,
        expected.hash is Some && file_size is Some && file_size == expected.size ==> !(finding(
            expected,
            file_size,
            content,
        ) is Unknown) && (finding(expected, file_size, content) is Good <==> content is Some
            && digest::sha1_of(content->0@) == expected.hash->0@),
{
}

/// Each verdict counts once, under its own name.
pub proof fn verdict_counts_once(tally: VerificationTally, verdict: PieceVerdict)
    requires
        tally.verified < u64::MAX,
        tally.purged < u64::MAX,
        tally.skipped < u64::MAX,
    ensures
        ({
            let after = tally.counting(verdict);
            &&& after.verified + after.purged + after.skipped == tally.verified + tally.purged
                + tally.skipped + 1
            &&& after.verified > tally.verified <==> verdict is Verified
            &&& after.skipped > tally.skipped <==> verdict is Skipped
            &&& after.purged > tally.purged <==> verdict is Purged || verdict is Stuck
        }),
{
}

} // verus!

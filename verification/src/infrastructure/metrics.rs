//! Counters of what the filesystem has done.

use vstd::prelude::*;

verus! {

/// The counters at one moment. `l1` counts lookups in the cache of file data, `l2` checks for
/// pieces on disk, `l3` lookups of parsed torrents.
#[derive(Debug, Clone, Copy, PartialEq, Eq, Structural)]
pub struct MetricsSnapshot {
    pub l1_hits: u64,
    pub l1_misses: u64,
    pub l2_hits: u64,
    pub l2_misses: u64,
    pub l3_hits: u64,
    pub l3_misses: u64,
    pub deferred_reads: u64,
    pub pending_reads_current: u64,
    pub pending_reads_peak: u64,
    pub poll_hits: u64,
    pub poll_checks: u64,
    pub download_queue_current: u64,
    pub download_queue_peak: u64,
    pub workers_active: u64,
    pub workers_peak: u64,
    pub lock_acquires: u64,
    pub lock_wait_nanos: u64,
}

/// One more, starting again from zero after the largest number.
pub open spec fn counted(n: u64) -> u64 {
    if n == u64::MAX {
        0
    } else {
        (n + 1) as u64
    }
}

/// One more, starting again from zero after the largest number.
pub fn count(n: u64) -> (r: u64)
    ensures
        r == counted(n),
{
    if n == u64::MAX {
        0
    } else {
        n + 1
    }
}

impl MetricsSnapshot {
    pub open spec fn zero() -> MetricsSnapshot {
        MetricsSnapshot {
            l1_hits: 0,
            l1_misses: 0,
            l2_hits: 0,
            l2_misses: 0,
            l3_hits: 0,
            l3_misses: 0,
            deferred_reads: 0,
            pending_reads_current: 0,
            pending_reads_peak: 0,
            poll_hits: 0,
            poll_checks: 0,
            download_queue_current: 0,
            download_queue_peak: 0,
            workers_active: 0,
            workers_peak: 0,
            lock_acquires: 0,
            lock_wait_nanos: 0,
        }
    }

    pub fn new() -> (r: MetricsSnapshot)
        ensures
            r == MetricsSnapshot::zero(),
    {
        MetricsSnapshot {
            l1_hits: 0,
            l1_misses: 0,
            l2_hits: 0,
            l2_misses: 0,
            l3_hits: 0,
            l3_misses: 0,
            deferred_reads: 0,
            pending_reads_current: 0,
            pending_reads_peak: 0,
            poll_hits: 0,
            poll_checks: 0,
            download_queue_current: 0,
            download_queue_peak: 0,
            workers_active: 0,
            workers_peak: 0,
            lock_acquires: 0,
            lock_wait_nanos: 0,
        }
    }
}

impl Default for MetricsSnapshot {
    fn default() -> (r: Self)
        ensures
            r == MetricsSnapshot::zero(),
    {
        MetricsSnapshot::new()
    }
}

} // verus!

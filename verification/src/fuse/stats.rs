//! The text of the `.stats` files.

use vstd::prelude::*;
use vstd::string::StrSliceExecFns;

use super::inodes;
use super::numbers;
use super::numbers::{format_bytes, format_num};
use super::shares;
use super::shares::{percent, ratio};
use crate::domain::types::{Torrent, TorrentStatus};
use crate::download::types::{PieceStatus, SessionStats, TorrentActivity};
use crate::infrastructure::metrics::MetricsSnapshot;
use crate::table::TextMap;
use crate::text;

verus! {

/// The counters of the cache.
#[derive(Debug, Clone, Copy, PartialEq, Eq, Structural)]
pub struct CacheFigures {
    pub current_size: u64,
    pub max_size: u64,
    pub hits: u64,
    pub misses: u64,
}

/// What can be said of the cache.
#[derive(Debug, Clone, Copy, PartialEq, Eq, Structural)]
pub enum CacheState {
    Known(CacheFigures),
    Locked,
    Absent,
}

impl CacheState {
    pub open spec fn current_size(&self) -> u64 {
        match *self {
            CacheState::Known(c) => c.current_size,
            _ => 0,
        }
    }

    pub open spec fn max_size(&self) -> u64 {
        match *self {
            CacheState::Known(c) => c.max_size,
            _ => 0,
        }
    }

    pub open spec fn hits(&self) -> u64 {
        match *self {
            CacheState::Known(c) => c.hits,
            _ => 0,
        }
    }

    pub open spec fn misses(&self) -> u64 {
        match *self {
            CacheState::Known(c) => c.misses,
            _ => 0,
        }
    }

    /// The part of the limit that is used.
    pub open spec fn usage(&self) -> Seq<char> {
        shares::percent_text(self.current_size() as int, self.max_size() as int)
    }

    /// The part of the reads that found their piece.
    pub open spec fn hit_rate(&self) -> Seq<char> {
        hit_rate_text(self.hits(), self.misses())
    }

    /// The reads can be counted.
    pub open spec fn countable(&self) -> bool {
        self.hits() + self.misses() <= u64::MAX
    }

    fn figures(&self) -> (r: CacheFigures)
        ensures
            r.current_size == self.current_size(),
            r.max_size == self.max_size(),
            r.hits == self.hits(),
            r.misses == self.misses(),
    {
        match self {
            CacheState::Known(c) => *c,
            _ => CacheFigures { current_size: 0, max_size: 0, hits: 0, misses: 0 },
        }
    }

    pub open spec fn place(&self) -> Seq<char> {
        match *self {
            CacheState::Known(_) => "(cache)"@,
            CacheState::Locked => "(locked)"@,
            CacheState::Absent => "(none)"@,
        }
    }
}

/// How many torrents there are: of each status, and with different info hashes.
#[derive(Debug, Clone, Copy, PartialEq, Eq, Structural)]
pub struct TorrentCounts {
    pub pending: i64,
    pub downloading: i64,
    pub seeding: i64,
    pub error: i64,
    pub total: i64,
    pub unique: i64,
}

/// The share of hits among hits and misses.
pub open spec fn hit_rate_text(hits: u64, misses: u64) -> Seq<char> {
    shares::percent_text(hits as int, hits + misses)
}

/// The share of hits among hits and misses, in percent.
pub fn hit_rate(hits: u64, misses: u64) -> (r: String)
    requires
        hits + misses <= u64::MAX,
    ensures
        r@ == hit_rate_text(hits, misses),
{
    percent(hits, hits + misses)
}

/// A text with the line of equal signs.
pub open spec fn banner(out: Seq<char>, subtitle: Option<Seq<char>>) -> Seq<char> {
    match subtitle {
        Some(sub) => out + "===========================================================\n"@
            + "  torrentfs v0.1.0 — "@ + sub + "\n"@
            + "===========================================================\n"@ + "\n\n"@,
        None => out + "===========================================================\n"@
            + "  torrentfs v0.1.0\n"@
            + "===========================================================\n"@ + "\n\n"@,
    }
}

pub fn write_banner(output: &mut String, subtitle: Option<&str>)
    ensures
        final(output)@ == banner(
            old(output)@,
            match subtitle {
                Some(s) => Some(s@),
                None => None,
            },
        ),
{
    output.append("===========================================================\n");
    match subtitle {
        Some(sub) => {
            output.append("  torrentfs v0.1.0 — ");
            output.append(sub);
            output.append("\n");
        },
        None => {
            output.append("  torrentfs v0.1.0\n");
        },
    }
    output.append("===========================================================\n");
    output.append("\n\n");
}

/// The end of every `.stats` file.
pub open spec fn footer(out: Seq<char>) -> Seq<char> {
    out + "\n"@ + "==========================================================="@ + "\n"@
}

fn write_footer(output: &mut String)
    ensures
        final(output)@ == footer(old(output)@),
{
    output.append("\n");
    output.append("===========================================================");
    output.append("\n");
}

/// Hours, minutes and seconds.
pub open spec fn uptime(out: Seq<char>, seconds: int) -> Seq<char> {
    out + "  Uptime:       "@ + text::dec(seconds / 3600) + "h "@ + text::dec((seconds % 3600) / 60)
        + "m "@ + text::dec(seconds % 60) + "s\n"@
}

/// How long ago `since` was, or no time where it lies ahead.
pub open spec fn elapsed(since: u64, now: u64) -> int {
    if now > since {
        now - since
    } else {
        0
    }
}

pub open spec fn overview(
    out: Seq<char>,
    creation_time: u64,
    now: u64,
    has_database: bool,
    session: Option<SessionStats>,
    cache: CacheState,
    listen_addr: Seq<char>,
) -> Seq<char> {
    let head = uptime(out + "-- Overview --\n"@, elapsed(creation_time, now))
        + "  Mount:        (dynamic)\n"@ + "  Database:     "@ + (if has_database {
        "(active)"@
    } else {
        "(none)"@
    }) + "\n"@ + "  Cache Dir:    "@ + cache.place() + "\n"@ + "  Cache Usage:  "@
        + numbers::bytes_text(cache.current_size() as int) + " / "@ + numbers::bytes_text(
        cache.max_size() as int,
    ) + " ("@ + cache.usage() + "%)\n"@;
    match session {
        Some(s) => head + "  Listen:       "@ + listen_addr + "\n"@ + "  DHT Nodes:    "@
            + text::dec_signed(s.dht_nodes as int) + "\n"@,
        None => head + "  Listen:       (not available)\n"@ + "  DHT Nodes:    —\n"@,
    }
}

pub fn write_overview(
    output: &mut String,
    creation_time: u64,
    now: u64,
    has_database: bool,
    session: Option<SessionStats>,
    cache: &CacheState,
    listen_addr: &str,
)
    ensures
        final(output)@ == overview(
            old(output)@,
            creation_time,
            now,
            has_database,
            session,
            *cache,
            listen_addr@,
        ),
{
    let seconds: u64 = if now > creation_time {
        now - creation_time
    } else {
        0
    };
    output.append("-- Overview --\n");
    output.append("  Uptime:       ");
    output.append(text::decimal(seconds / 3600).as_str());
    output.append("h ");
    output.append(text::decimal((seconds % 3600) / 60).as_str());
    output.append("m ");
    output.append(text::decimal(seconds % 60).as_str());
    output.append("s\n");
    output.append("  Mount:        (dynamic)\n");
    output.append("  Database:     ");
    if has_database {
        output.append("(active)");
    } else {
        output.append("(none)");
    }
    output.append("\n");
    output.append("  Cache Dir:    ");
    match cache {
        CacheState::Known(_) => {
            output.append("(cache)");
        },
        CacheState::Locked => {
            output.append("(locked)");
        },
        CacheState::Absent => {
            output.append("(none)");
        },
    }
    output.append("\n");
    write_cache_usage(output, "  Cache Usage:  ", cache);
    match session {
        Some(s) => {
            output.append("  Listen:       ");
            output.append(listen_addr);
            output.append("\n");
            output.append("  DHT Nodes:    ");
            output.append(text::decimal_signed(s.dht_nodes as i64).as_str());
            output.append("\n");
        },
        None => {
            output.append("  Listen:       (not available)\n");
            output.append("  DHT Nodes:    —\n");
        },
    }
}

fn write_cache_usage(output: &mut String, label: &str, cache: &CacheState)
    ensures
        final(output)@ == old(output)@ + label@ + numbers::bytes_text(cache.current_size() as int)
            + " / "@ + numbers::bytes_text(cache.max_size() as int) + " ("@ + cache.usage()
            + "%)\n"@,
{
    let c = cache.figures();
    output.append(label);
    output.append(format_bytes(c.current_size).as_str());
    output.append(" / ");
    output.append(format_bytes(c.max_size).as_str());
    output.append(" (");
    output.append(percent(c.current_size, c.max_size).as_str());
    output.append("%)\n");
}

/// A signed number of bytes, read as an unsigned one.
pub open spec fn signed_bytes(n: i64) -> Seq<char> {
    numbers::bytes_text(inodes::as_unsigned(n))
}

fn unsigned(n: i64) -> (r: u64)
    ensures
        r == inodes::as_unsigned(n),
{
    assert(n < 0 ==> (n as u64) == n + 0x1_0000_0000_0000_0000) by (bit_vector);
    n as u64
}

fn format_signed(n: i64) -> (r: String)
    ensures
        r@ == signed_bytes(n),
{
    format_bytes(unsigned(n))
}

pub open spec fn global_rates(out: Seq<char>, session: Option<SessionStats>) -> Seq<char> {
    match session {
        Some(s) => out + "\n-- Global Rates --\n"@ + "  Download Rate:  "@ + signed_bytes(
            s.download_rate,
        ) + "/s\n"@ + "  Upload Rate:    "@ + signed_bytes(s.upload_rate) + "/s\n"@
            + "  Total DL:       "@ + signed_bytes(s.total_downloaded) + "\n"@
            + "  Total UL:       "@ + signed_bytes(s.total_uploaded) + "\n"@,
        None => out + "\n-- Global Rates --\n"@ + "  Download Rate:  —\n"@
            + "  Upload Rate:    —\n"@ + "  Total DL:       —\n"@ + "  Total UL:       —\n"@,
    }
}

pub fn write_global_rates(output: &mut String, session: Option<SessionStats>)
    ensures
        final(output)@ == global_rates(old(output)@, session),
{
    output.append("\n-- Global Rates --\n");
    match session {
        Some(s) => {
            output.append("  Download Rate:  ");
            output.append(format_signed(s.download_rate).as_str());
            output.append("/s\n");
            output.append("  Upload Rate:    ");
            output.append(format_signed(s.upload_rate).as_str());
            output.append("/s\n");
            output.append("  Total DL:       ");
            output.append(format_signed(s.total_downloaded).as_str());
            output.append("\n");
            output.append("  Total UL:       ");
            output.append(format_signed(s.total_uploaded).as_str());
            output.append("\n");
        },
        None => {
            output.append("  Download Rate:  —\n");
            output.append("  Upload Rate:    —\n");
            output.append("  Total DL:       —\n");
            output.append("  Total UL:       —\n");
        },
    }
}

pub open spec fn connections(out: Seq<char>, session: Option<SessionStats>) -> Seq<char> {
    match session {
        Some(s) => out + "\n-- Connections --\n"@ + "  Connected:      "@ + text::dec_signed(
            s.peers_connected as int,
        ) + "\n"@ + "  Half-open:      "@ + text::dec_signed(s.half_open_connections as int)
            + "\n"@ + "  Total Attempts: —\n"@,
        None => out + "\n-- Connections --\n"@ + "  Connected:      —\n"@
            + "  Half-open:      —\n"@ + "  Total Attempts: —\n"@,
    }
}

pub fn write_connections(output: &mut String, session: Option<SessionStats>)
    ensures
        final(output)@ == connections(old(output)@, session),
{
    output.append("\n-- Connections --\n");
    match session {
        Some(s) => {
            output.append("  Connected:      ");
            output.append(text::decimal_signed(s.peers_connected as i64).as_str());
            output.append("\n");
            output.append("  Half-open:      ");
            output.append(text::decimal_signed(s.half_open_connections as i64).as_str());
            output.append("\n");
            output.append("  Total Attempts: —\n");
        },
        None => {
            output.append("  Connected:      —\n");
            output.append("  Half-open:      —\n");
            output.append("  Total Attempts: —\n");
        },
    }
}

pub open spec fn torrent_overview(out: Seq<char>, c: TorrentCounts) -> Seq<char> {
    out + "\n-- Torrents --\n"@ + "  Total: "@ + text::dec_signed(c.total as int) + "  Unique: "@
        + text::dec_signed(c.unique as int) + "  Pending: "@ + text::dec_signed(c.pending as int)
        + "  Downloading: "@ + text::dec_signed(c.downloading as int) + "  Seeding: "@
        + text::dec_signed(c.seeding as int) + "  Error: "@ + text::dec_signed(c.error as int)
        + "\n"@
}

pub fn write_torrent_overview_counts(output: &mut String, c: TorrentCounts)
    ensures
        final(output)@ == torrent_overview(old(output)@, c),
{
    output.append("\n-- Torrents --\n");
    output.append("  Total: ");
    output.append(text::decimal_signed(c.total).as_str());
    output.append("  Unique: ");
    output.append(text::decimal_signed(c.unique).as_str());
    output.append("  Pending: ");
    output.append(text::decimal_signed(c.pending).as_str());
    output.append("  Downloading: ");
    output.append(text::decimal_signed(c.downloading).as_str());
    output.append("  Seeding: ");
    output.append(text::decimal_signed(c.seeding).as_str());
    output.append("  Error: ");
    output.append(text::decimal_signed(c.error).as_str());
    output.append("\n");
}

pub open spec fn info_hashes(torrents: Seq<Torrent>) -> Seq<Seq<char>> {
    Seq::new(torrents.len(), |i: int| torrents[i].info_hash@)
}

/// How many different info hashes there are.
pub fn unique_info_hashes(torrents: &Vec<Torrent>) -> (r: usize)
    ensures
        r == info_hashes(torrents@).to_set().len(),
{
    let ghost all = info_hashes(torrents@);
    let mut seen: TextMap<()> = TextMap::new();
    let mut i: usize = 0;
    proof {
        assert(seen@.dom() =~= all.take(0).to_set());
    }
    while i < torrents.len()
        invariant
            i <= torrents@.len(),
            all == info_hashes(torrents@),
            seen.wf(),
            seen@.dom() == all.take(i as int).to_set(),
        decreases torrents@.len() - i,
    {
        let ghost h = all[i as int];
        let ghost before = seen@.dom();
        seen.insert(torrents[i].info_hash.clone(), ());
        proof {
            text::push_contains(all.take(i as int), h);
            assert(all.take(i as int).push(h) =~= all.take(i as int + 1));
            assert(seen@.dom() =~= before.insert(h));
            assert(seen@.dom() =~= all.take(i as int + 1).to_set());
        }
        i = i + 1;
    }
    proof {
        assert(all.take(torrents@.len() as int) =~= all);
    }
    seen.len()
}

pub open spec fn cache_summary(out: Seq<char>, cache: CacheState) -> Seq<char> {
    out + "\n-- Cache --\n"@ + "  Hits: "@ + numbers::num_text(cache.hits() as int)
        + "  Misses: "@ + numbers::num_text(cache.misses() as int) + "  Hit Rate: "@
        + cache.hit_rate() + "%  Evictions: 0\n"@
}

pub fn write_global_cache_summary(output: &mut String, cache: &CacheState)
    requires
        cache.countable(),
    ensures
        final(output)@ == cache_summary(old(output)@, *cache),
{
    output.append("\n-- Cache --\n");
    write_hits(output, cache);
    output.append("%  Evictions: 0\n");
}

fn write_hits(output: &mut String, cache: &CacheState)
    requires
        cache.countable(),
    ensures
        final(output)@ == old(output)@ + "  Hits: "@ + numbers::num_text(cache.hits() as int)
            + "  Misses: "@ + numbers::num_text(cache.misses() as int) + "  Hit Rate: "@
            + cache.hit_rate(),
{
    let c = cache.figures();
    output.append("  Hits: ");
    output.append(format_num(c.hits).as_str());
    output.append("  Misses: ");
    output.append(format_num(c.misses).as_str());
    output.append("  Hit Rate: ");
    output.append(hit_rate(c.hits, c.misses).as_str());
}

pub open spec fn performance(out: Seq<char>) -> Seq<char> {
    out + "\n-- Performance --\n"@ + "  Tick Interval:  1000 ms\n"@ + "  Memory (RSS):   —\n"@
}

pub fn write_performance(output: &mut String)
    ensures
        final(output)@ == performance(old(output)@),
{
    output.append("\n-- Performance --\n");
    output.append("  Tick Interval:  1000 ms\n");
    output.append("  Memory (RSS):   —\n");
}

/// One line on the lookups of a cache.
pub open spec fn hit_line(
    out: Seq<char>,
    label: Seq<char>,
    hits: u64,
    misses: u64,
) -> Seq<char> {
    out + label + numbers::num_text(hits as int) + "  misses "@ + numbers::num_text(misses as int)
        + "  hit rate "@ + hit_rate_text(hits, misses) + "%\n"@
}

fn write_hit_line(output: &mut String, label: &str, hits: u64, misses: u64)
    requires
        hits + misses <= u64::MAX,
    ensures
        final(output)@ == hit_line(old(output)@, label@, hits, misses),
{
    output.append(label);
    output.append(format_num(hits).as_str());
    output.append("  misses ");
    output.append(format_num(misses).as_str());
    output.append("  hit rate ");
    output.append(hit_rate(hits, misses).as_str());
    output.append("%\n");
}

/// The time to get the lock once, in microseconds, on average.
pub open spec fn average_wait(nanos: u64, acquires: u64) -> int {
    if acquires > 0 {
        (nanos as int / acquires as int) / 1000
    } else {
        0
    }
}

/// The lookups can be counted.
pub open spec fn countable(metrics: Option<MetricsSnapshot>) -> bool {
    match metrics {
        Some(m) => {
            &&& m.l1_hits + m.l1_misses <= u64::MAX
            &&& m.l2_hits + m.l2_misses <= u64::MAX
            &&& m.l3_hits + m.l3_misses <= u64::MAX
            &&& m.poll_hits + m.poll_checks <= u64::MAX
        },
        None => true,
    }
}

pub open spec fn observability(out: Seq<char>, m: MetricsSnapshot) -> Seq<char> {
    let a = hit_line(
        out + "\n-- Observability --\n"@,
        "  Cache L1 (memory):   hits "@,
        m.l1_hits,
        m.l1_misses,
    );
    let b = hit_line(a, "  Cache L2 (disk):     hits "@, m.l2_hits, m.l2_misses);
    let c = hit_line(b, "  Cache L3 (metadata): hits "@, m.l3_hits, m.l3_misses);
    c + "  Deferred reads:      "@ + numbers::num_text(m.deferred_reads as int) + "  Pending: "@
        + numbers::num_text(m.pending_reads_current as int) + " current / "@ + numbers::num_text(
        m.pending_reads_peak as int,
    ) + " peak\n"@ + "  Poll hit rate:       hits "@ + numbers::num_text(m.poll_hits as int)
        + " / checks "@ + numbers::num_text(m.poll_checks as int) + " ("@ + hit_rate_text(m.poll_hits, m.poll_checks) + "%)\n"@
        + "  Download queue:      "@ + numbers::num_text(m.download_queue_current as int)
        + " current / "@ + numbers::num_text(m.download_queue_peak as int) + " peak\n"@
        + "  Workers:             "@ + numbers::num_text(m.workers_active as int) + " active / "@
        + numbers::num_text(m.workers_peak as int) + " peak\n"@ + "  Lock wait:           "@
        + numbers::num_text(m.lock_acquires as int) + " acquisitions, avg "@ + numbers::num_text(
        average_wait(m.lock_wait_nanos, m.lock_acquires),
    ) + " µs (total "@ + text::dec(m.lock_wait_nanos as int / 1_000_000) + " ms)\n"@
}

/// Renders the counters; where there are none, all are zero.
pub fn write_observability(output: &mut String, metrics: Option<MetricsSnapshot>)
    requires
        countable(metrics),
    ensures
        final(output)@ == observability(
            old(output)@,
            match metrics {
                Some(m) => m,
                None => MetricsSnapshot::zero(),
            },
        ),
{
    let m = match metrics {
        Some(m) => m,
        None => MetricsSnapshot::new(),
    };
    output.append("\n-- Observability --\n");
    write_hit_line(
        output,
        "  Cache L1 (memory):   hits ",
        m.l1_hits,
        m.l1_misses,
    );
    write_hit_line(
        output,
        "  Cache L2 (disk):     hits ",
        m.l2_hits,
        m.l2_misses,
    );
    write_hit_line(
        output,
        "  Cache L3 (metadata): hits ",
        m.l3_hits,
        m.l3_misses,
    );
    output.append("  Deferred reads:      ");
    output.append(format_num(m.deferred_reads).as_str());
    output.append("  Pending: ");
    output.append(format_num(m.pending_reads_current).as_str());
    output.append(" current / ");
    output.append(format_num(m.pending_reads_peak).as_str());
    output.append(" peak\n");
    output.append("  Poll hit rate:       hits ");
    output.append(format_num(m.poll_hits).as_str());
    output.append(" / checks ");
    output.append(format_num(m.poll_checks).as_str());
    output.append(" (");
    output.append(hit_rate(m.poll_hits, m.poll_checks).as_str());
    output.append("%)\n");
    output.append("  Download queue:      ");
    output.append(format_num(m.download_queue_current).as_str());
    output.append(" current / ");
    output.append(format_num(m.download_queue_peak).as_str());
    output.append(" peak\n");
    output.append("  Workers:             ");
    output.append(format_num(m.workers_active).as_str());
    output.append(" active / ");
    output.append(format_num(m.workers_peak).as_str());
    output.append(" peak\n");
    let average: u64 = if m.lock_acquires > 0 {
        m.lock_wait_nanos / m.lock_acquires / 1_000
    } else {
        0
    };
    output.append("  Lock wait:           ");
    output.append(format_num(m.lock_acquires).as_str());
    output.append(" acquisitions, avg ");
    output.append(format_num(average).as_str());
    output.append(" µs (total ");
    output.append(text::decimal(m.lock_wait_nanos / 1_000_000).as_str());
    output.append(" ms)\n");
}

/// Everything that the root's `.stats` shows.
pub struct GlobalFigures {
    pub creation_time: u64,
    pub now: u64,
    pub has_database: bool,
    pub session: Option<SessionStats>,
    pub cache: CacheState,
    pub listen_addr: String,
    pub counts: TorrentCounts,
    pub metrics: Option<MetricsSnapshot>,
}

impl GlobalFigures {
    /// Hits and misses can be counted.
    pub open spec fn countable(&self) -> bool {
        self.cache.countable() && countable(self.metrics)
    }
}

pub open spec fn global_stats(g: GlobalFigures) -> Seq<char> {
    let a = banner(Seq::empty(), None);
    let b = overview(
        a,
        g.creation_time,
        g.now,
        g.has_database,
        g.session,
        g.cache,
        g.listen_addr@,
    );
    let c = connections(global_rates(b, g.session), g.session);
    let d = performance(cache_summary(torrent_overview(c, g.counts), g.cache));
    footer(
        observability(
            d,
            match g.metrics {
                Some(m) => m,
                None => MetricsSnapshot::zero(),
            },
        ),
    )
}

/// The text of the root's `.stats`.
pub fn global_stats_text(g: &GlobalFigures) -> (r: String)
    requires
        g.countable(),
    ensures
        r@ == global_stats(*g),
{
    let mut output = String::new();
    write_banner(&mut output, None);
    write_overview(
        &mut output,
        g.creation_time,
        g.now,
        g.has_database,
        g.session,
        &g.cache,
        g.listen_addr.as_str(),
    );
    write_global_rates(&mut output, g.session);
    write_connections(&mut output, g.session);
    write_torrent_overview_counts(&mut output, g.counts);
    write_global_cache_summary(&mut output, &g.cache);
    write_performance(&mut output);
    write_observability(&mut output, g.metrics);
    write_footer(&mut output);
    output
}

/// The content of the root's `.stats`.
pub fn generate_global_stats(g: &GlobalFigures) -> (r: Vec<u8>)
    requires
        g.countable(),
    ensures
        r@ == vstd::utf8::encode_utf8(global_stats(*g)),
{
    global_stats_text(g).as_str().as_bytes_vec()
}

/// The content of the root's `.stats`.
pub fn generate_stats(g: &GlobalFigures) -> (r: Vec<u8>)
    requires
        g.countable(),
    ensures
        r@ == vstd::utf8::encode_utf8(global_stats(*g)),
{
    generate_global_stats(g)
}

pub open spec fn status_english(status: TorrentStatus) -> Seq<char> {
    match status {
        TorrentStatus::Pending => "Pending"@,
        TorrentStatus::Downloading => "Downloading"@,
        TorrentStatus::Seeding => "Seeding"@,
        TorrentStatus::Error => "Error"@,
    }
}

pub fn status_to_english(status: &TorrentStatus) -> (r: &'static str)
    ensures
        r@ == status_english(*status),
{
    match status {
        TorrentStatus::Pending => "Pending",
        TorrentStatus::Downloading => "Downloading",
        TorrentStatus::Seeding => "Seeding",
        TorrentStatus::Error => "Error",
    }
}

/// `[x]` for a piece in the cache, `[X N]` for one that was read N times, `[N]` for a wanted piece
/// with its priority, `[]` for one that is not wanted.
pub open spec fn marker(status: PieceStatus) -> Seq<char> {
    if status.is_cached {
        if status.hit_count > 0 {
            "[X "@ + text::dec(status.hit_count as int) + "]"@
        } else {
            "[x]"@
        }
    } else if status.priority > 0 {
        "["@ + text::dec_signed(status.priority as int) + "]"@
    } else {
        "[]"@
    }
}

pub fn piece_marker(status: &PieceStatus) -> (r: String)
    ensures
        r@ == marker(*status),
{
    if status.is_cached {
        if status.hit_count > 0 {
            text::concat3("[X ", text::decimal(status.hit_count).as_str(), "]")
        } else {
            "[x]".to_owned()
        }
    } else if status.priority > 0 {
        text::concat3("[", text::decimal_signed(status.priority as i64).as_str(), "]")
    } else {
        "[]".to_owned()
    }
}

/// A text with the markers of pieces.
pub open spec fn markers(out: Seq<char>, pieces: Seq<PieceStatus>) -> Seq<char>
    decreases pieces.len(),
{
    if pieces.len() == 0 {
        out
    } else {
        markers(out, pieces.drop_last()) + marker(pieces.last())
    }
}

/// The pieces that are in the cache.
pub open spec fn cached(pieces: Seq<PieceStatus>) -> Seq<PieceStatus> {
    pieces.filter(|p: PieceStatus| p.is_cached)
}

/// How many of the pieces are in the cache: the part of a torrent that can be read.
pub fn cached_pieces(pieces: &Vec<PieceStatus>) -> (r: usize)
    ensures
        r == cached(pieces@).len(),
        r <= pieces@.len(),
{
    let mut n: usize = 0;
    let mut i: usize = 0;
    proof {
        reveal(Seq::filter);
    }
    while i < pieces.len()
        invariant
            i <= pieces@.len(),
            n <= i,
            n == cached(pieces@.take(i as int)).len(),
        decreases pieces@.len() - i,
    {
        proof {
            reveal(Seq::filter);
            assert(pieces@.take(i as int + 1).drop_last() =~= pieces@.take(i as int));
        }
        if pieces[i].is_cached {
            n = n + 1;
        }
        i = i + 1;
    }
    proof {
        assert(pieces@.take(pieces@.len() as int) =~= pieces@);
    }
    n
}

/// All pieces count as cached exactly where every single one is in the cache.
pub proof fn whole_only_with_every_piece(pieces: Seq<PieceStatus>)
    ensures
        cached(pieces).len() <= pieces.len(),
        cached(pieces).len() == pieces.len() <==> (forall|i: int|
            0 <= i < pieces.len() ==> (#[trigger] pieces[i]).is_cached),
    decreases pieces.len(),
{
    reveal(Seq::filter);
    if pieces.len() > 0 {
        let rest = pieces.drop_last();
        whole_only_with_every_piece(rest);
        assert(forall|i: int| 0 <= i < rest.len() ==> rest[i] == #[trigger] pieces[i]);
        if cached(pieces).len() == pieces.len() {
            assert(pieces.last().is_cached);
            assert forall|i: int| 0 <= i < pieces.len() implies (#[trigger]
            pieces[i]).is_cached by {
                if i < rest.len() {
                    assert(rest[i].is_cached);
                }
            }
        } else if forall|i: int| 0 <= i < pieces.len() ==> (#[trigger] pieces[i]).is_cached {
            assert(pieces[pieces.len() - 1].is_cached);
            assert forall|i: int| 0 <= i < rest.len() implies (#[trigger] rest[i]).is_cached by {
                assert(pieces[i].is_cached);
            }
        }
    }
}

/// The length of each piece, and the state of every piece.
pub struct PieceReport {
    pub piece_length: u64,
    pub pieces: Vec<PieceStatus>,
}

/// What the cache holds of one torrent.
#[derive(Debug, Clone, Copy, PartialEq, Eq, Structural)]
pub struct CachedShare {
    pub piece_count: usize,
    pub total_size: u64,
}

/// What a torrent's `.stats` shows.
pub struct TorrentFigures {
    pub torrent: Torrent,
    pub activity: Option<TorrentActivity>,
    pub pieces: Option<PieceReport>,
    /// The progress in percent that the session reports.
    pub progress: String,
    pub cache: Option<CachedShare>,
}

/// The progress in percent. The session's own report is shown only where the state of the pieces
/// is not known: the session may call a torrent complete before its pieces are there.
pub open spec fn progress_text(
    total: u64,
    pieces: Option<PieceReport>,
    reported: Seq<char>,
) -> Seq<char> {
    if total > 0 {
        match pieces {
            Some(r) => shares::percent_text(
                cached(r.pieces@).len() as int,
                r.pieces@.len() as int,
            ),
            None => reported,
        }
    } else {
        "0.0"@
    }
}

fn progress(total: u64, pieces: &Option<PieceReport>, reported: &String) -> (r: String)
    ensures
        r@ == progress_text(total, *pieces, reported@),
{
    if total > 0 {
        match pieces {
            Some(p) => percent(cached_pieces(&p.pieces) as u64, p.pieces.len() as u64),
            None => reported.clone(),
        }
    } else {
        "0.0".to_owned()
    }
}

/// What was sent in relation to what was received, where anything was.
pub open spec fn share_text(upload: i64, download: i64) -> Seq<char> {
    if download > 0 {
        shares::ratio_text(upload as int, download as int)
    } else {
        "—"@
    }
}

impl TorrentFigures {
    pub open spec fn reported(&self) -> TorrentActivity {
        match self.activity {
            Some(a) => a,
            None => TorrentActivity::idle(),
        }
    }
}

/// The first bytes of an info hash, at most ten.
pub open spec fn hash_start(info_hash: Seq<char>) -> int {
    let len = vstd::utf8::encode_utf8(info_hash).len();
    if len < 10 {
        len as int
    } else {
        10
    }
}

pub open spec fn short_hash(info_hash: Seq<char>) -> Seq<char> {
    vstd::utf8::decode_utf8(
        vstd::utf8::encode_utf8(info_hash).subrange(0, hash_start(info_hash)),
    )
}

/// The text for a torrent that the catalogue does not hold.
pub open spec fn missing_torrent_stats(torrent_id: i64, info_hash: Seq<char>) -> Seq<char> {
    footer(
        Seq::<char>::empty() + "  Torrent not found (id="@ + text::dec_signed(torrent_id as int)
            + ", info_hash="@ + short_hash(info_hash) + "...)\n"@,
    )
}

/// A text with what is said of a torrent's progress, rates and peers.
pub open spec fn torrent_head(f: TorrentFigures) -> Seq<char> {
    let t = f.torrent;
    let a = f.reported();
    let out = Seq::<char>::empty() + "===== torrent: "@ + t.name@ + " =====\n\n"@
        + "-- Status --\n"@ + "  Name: "@ + t.name@ + "\n"@ + "  Status: "@ + status_english(
        t.status,
    ) + "  Progress: "@ + progress_text(a.total, f.pieces, f.progress@) + "%  Size: "@ + signed_bytes(t.total_size) + "\n"@ + "  DL: "@ + numbers::bytes_text(
        a.total_done as int,
    ) + "  UL: "@ + signed_bytes(a.total_upload) + "  Ratio: "@ + share_text(a.total_upload, a.total_download) + "\n"@ + "\n-- Rates --\n"@ + "  Rate: ↓ "@ + signed_bytes(a.download_rate)
        + "/s  ↑ "@ + signed_bytes(a.upload_rate) + "/s\n"@ + "\n-- Peers --\n"@
        + "  Peers: "@ + text::dec_signed(a.num_peers as int) + "  Seeds: "@
        + text::dec_signed(a.num_seeds as int) + "\n"@;
    if a.num_peers == 0 && a.num_seeds == 0 {
        out + "  ⚠ Health: 0 peers / 0 seeds — tracker may be unreachable\n"@
    } else {
        out
    }
}

/// A text with the grid of pieces, which is left out where there is none.
pub open spec fn piece_grid(out: Seq<char>, report: Option<PieceReport>) -> Seq<char> {
    match report {
        Some(r) => if r.pieces@.len() > 0 {
            markers(
                out + "\n-- Pieces ("@ + text::dec(r.pieces@.len() as int) + " pieces, "@
                    + numbers::bytes_text(r.piece_length as int) + " each) --\n  "@,
                r.pieces@,
            ) + "\n"@
        } else {
            out
        },
        None => out,
    }
}

/// A text with what the cache holds of the torrent.
pub open spec fn cached_share(out: Seq<char>, share: Option<CachedShare>) -> Seq<char> {
    match share {
        Some(c) => out + "Cache: "@ + text::dec(c.piece_count as int) + " pieces  "@
            + numbers::bytes_text(c.total_size as int) + "\n"@,
        None => out,
    }
}

/// The text of a torrent's `.stats`.
pub open spec fn torrent_stats(f: TorrentFigures) -> Seq<char> {
    let out = cached_share(piece_grid(torrent_head(f), f.pieces), f.cache);
    footer(
        out + "info_hash: "@ + f.torrent.info_hash@ + "\n"@ + "source_path: \""@
            + f.torrent.source_path@ + "\"\n"@,
    )
}

fn write_torrent_head(output: &mut String, f: &TorrentFigures)
    requires
        old(output)@ == Seq::<char>::empty(),
    ensures
        final(output)@ == torrent_head(*f),
{
    let t = &f.torrent;
    let a = match f.activity {
        Some(a) => a,
        None => TorrentActivity::default(),
    };
    output.append("===== torrent: ");
    output.append(t.name.as_str());
    output.append(" =====\n\n");
    output.append("-- Status --\n");
    output.append("  Name: ");
    output.append(t.name.as_str());
    output.append("\n");
    output.append("  Status: ");
    output.append(status_to_english(&t.status));
    output.append("  Progress: ");
    output.append(progress(a.total, &f.pieces, &f.progress).as_str());
    output.append("%  Size: ");
    output.append(format_signed(t.total_size).as_str());
    output.append("\n");
    output.append("  DL: ");
    output.append(format_bytes(a.total_done).as_str());
    output.append("  UL: ");
    output.append(format_signed(a.total_upload).as_str());
    output.append("  Ratio: ");
    if a.total_download > 0 {
        output.append(ratio(a.total_upload, a.total_download).as_str());
    } else {
        output.append("—");
    }
    output.append("\n");
    output.append("\n-- Rates --\n");
    output.append("  Rate: ↓ ");
    output.append(format_signed(a.download_rate).as_str());
    output.append("/s  ↑ ");
    output.append(format_signed(a.upload_rate).as_str());
    output.append("/s\n");
    output.append("\n-- Peers --\n");
    output.append("  Peers: ");
    output.append(text::decimal_signed(a.num_peers as i64).as_str());
    output.append("  Seeds: ");
    output.append(text::decimal_signed(a.num_seeds as i64).as_str());
    output.append("\n");
    if a.num_peers == 0 && a.num_seeds == 0 {
        output.append("  ⚠ Health: 0 peers / 0 seeds — tracker may be unreachable\n");
    }
}

fn write_piece_grid(output: &mut String, report: &Option<PieceReport>)
    ensures
        final(output)@ == piece_grid(old(output)@, *report),
{
    if let Some(r) = report {
        if r.pieces.len() > 0 {
            output.append("\n-- Pieces (");
            output.append(text::decimal(r.pieces.len() as u64).as_str());
            output.append(" pieces, ");
            output.append(format_bytes(r.piece_length).as_str());
            output.append(" each) --\n  ");
            let ghost head = output@;
            let ghost all = r.pieces@;
            let mut i: usize = 0;
            while i < r.pieces.len()
                invariant
                    i <= r.pieces@.len(),
                    all == r.pieces@,
                    output@ == markers(head, all.take(i as int)),
                decreases r.pieces@.len() - i,
            {
                output.append(piece_marker(&r.pieces[i]).as_str());
                proof {
                    assert(all.take(i as int + 1).drop_last() =~= all.take(i as int));
                }
                i = i + 1;
            }
            proof {
                assert(all.take(all.len() as int) =~= all);
            }
            output.append("\n");
        }
    }
}

/// The text of a torrent's `.stats`.
pub fn torrent_stats_text(f: &TorrentFigures) -> (r: String)
    ensures
        r@ == torrent_stats(*f),
{
    let mut output = String::new();
    write_torrent_head(&mut output, f);
    write_piece_grid(&mut output, &f.pieces);
    if let Some(c) = f.cache {
        output.append("Cache: ");
        output.append(text::decimal(c.piece_count as u64).as_str());
        output.append(" pieces  ");
        output.append(format_bytes(c.total_size).as_str());
        output.append("\n");
    }
    output.append("info_hash: ");
    output.append(f.torrent.info_hash.as_str());
    output.append("\n");
    output.append("source_path: \"");
    output.append(f.torrent.source_path.as_str());
    output.append("\"\n");
    write_footer(&mut output);
    output
}

/// The text of the `.stats` of a torrent that the catalogue does not hold.
pub fn missing_torrent_text(torrent_id: i64, info_hash: &str) -> (r: String)
    requires
        vstd::utf8::is_char_boundary(
            vstd::utf8::encode_utf8(info_hash@),
            hash_start(info_hash@),
        ),
    ensures
        r@ == missing_torrent_stats(torrent_id, info_hash@),
{
    let len: usize = info_hash.as_bytes_vec().len();
    let n: usize = if len < 10 {
        len
    } else {
        10
    };
    let head = info_hash.split_at(n).0;
    proof {
        vstd::utf8::encode_utf8_decode_utf8(head@);
    }
    let mut output = String::new();
    output.append("  Torrent not found (id=");
    output.append(text::decimal_signed(torrent_id).as_str());
    output.append(", info_hash=");
    output.append(head);
    output.append("...)\n");
    write_footer(&mut output);
    output
}

/// The content of the `.stats` of the torrent with an id and an info hash, where `figures` tells
/// what is known of it if the catalogue holds it.
pub fn generate_torrent_stats(
    torrent_id: i64,
    info_hash: &str,
    figures: &Option<TorrentFigures>,
) -> (r: Vec<u8>)
    requires
        figures is None ==> vstd::utf8::is_char_boundary(
            vstd::utf8::encode_utf8(info_hash@),
            hash_start(info_hash@),
        ),
    ensures
        r@ == vstd::utf8::encode_utf8(
            match *figures {
                Some(f) => torrent_stats(f),
                None => missing_torrent_stats(torrent_id, info_hash@),
            },
        ),
{
    match figures {
        Some(f) => torrent_stats_text(f).as_str().as_bytes_vec(),
        None => missing_torrent_text(torrent_id, info_hash).as_str().as_bytes_vec(),
    }
}

/// What is known of a torrent by its id.
pub enum TorrentRow {
    NoCatalogue,
    NotListed,
    Listed(TorrentFigures),
}

pub open spec fn torrent_row_stats(torrent_id: i64, row: TorrentRow) -> Seq<char> {
    match row {
        TorrentRow::NoCatalogue => "Database not available\n"@,
        TorrentRow::NotListed => "Torrent not found (id="@ + text::dec_signed(torrent_id as int)
            + ")\n"@,
        TorrentRow::Listed(f) => torrent_stats(f),
    }
}

/// The content of the `.stats` of the torrent with an id, or a notice where it is not known.
pub fn generate_torrent_stats_for_id(torrent_id: i64, row: &TorrentRow) -> (r: Vec<u8>)
    ensures
        r@ == vstd::utf8::encode_utf8(torrent_row_stats(torrent_id, *row)),
{
    match row {
        TorrentRow::NoCatalogue => "Database not available\n".as_bytes_vec(),
        TorrentRow::NotListed => text::concat3(
            "Torrent not found (id=",
            text::decimal_signed(torrent_id).as_str(),
            ")\n",
        ).as_str().as_bytes_vec(),
        TorrentRow::Listed(f) => torrent_stats_text(f).as_str().as_bytes_vec(),
    }
}

/// `n` spaces, or none.
pub open spec fn spaces(n: int) -> Seq<char> {
    Seq::new(
        if n > 0 {
            n as nat
        } else {
            0
        },
        |i: int| ' ',
    )
}

/// A text of at least `width` characters, with what is missing behind it.
pub open spec fn padded(s: Seq<char>, width: int) -> Seq<char> {
    s + spaces(width - s.len())
}

/// A text of at least `width` characters, with what is missing before it.
pub open spec fn indented(s: Seq<char>, width: int) -> Seq<char> {
    spaces(width - s.len()) + s
}

fn write_spaces(output: &mut String, length: usize, width: usize)
    ensures
        final(output)@ == old(output)@ + spaces(width - length),
{
    let ghost before = output@;
    let mut n: usize = length;
    proof {
        assert(before + spaces(0) =~= before);
    }
    while n < width
        invariant
            n <= width || n == length,
            length <= n,
            output@ == before + spaces(n - length),
        decreases width - n,
    {
        output.push(' ');
        proof {
            assert(before + spaces(n - length + 1) =~= (before + spaces(n - length)).push(' '));
        }
        n = n + 1;
    }
    proof {
        if length >= width {
            assert(spaces(width - length) =~= spaces(n - length));
        }
    }
}

fn write_padded(output: &mut String, s: &str, width: usize)
    ensures
        final(output)@ == old(output)@ + padded(s@, width as int),
{
    let ghost before = output@;
    output.append(s);
    write_spaces(output, s.unicode_len(), width);
    proof {
        assert(before + s@ + spaces(width - s@.len()) =~= before + padded(s@, width as int));
    }
}

fn write_indented(output: &mut String, s: &str, width: usize)
    ensures
        final(output)@ == old(output)@ + indented(s@, width as int),
{
    let ghost before = output@;
    write_spaces(output, s.unicode_len(), width);
    output.append(s);
    proof {
        assert(before + spaces(width - s@.len()) + s@ =~= before + indented(s@, width as int));
    }
}

/// A name that takes more than 40 bytes is cut after 37 characters, and three dots follow.
pub open spec fn shown_name(name: Seq<char>) -> Seq<char> {
    if vstd::utf8::encode_utf8(name).len() > 40 {
        (if name.len() > 37 {
            name.take(37)
        } else {
            name
        }) + "..."@
    } else {
        name
    }
}

/// No character takes less than a byte.
proof fn bytes_at_least_chars(s: Seq<char>)
    ensures
        vstd::utf8::encode_utf8(s).len() >= s.len(),
    decreases s.len(),
{
    if s.len() > 0 {
        bytes_at_least_chars(s.drop_first());
    }
}

/// A shown name never takes more than the 40 characters of its column.
pub proof fn shown_name_fits(name: Seq<char>)
    ensures
        shown_name(name).len() <= 40,
{
    reveal_strlit("...");
    bytes_at_least_chars(name);
}

pub fn shorten_name(name: &str) -> (r: String)
    ensures
        r@ == shown_name(name@),
{
    if name.as_bytes_vec().len() > 40 {
        let chars = text::chars_of(name);
        let n: usize = if chars.len() > 37 {
            37
        } else {
            chars.len()
        };
        proof {
            assert(chars@.subrange(0, n as int) =~= if name@.len() > 37 {
                name@.take(37)
            } else {
                name@
            });
        }
        text::concat2(text::string_of_range(&chars, 0, n).as_str(), "...")
    } else {
        name.to_owned()
    }
}

/// One torrent in the `.stats` of a directory.
pub struct DirectoryRow {
    pub torrent: Torrent,
    pub activity: Option<TorrentActivity>,
    pub pieces: Option<PieceReport>,
    /// The progress in percent that the session reports.
    pub progress: String,
}

impl DirectoryRow {
    pub open spec fn reported(&self) -> TorrentActivity {
        match self.activity {
            Some(a) => a,
            None => TorrentActivity::idle(),
        }
    }
}

/// Sums over torrents.
pub struct Sums {
    pub size: int,
    pub done: int,
    pub upload: int,
    pub download: int,
    pub download_rate: int,
    pub upload_rate: int,
    pub peers: int,
    pub seeds: int,
}

/// The sums over the torrents of a directory.
pub open spec fn sums(rows: Seq<DirectoryRow>) -> Sums
    decreases rows.len(),
{
    if rows.len() == 0 {
        Sums {
            size: 0,
            done: 0,
            upload: 0,
            download: 0,
            download_rate: 0,
            upload_rate: 0,
            peers: 0,
            seeds: 0,
        }
    } else {
        let s = sums(rows.drop_last());
        let a = rows.last().reported();
        Sums {
            size: s.size + inodes::as_unsigned(rows.last().torrent.total_size),
            done: s.done + a.total_done,
            upload: s.upload + inodes::as_unsigned(a.total_upload),
            download: s.download + inodes::as_unsigned(a.total_download),
            download_rate: s.download_rate + a.download_rate,
            upload_rate: s.upload_rate + a.upload_rate,
            peers: s.peers + a.num_peers,
            seeds: s.seeds + a.num_seeds,
        }
    }
}

pub open spec fn sums_fit(s: Sums) -> bool {
    &&& s.size <= u64::MAX
    &&& s.done <= u64::MAX
    &&& s.upload <= u64::MAX
    &&& s.download <= u64::MAX
    &&& i64::MIN <= s.download_rate <= i64::MAX
    &&& i64::MIN <= s.upload_rate <= i64::MAX
    &&& i32::MIN <= s.peers <= i32::MAX
    &&& i32::MIN <= s.seeds <= i32::MAX
}

/// The sums can be taken, torrent after torrent.
pub open spec fn can_sum(rows: Seq<DirectoryRow>) -> bool {
    forall|n: int| 0 <= n <= rows.len() ==> sums_fit(#[trigger] sums(rows.take(n)))
}

/// A text with one line on a torrent.
pub open spec fn row_line(out: Seq<char>, number: int, row: DirectoryRow) -> Seq<char> {
    let a = row.reported();
    out + "  #"@ + padded(text::dec(number), 3) + " "@ + padded(shown_name(row.torrent.name@), 40)
        + " "@ + status_english(row.torrent.status) + "  "@ + indented(
        progress_text(a.total, row.pieces, row.progress@),
        5,
    ) + "%  ↓ "@ + padded(signed_bytes(a.download_rate), 10) + "/s  ↑ "@ + padded(
        signed_bytes(a.upload_rate),
        10,
    ) + "/s  "@ + indented(text::dec_signed(a.num_peers as int), 3) + "P/"@ + padded(
        text::dec_signed(a.num_seeds as int),
        3,
    ) + "S\n"@
}

/// A text with one line on each torrent.
pub open spec fn row_lines(out: Seq<char>, rows: Seq<DirectoryRow>) -> Seq<char>
    decreases rows.len(),
{
    if rows.len() == 0 {
        out
    } else {
        row_line(row_lines(out, rows.drop_last()), rows.len() as int, rows.last())
    }
}

/// A text with what is said of the cache.
pub open spec fn directory_cache(out: Seq<char>, cache: CacheState) -> Seq<char> {
    match cache {
        CacheState::Known(c) => out + "\n-- Cache --\n"@ + "  Cache Usage: "@
            + numbers::bytes_text(c.current_size as int) + " / "@ + numbers::bytes_text(
            c.max_size as int,
        ) + " ("@ + cache.usage() + "%)\n"@ + "  Hits: "@ + numbers::num_text(c.hits as int)
            + "  Misses: "@ + numbers::num_text(c.misses as int) + "  Hit Rate: "@
            + cache.hit_rate() + "%\n"@,
        CacheState::Locked => out + "\n-- Cache --\n"@ + "  (locked)\n"@,
        CacheState::Absent => out + "\n-- Cache --\n"@ + "  (none)\n"@,
    }
}

/// A text with the sums over a directory's torrents.
pub open spec fn directory_sums(out: Seq<char>, count: int, s: Sums) -> Seq<char> {
    out + "-- Rates --\n"@ + "  Torrents: "@ + text::dec(count) + "  Total Size: "@
        + numbers::bytes_text(s.size) + "  Downloaded: "@ + numbers::bytes_text(s.done) + "\n"@
        + "  DL Rate: ↓ "@ + signed_bytes(s.download_rate as i64) + "/s  UL Rate: ↑ "@
        + signed_bytes(s.upload_rate as i64) + "/s\n"@ + "  Total UL: "@ + numbers::bytes_text(
        s.upload,
    ) + "  Total DL: "@ + numbers::bytes_text(s.download) + "\n"@ + "\n-- Peers --\n"@
        + "  Peers: "@ + text::dec_signed(s.peers) + "  Seeds: "@ + text::dec_signed(s.seeds)
        + "\n"@
}

/// The text of a directory's `.stats`.
pub open spec fn directory_stats(
    source_path: Seq<char>,
    rows: Seq<DirectoryRow>,
    cache: CacheState,
) -> Seq<char> {
    let title = Seq::<char>::empty() + "===== directory: "@ + source_path + " =====\n\n"@;
    if rows.len() == 0 {
        footer(title + "  No torrents found under this path.\n"@)
    } else {
        let a = directory_sums(title, rows.len() as int, sums(rows));
        let b = directory_cache(a, cache) + "\n-- Torrents --\n"@;
        footer(row_lines(b, rows))
    }
}

fn write_directory_sums(output: &mut String, rows: &Vec<DirectoryRow>)
    requires
        can_sum(rows@),
    ensures
        final(output)@ == directory_sums(old(output)@, rows@.len() as int, sums(rows@)),
{
    let mut size: u64 = 0;
    let mut done: u64 = 0;
    let mut upload: u64 = 0;
    let mut download: u64 = 0;
    let mut download_rate: i64 = 0;
    let mut upload_rate: i64 = 0;
    let mut peers: i32 = 0;
    let mut seeds: i32 = 0;
    let mut i: usize = 0;
    while i < rows.len()
        invariant
            i <= rows@.len(),
            can_sum(rows@),
            size == sums(rows@.take(i as int)).size,
            done == sums(rows@.take(i as int)).done,
            upload == sums(rows@.take(i as int)).upload,
            download == sums(rows@.take(i as int)).download,
            download_rate == sums(rows@.take(i as int)).download_rate,
            upload_rate == sums(rows@.take(i as int)).upload_rate,
            peers == sums(rows@.take(i as int)).peers,
            seeds == sums(rows@.take(i as int)).seeds,
        decreases rows@.len() - i,
    {
        proof {
            assert(rows@.take(i as int + 1).drop_last() =~= rows@.take(i as int));
            assert(sums_fit(sums(rows@.take(i as int + 1))));
        }
        let row = &rows[i];
        size = size + unsigned(row.torrent.total_size);
        if let Some(a) = row.activity {
            done = done + a.total_done;
            upload = upload + unsigned(a.total_upload);
            download = download + unsigned(a.total_download);
            download_rate = download_rate + a.download_rate;
            upload_rate = upload_rate + a.upload_rate;
            peers = peers + a.num_peers;
            seeds = seeds + a.num_seeds;
        }
        i = i + 1;
    }
    proof {
        assert(rows@.take(rows@.len() as int) =~= rows@);
    }
    output.append("-- Rates --\n");
    output.append("  Torrents: ");
    output.append(text::decimal(rows.len() as u64).as_str());
    output.append("  Total Size: ");
    output.append(format_bytes(size).as_str());
    output.append("  Downloaded: ");
    output.append(format_bytes(done).as_str());
    output.append("\n");
    output.append("  DL Rate: ↓ ");
    output.append(format_signed(download_rate).as_str());
    output.append("/s  UL Rate: ↑ ");
    output.append(format_signed(upload_rate).as_str());
    output.append("/s\n");
    output.append("  Total UL: ");
    output.append(format_bytes(upload).as_str());
    output.append("  Total DL: ");
    output.append(format_bytes(download).as_str());
    output.append("\n");
    output.append("\n-- Peers --\n");
    output.append("  Peers: ");
    output.append(text::decimal_signed(peers as i64).as_str());
    output.append("  Seeds: ");
    output.append(text::decimal_signed(seeds as i64).as_str());
    output.append("\n");
}

fn write_directory_cache(output: &mut String, cache: &CacheState)
    requires
        cache.countable(),
    ensures
        final(output)@ == directory_cache(old(output)@, *cache),
{
    output.append("\n-- Cache --\n");
    match cache {
        CacheState::Known(_) => {
            write_cache_usage(output, "  Cache Usage: ", cache);
            write_hits(output, cache);
            output.append("%\n");
        },
        CacheState::Locked => {
            output.append("  (locked)\n");
        },
        CacheState::Absent => {
            output.append("  (none)\n");
        },
    }
}

fn write_row(output: &mut String, number: u64, row: &DirectoryRow)
    ensures
        final(output)@ == row_line(old(output)@, number as int, *row),
{
    let a = match row.activity {
        Some(a) => a,
        None => TorrentActivity::default(),
    };
    output.append("  #");
    write_padded(output, text::decimal(number).as_str(), 3);
    output.append(" ");
    write_padded(output, shorten_name(row.torrent.name.as_str()).as_str(), 40);
    output.append(" ");
    output.append(status_to_english(&row.torrent.status));
    output.append("  ");
    write_indented(output, progress(a.total, &row.pieces, &row.progress).as_str(), 5);
    output.append("%  ↓ ");
    write_padded(output, format_signed(a.download_rate).as_str(), 10);
    output.append("/s  ↑ ");
    write_padded(output, format_signed(a.upload_rate).as_str(), 10);
    output.append("/s  ");
    write_indented(output, text::decimal_signed(a.num_peers as i64).as_str(), 3);
    output.append("P/");
    write_padded(output, text::decimal_signed(a.num_seeds as i64).as_str(), 3);
    output.append("S\n");
}

/// The text of a directory's `.stats`.
pub fn directory_stats_text(
    source_path: &str,
    rows: &Vec<DirectoryRow>,
    cache: &CacheState,
) -> (r: String)
    requires
        can_sum(rows@),
        rows@.len() > 0 ==> cache.countable(),
    ensures
        r@ == directory_stats(source_path@, rows@, *cache),
{
    let mut output = String::new();
    output.append("===== directory: ");
    output.append(source_path);
    output.append(" =====\n\n");
    if rows.len() == 0 {
        output.append("  No torrents found under this path.\n");
    } else {
        write_directory_sums(&mut output, rows);
        write_directory_cache(&mut output, cache);
        output.append("\n-- Torrents --\n");
        let ghost head = output@;
        let mut i: usize = 0;
        while i < rows.len()
            invariant
                i <= rows@.len(),
                output@ == row_lines(head, rows@.take(i as int)),
            decreases rows@.len() - i,
        {
            write_row(&mut output, (i + 1) as u64, &rows[i]);
            proof {
                assert(rows@.take(i as int + 1).drop_last() =~= rows@.take(i as int));
            }
            i = i + 1;
        }
        proof {
            assert(rows@.take(rows@.len() as int) =~= rows@);
        }
    }
    write_footer(&mut output);
    output
}

/// The content of a directory's `.stats`.
pub fn generate_directory_stats(
    source_path: &str,
    rows: &Vec<DirectoryRow>,
    cache: &CacheState,
) -> (r: Vec<u8>)
    requires
        can_sum(rows@),
        rows@.len() > 0 ==> cache.countable(),
    ensures
        r@ == vstd::utf8::encode_utf8(directory_stats(source_path@, rows@, *cache)),
{
    directory_stats_text(source_path, rows, cache).as_str().as_bytes_vec()
}

} // verus!

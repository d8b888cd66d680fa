//! What holds of the `.stats` texts: each figure is told under its own label.

use vstd::prelude::*;

use super::numbers;
use super::shares;
use super::stats;
use super::stats::{
    CacheFigures, CacheState, CachedShare, DirectoryRow, GlobalFigures, PieceReport, Sums,
    TorrentCounts, TorrentFigures,
};
use crate::domain::types::{Torrent, TorrentStatus};
use crate::download::types::{PieceStatus, SessionStats, TorrentActivity};
use crate::infrastructure::metrics::MetricsSnapshot;
use crate::text;

verus! {

/// Somewhere in the text `label` stands, directly followed by `value` and then by `end`.
#[verifier::opaque]
pub open spec fn tells(
    text: Seq<char>,
    label: Seq<char>,
    value: Seq<char>,
    end: Seq<char>,
) -> bool {
    exists|before: Seq<char>, after: Seq<char>|
        text == #[trigger] (before + label + value + end + after)
}

/// Two texts are the same but for what stands between `label` and `end` in one place.
#[verifier::opaque]
pub open spec fn differ_only_at(
    a: Seq<char>,
    b: Seq<char>,
    label: Seq<char>,
    value: Seq<char>,
    other: Seq<char>,
    end: Seq<char>,
) -> bool {
    exists|before: Seq<char>, after: Seq<char>|
        a == #[trigger] (before + label + value + end + after) && b == before + label + other + end
            + after
}

/// Parts of a text, one after another.
#[verifier::opaque]
spec fn flat(parts: Seq<Seq<char>>) -> Seq<char>
    decreases parts.len(),
{
    if parts.len() == 0 {
        Seq::empty()
    } else if parts.len() == 1 {
        parts[0]
    } else {
        flat(parts.drop_last()) + parts.last()
    }
}

/// A text with more parts, one after another.
#[verifier::opaque]
spec fn onto(out: Seq<char>, parts: Seq<Seq<char>>) -> Seq<char>
    decreases parts.len(),
{
    if parts.len() == 0 {
        out
    } else {
        onto(out, parts.drop_last()) + parts.last()
    }
}

#[verifier::opaque]
spec fn start(a: Seq<char>) -> Seq<Seq<char>> {
    Seq::<Seq<char>>::empty().push(a)
}

broadcast proof fn flat_of_one(a: Seq<char>)
    ensures
        #[trigger] flat(start(a)) == a,
{
    reveal(flat);
    reveal(start);
}

broadcast proof fn flat_of_more(parts: Seq<Seq<char>>, a: Seq<char>)
    requires
        parts.len() > 0,
    ensures
        #[trigger] flat(parts.push(a)) == flat(parts) + a,
{
    reveal(flat);
    assert(parts.push(a).drop_last() =~= parts);
}

broadcast proof fn onto_one(out: Seq<char>, a: Seq<char>)
    ensures
        #[trigger] onto(out, start(a)) == out + a,
{
    reveal(start);
    reveal_with_fuel(onto, 2);
    assert(start(a).drop_last() =~= Seq::empty());
}

broadcast proof fn onto_more(out: Seq<char>, parts: Seq<Seq<char>>, a: Seq<char>)
    ensures
        #[trigger] onto(out, parts.push(a)) == onto(out, parts) + a,
{
    reveal(onto);
    assert(parts.push(a).drop_last() =~= parts);
}

broadcast proof fn start_is_one(a: Seq<char>)
    ensures
        (#[trigger] start(a)).len() == 1,
        start(a)[0] == a,
{
    reveal(start);
}

proof fn onto_is_flat(out: Seq<char>, parts: Seq<Seq<char>>)
    requires
        parts.len() > 0,
    ensures
        onto(out, parts) == out + flat(parts),
    decreases parts.len(),
{
    reveal(flat);
    reveal(onto);
    let head = parts.drop_last();
    if head.len() > 0 {
        onto_is_flat(out, head);
        assert(out + flat(head) + parts.last() =~= out + (flat(head) + parts.last()));
    } else {
        reveal_with_fuel(onto, 2);
    }
}

proof fn flat_splits(parts: Seq<Seq<char>>, i: int)
    requires
        0 < i < parts.len(),
    ensures
        flat(parts) == flat(parts.take(i)) + flat(parts.skip(i)),
    decreases parts.len(),
{
    reveal(flat);
    let head = parts.drop_last();
    if i < parts.len() - 1 {
        flat_splits(head, i);
        assert(head.take(i) =~= parts.take(i));
        assert(head.skip(i) =~= parts.skip(i).drop_last());
        assert(flat(parts) =~= flat(parts.take(i)) + flat(parts.skip(i)));
    } else {
        assert(head =~= parts.take(i));
        assert(parts.skip(i) =~= seq![parts.last()]);
    }
}

/// The text up to a place, and the text from there on.
spec fn up_to(parts: Seq<Seq<char>>, i: int) -> Seq<char> {
    if i > 0 {
        flat(parts.take(i))
    } else {
        Seq::empty()
    }
}

spec fn from(parts: Seq<Seq<char>>, i: int) -> Seq<char> {
    if i < parts.len() {
        flat(parts.skip(i))
    } else {
        Seq::empty()
    }
}

proof fn flat_in_two(parts: Seq<Seq<char>>, i: int)
    requires
        0 <= i <= parts.len(),
        parts.len() > 0,
    ensures
        flat(parts) == up_to(parts, i) + from(parts, i),
{
    if 0 < i < parts.len() {
        flat_splits(parts, i);
    } else {
        assert(parts.take(parts.len() as int) =~= parts);
        assert(parts.skip(0) =~= parts);
        assert(flat(parts) =~= up_to(parts, i) + from(parts, i));
    }
}

proof fn flat_in_four(parts: Seq<Seq<char>>, i: int, middle: Seq<Seq<char>>)
    requires
        0 <= i,
        middle.len() > 0,
        i + middle.len() + 1 < parts.len(),
        forall|k: int| 0 <= k < middle.len() ==> #[trigger] middle[k] == parts[i + 1 + k],
    ensures
        flat(parts) == up_to(parts, i) + parts[i] + flat(middle) + parts[i + 1 + middle.len()]
            + from(parts, i + 2 + middle.len()),
{
    broadcast use {flat_of_one, flat_of_more, start_is_one};

    let n = middle.len() as int;
    let rest = parts.skip(i);
    flat_in_two(parts, i);
    flat_in_two(rest, 1);
    assert(rest.take(1) =~= start(parts[i]));
    let tail = rest.skip(1);
    flat_in_two(tail, n);
    assert(tail.take(n) =~= middle);
    let last = tail.skip(n);
    flat_in_two(last, 1);
    assert(last.take(1) =~= start(parts[i + 1 + n]));
    assert(last.skip(1) =~= parts.skip(i + 2 + n));
    let a = up_to(parts, i);
    let end = from(parts, i + 2 + n);
    assert(a + (parts[i] + (flat(middle) + (parts[i + 1 + n] + end))) =~= a + parts[i] + flat(
        middle,
    ) + parts[i + 1 + n] + end);
}

/// Parts between two others are told.
proof fn range_is_told(parts: Seq<Seq<char>>, i: int, middle: Seq<Seq<char>>)
    requires
        0 <= i,
        middle.len() > 0,
        i + middle.len() + 1 < parts.len(),
        forall|k: int| 0 <= k < middle.len() ==> #[trigger] middle[k] == parts[i + 1 + k],
    ensures
        tells(flat(parts), parts[i], flat(middle), parts[i + 1 + middle.len()]),
{
    reveal(tells);
    flat_in_four(parts, i, middle);
}

/// Where one part is changed, the texts differ in that place only.
proof fn changed_part_stands_alone(parts: Seq<Seq<char>>, i: int, other: Seq<char>)
    requires
        0 < i,
        i + 1 < parts.len(),
    ensures
        differ_only_at(
            flat(parts),
            flat(parts.update(i, other)),
            parts[i - 1],
            parts[i],
            other,
            parts[i + 1],
        ),
{
    broadcast use {flat_of_one, start_is_one};

    reveal(differ_only_at);
    let others = parts.update(i, other);
    flat_in_four(parts, i - 1, start(parts[i]));
    flat_in_four(others, i - 1, start(other));
    assert(others.take(i - 1) =~= parts.take(i - 1));
    assert(others.skip(i + 2) =~= parts.skip(i + 2));
    assert(others[i - 1] == parts[i - 1] && others[i + 1] == parts[i + 1]);
}

/// A text that holds another one.
#[verifier::opaque]
pub open spec fn holds(longer: Seq<char>, text: Seq<char>) -> bool {
    exists|before: Seq<char>, after: Seq<char>| longer == #[trigger] (before + text + after)
}

/// What a text tells, every text that holds it tells.
broadcast proof fn told_in_longer(
    longer: Seq<char>,
    text: Seq<char>,
    label: Seq<char>,
    value: Seq<char>,
    end: Seq<char>,
)
    requires
        #[trigger] holds(longer, text),
        #[trigger] tells(text, label, value, end),
    ensures
        tells(longer, label, value, end),
{
    reveal(tells);
    reveal(holds);
    let (first, last) = choose|first: Seq<char>, last: Seq<char>|
        longer == #[trigger] (first + text + last);
    let (before, after) = choose|before: Seq<char>, after: Seq<char>|
        text == #[trigger] (before + label + value + end + after);
    assert(longer =~= (first + before) + label + value + end + (after + last));
}

proof fn part_is_held(parts: Seq<Seq<char>>, i: int)
    requires
        0 <= i < parts.len(),
    ensures
        holds(flat(parts), parts[i]),
{
    broadcast use {flat_of_one, start_is_one};

    reveal(holds);
    let rest = parts.skip(i);
    flat_in_two(parts, i);
    flat_in_two(rest, 1);
    assert(rest.take(1) =~= start(parts[i]));
    let a = up_to(parts, i);
    let b = from(rest, 1);
    assert(a + (parts[i] + b) =~= a + parts[i] + b);
}

proof fn difference_in_part(
    parts: Seq<Seq<char>>,
    i: int,
    other: Seq<char>,
    label: Seq<char>,
    a: Seq<char>,
    b: Seq<char>,
    end: Seq<char>,
)
    requires
        0 <= i < parts.len(),
        differ_only_at(parts[i], other, label, a, b, end),
    ensures
        differ_only_at(flat(parts), flat(parts.update(i, other)), label, a, b, end),
{
    broadcast use {flat_of_one, start_is_one};

    reveal(differ_only_at);
    let others = parts.update(i, other);
    let rest = parts.skip(i);
    let more = others.skip(i);
    flat_in_two(parts, i);
    flat_in_two(others, i);
    flat_in_two(rest, 1);
    flat_in_two(more, 1);
    assert(rest.take(1) =~= start(parts[i]));
    assert(more.take(1) =~= start(other));
    assert(rest.skip(1) =~= more.skip(1));
    assert(parts.take(i) =~= others.take(i));
    let x = up_to(parts, i);
    let y = from(rest, 1);
    let (before, after) = choose|before: Seq<char>, after: Seq<char>|
        parts[i] == #[trigger] (before + label + a + end + after) && other == before + label + b
            + end + after;
    assert(flat(parts) =~= (x + before) + label + a + end + (after + y));
    assert(flat(others) =~= (x + before) + label + b + end + (after + y));
}

/// The lines on lookups in a text with what is counted.
spec fn lookup_lines(out: Seq<char>, m: MetricsSnapshot) -> Seq<char> {
    let a = stats::hit_line(
        out + "\n-- Observability --\n"@,
        "  Cache L1 (memory):   hits "@,
        m.l1_hits,
        m.l1_misses,
    );
    let b = stats::hit_line(a, "  Cache L2 (disk):     hits "@, m.l2_hits, m.l2_misses);
    stats::hit_line(b, "  Cache L3 (metadata): hits "@, m.l3_hits, m.l3_misses)
}

/// The other lines in a text with what is counted.
spec fn work_lines(out: Seq<char>, m: MetricsSnapshot) -> Seq<char> {
    out + "  Deferred reads:      "@ + numbers::num_text(m.deferred_reads as int) + "  Pending: "@
        + numbers::num_text(m.pending_reads_current as int) + " current / "@
        + numbers::num_text(m.pending_reads_peak as int) + " peak\n"@
        + "  Poll hit rate:       hits "@ + numbers::num_text(m.poll_hits as int) + " / checks "@
        + numbers::num_text(m.poll_checks as int) + " ("@
        + stats::hit_rate_text(m.poll_hits, m.poll_checks) + "%)\n"@ + "  Download queue:      "@
        + numbers::num_text(m.download_queue_current as int) + " current / "@
        + numbers::num_text(m.download_queue_peak as int) + " peak\n"@ + "  Workers:             "@
        + numbers::num_text(m.workers_active as int) + " active / "@
        + numbers::num_text(m.workers_peak as int) + " peak\n"@ + "  Lock wait:           "@
        + numbers::num_text(m.lock_acquires as int) + " acquisitions, avg "@
        + numbers::num_text(stats::average_wait(m.lock_wait_nanos, m.lock_acquires))
        + " µs (total "@ + text::dec(m.lock_wait_nanos as int / 1_000_000) + " ms)\n"@
}

#[verifier::opaque]
spec fn known_overview_parts(
    creation_time: u64,
    now: u64,
    has_database: bool,
    cache: CacheState,
    listen_addr: Seq<char>,
    s: SessionStats,
) -> Seq<Seq<char>> {
    let up = stats::elapsed(creation_time, now);
    start("-- Overview --\n"@)
        .push("  Uptime:       "@)
        .push(text::dec(up / 3600))
        .push("h "@)
        .push(text::dec((up % 3600) / 60))
        .push("m "@)
        .push(text::dec(up % 60))
        .push("s\n"@)
        .push("  Mount:        (dynamic)\n"@)
        .push("  Database:     "@)
        .push((if has_database { "(active)"@ } else { "(none)"@ }))
        .push("\n"@)
        .push("  Cache Dir:    "@)
        .push(cache.place())
        .push("\n"@)
        .push("  Cache Usage:  "@)
        .push(numbers::bytes_text(cache.current_size() as int))
        .push(" / "@)
        .push(numbers::bytes_text(cache.max_size() as int))
        .push(" ("@)
        .push(cache.usage())
        .push("%)\n"@)
        .push("  Listen:       "@)
        .push(listen_addr)
        .push("\n"@)
        .push("  DHT Nodes:    "@)
        .push(text::dec_signed(s.dht_nodes as int))
        .push("\n"@)
}

proof fn known_overview_append(
    out: Seq<char>,
    creation_time: u64,
    now: u64,
    has_database: bool,
    cache: CacheState,
    listen_addr: Seq<char>,
    s: SessionStats,
)
    ensures
        stats::overview(out, creation_time, now, has_database, Some(s), cache, listen_addr)
            == out
                + flat(
                    known_overview_parts(creation_time, now, has_database, cache, listen_addr, s),
                ),
{
    broadcast use {onto_one, onto_more, start_is_one};

    reveal(known_overview_parts);
    let parts = known_overview_parts(creation_time, now, has_database, cache, listen_addr, s);
    assert(
        onto(out, parts)
            == stats::overview(out, creation_time, now, has_database, Some(s), cache, listen_addr)
    );
    onto_is_flat(out, parts);
}

proof fn known_overview_tell(
    creation_time: u64,
    now: u64,
    has_database: bool,
    cache: CacheState,
    listen_addr: Seq<char>,
    s: SessionStats,
)
    ensures
        ({
            let up = stats::elapsed(creation_time, now);
            tells(
                flat(known_overview_parts(creation_time, now, has_database, cache, listen_addr, s)),
                "  Uptime:       "@,
                text::dec(up / 3600) + "h "@ + text::dec((up % 3600) / 60) + "m "@
                    + text::dec(up % 60),
                "s\n"@,
            )
        }),
        ({
            let up = stats::elapsed(creation_time, now);
            tells(
                flat(known_overview_parts(creation_time, now, has_database, cache, listen_addr, s)),
                "  Database:     "@,
                (if has_database { "(active)"@ } else { "(none)"@ }),
                "\n"@,
            )
        }),
        ({
            let up = stats::elapsed(creation_time, now);
            tells(
                flat(known_overview_parts(creation_time, now, has_database, cache, listen_addr, s)),
                "  Cache Dir:    "@,
                cache.place(),
                "\n"@,
            )
        }),
        ({
            let up = stats::elapsed(creation_time, now);
            tells(
                flat(known_overview_parts(creation_time, now, has_database, cache, listen_addr, s)),
                "  Cache Usage:  "@,
                numbers::bytes_text(cache.current_size() as int) + " / "@
                    + numbers::bytes_text(cache.max_size() as int) + " ("@ + cache.usage(),
                "%)\n"@,
            )
        }),
        ({
            let up = stats::elapsed(creation_time, now);
            tells(
                flat(known_overview_parts(creation_time, now, has_database, cache, listen_addr, s)),
                "  Listen:       "@,
                listen_addr,
                "\n"@,
            )
        }),
        ({
            let up = stats::elapsed(creation_time, now);
            tells(
                flat(known_overview_parts(creation_time, now, has_database, cache, listen_addr, s)),
                "  DHT Nodes:    "@,
                text::dec_signed(s.dht_nodes as int),
                "\n"@,
            )
        }),
{
    broadcast use {flat_of_one, flat_of_more, start_is_one};

    reveal(known_overview_parts);
    let up = stats::elapsed(creation_time, now);
    let parts = known_overview_parts(creation_time, now, has_database, cache, listen_addr, s);
    range_is_told(
        parts,
        1,
        start(text::dec(up / 3600))
            .push("h "@)
            .push(text::dec((up % 3600) / 60))
            .push("m "@)
            .push(text::dec(up % 60)),
    );
    range_is_told(parts, 9, start((if has_database { "(active)"@ } else { "(none)"@ })));
    range_is_told(parts, 12, start(cache.place()));
    range_is_told(
        parts,
        15,
        start(numbers::bytes_text(cache.current_size() as int))
            .push(" / "@)
            .push(numbers::bytes_text(cache.max_size() as int))
            .push(" ("@)
            .push(cache.usage()),
    );
    range_is_told(parts, 22, start(listen_addr));
    range_is_told(parts, 25, start(text::dec_signed(s.dht_nodes as int)));
}

#[verifier::opaque]
spec fn unknown_overview_parts(
    creation_time: u64,
    now: u64,
    has_database: bool,
    cache: CacheState,
    listen_addr: Seq<char>,
) -> Seq<Seq<char>> {
    let up = stats::elapsed(creation_time, now);
    start("-- Overview --\n"@)
        .push("  Uptime:       "@)
        .push(text::dec(up / 3600))
        .push("h "@)
        .push(text::dec((up % 3600) / 60))
        .push("m "@)
        .push(text::dec(up % 60))
        .push("s\n"@)
        .push("  Mount:        (dynamic)\n"@)
        .push("  Database:     "@)
        .push((if has_database { "(active)"@ } else { "(none)"@ }))
        .push("\n"@)
        .push("  Cache Dir:    "@)
        .push(cache.place())
        .push("\n"@)
        .push("  Cache Usage:  "@)
        .push(numbers::bytes_text(cache.current_size() as int))
        .push(" / "@)
        .push(numbers::bytes_text(cache.max_size() as int))
        .push(" ("@)
        .push(cache.usage())
        .push("%)\n"@)
        .push("  Listen:       (not available)\n"@)
        .push("  DHT Nodes:    —\n"@)
}

proof fn unknown_overview_append(
    out: Seq<char>,
    creation_time: u64,
    now: u64,
    has_database: bool,
    cache: CacheState,
    listen_addr: Seq<char>,
)
    ensures
        stats::overview(out, creation_time, now, has_database, None, cache, listen_addr)
            == out
                + flat(
                    unknown_overview_parts(creation_time, now, has_database, cache, listen_addr),
                ),
{
    broadcast use {onto_one, onto_more, start_is_one};

    reveal(unknown_overview_parts);
    let parts = unknown_overview_parts(creation_time, now, has_database, cache, listen_addr);
    assert(
        onto(out, parts)
            == stats::overview(out, creation_time, now, has_database, None, cache, listen_addr)
    );
    onto_is_flat(out, parts);
}

proof fn unknown_overview_tell(
    creation_time: u64,
    now: u64,
    has_database: bool,
    cache: CacheState,
    listen_addr: Seq<char>,
)
    ensures
        ({
            let up = stats::elapsed(creation_time, now);
            tells(
                flat(unknown_overview_parts(creation_time, now, has_database, cache, listen_addr)),
                "  Uptime:       "@,
                text::dec(up / 3600) + "h "@ + text::dec((up % 3600) / 60) + "m "@
                    + text::dec(up % 60),
                "s\n"@,
            )
        }),
        ({
            let up = stats::elapsed(creation_time, now);
            tells(
                flat(unknown_overview_parts(creation_time, now, has_database, cache, listen_addr)),
                "  Database:     "@,
                (if has_database { "(active)"@ } else { "(none)"@ }),
                "\n"@,
            )
        }),
        ({
            let up = stats::elapsed(creation_time, now);
            tells(
                flat(unknown_overview_parts(creation_time, now, has_database, cache, listen_addr)),
                "  Cache Dir:    "@,
                cache.place(),
                "\n"@,
            )
        }),
        ({
            let up = stats::elapsed(creation_time, now);
            tells(
                flat(unknown_overview_parts(creation_time, now, has_database, cache, listen_addr)),
                "  Cache Usage:  "@,
                numbers::bytes_text(cache.current_size() as int) + " / "@
                    + numbers::bytes_text(cache.max_size() as int) + " ("@ + cache.usage(),
                "%)\n"@,
            )
        }),
{
    broadcast use {flat_of_one, flat_of_more, start_is_one};

    reveal(unknown_overview_parts);
    let up = stats::elapsed(creation_time, now);
    let parts = unknown_overview_parts(creation_time, now, has_database, cache, listen_addr);
    range_is_told(
        parts,
        1,
        start(text::dec(up / 3600))
            .push("h "@)
            .push(text::dec((up % 3600) / 60))
            .push("m "@)
            .push(text::dec(up % 60)),
    );
    range_is_told(parts, 9, start((if has_database { "(active)"@ } else { "(none)"@ })));
    range_is_told(parts, 12, start(cache.place()));
    range_is_told(
        parts,
        15,
        start(numbers::bytes_text(cache.current_size() as int))
            .push(" / "@)
            .push(numbers::bytes_text(cache.max_size() as int))
            .push(" ("@)
            .push(cache.usage()),
    );
}

#[verifier::opaque]
spec fn rates_parts(s: SessionStats) -> Seq<Seq<char>> {
    start("\n-- Global Rates --\n"@)
        .push("  Download Rate:  "@)
        .push(numbers::bytes_text(s.download_rate as int))
        .push("/s\n"@)
        .push("  Upload Rate:    "@)
        .push(numbers::bytes_text(s.upload_rate as int))
        .push("/s\n"@)
        .push("  Total DL:       "@)
        .push(numbers::bytes_text(s.total_downloaded as int))
        .push("\n"@)
        .push("  Total UL:       "@)
        .push(numbers::bytes_text(s.total_uploaded as int))
        .push("\n"@)
}

proof fn rates_append(out: Seq<char>, s: SessionStats)
    requires
        s.download_rate >= 0,
        s.upload_rate >= 0,
        s.total_downloaded >= 0,
        s.total_uploaded >= 0,
    ensures
        stats::global_rates(out, Some(s)) == out + flat(rates_parts(s)),
{
    broadcast use {onto_one, onto_more, start_is_one};

    reveal(rates_parts);
    let parts = rates_parts(s);
    assert(onto(out, parts) == stats::global_rates(out, Some(s)));
    onto_is_flat(out, parts);
}

proof fn rates_tell(s: SessionStats)
    ensures
        tells(
            flat(rates_parts(s)),
            "  Download Rate:  "@,
            numbers::bytes_text(s.download_rate as int),
            "/s\n"@,
        ),
        tells(
            flat(rates_parts(s)),
            "  Upload Rate:    "@,
            numbers::bytes_text(s.upload_rate as int),
            "/s\n"@,
        ),
        tells(
            flat(rates_parts(s)),
            "  Total DL:       "@,
            numbers::bytes_text(s.total_downloaded as int),
            "\n"@,
        ),
        tells(
            flat(rates_parts(s)),
            "  Total UL:       "@,
            numbers::bytes_text(s.total_uploaded as int),
            "\n"@,
        ),
{
    broadcast use {flat_of_one, flat_of_more, start_is_one};

    reveal(rates_parts);
    let parts = rates_parts(s);
    range_is_told(parts, 1, start(numbers::bytes_text(s.download_rate as int)));
    range_is_told(parts, 4, start(numbers::bytes_text(s.upload_rate as int)));
    range_is_told(parts, 7, start(numbers::bytes_text(s.total_downloaded as int)));
    range_is_told(parts, 10, start(numbers::bytes_text(s.total_uploaded as int)));
}

#[verifier::opaque]
spec fn unknown_rates_parts() -> Seq<Seq<char>> {
    start("\n-- Global Rates --\n"@)
        .push("  Download Rate:  —\n"@)
        .push("  Upload Rate:    —\n"@)
        .push("  Total DL:       —\n"@)
        .push("  Total UL:       —\n"@)
}

proof fn unknown_rates_append(out: Seq<char>)
    ensures
        stats::global_rates(out, None) == out + flat(unknown_rates_parts()),
{
    broadcast use {onto_one, onto_more, start_is_one};

    reveal(unknown_rates_parts);
    let parts = unknown_rates_parts();
    assert(onto(out, parts) == stats::global_rates(out, None));
    onto_is_flat(out, parts);
}

proof fn unknown_rates_tell()
    ensures
        tells(
            flat(unknown_rates_parts()),
            "\n-- Global Rates --\n"@,
            "  Download Rate:  —\n"@ + "  Upload Rate:    —\n"@ + "  Total DL:       —\n"@,
            "  Total UL:       —\n"@,
        ),
{
    broadcast use {flat_of_one, flat_of_more, start_is_one};

    reveal(unknown_rates_parts);
    let parts = unknown_rates_parts();
    range_is_told(
        parts,
        0,
        start("  Download Rate:  —\n"@)
            .push("  Upload Rate:    —\n"@)
            .push("  Total DL:       —\n"@),
    );
}

#[verifier::opaque]
spec fn connections_parts(s: SessionStats) -> Seq<Seq<char>> {
    start("\n-- Connections --\n"@)
        .push("  Connected:      "@)
        .push(text::dec_signed(s.peers_connected as int))
        .push("\n"@)
        .push("  Half-open:      "@)
        .push(text::dec_signed(s.half_open_connections as int))
        .push("\n"@)
        .push("  Total Attempts: —\n"@)
}

proof fn connections_append(out: Seq<char>, s: SessionStats)
    ensures
        stats::connections(out, Some(s)) == out + flat(connections_parts(s)),
{
    broadcast use {onto_one, onto_more, start_is_one};

    reveal(connections_parts);
    let parts = connections_parts(s);
    assert(onto(out, parts) == stats::connections(out, Some(s)));
    onto_is_flat(out, parts);
}

proof fn connections_tell(s: SessionStats)
    ensures
        tells(
            flat(connections_parts(s)),
            "  Connected:      "@,
            text::dec_signed(s.peers_connected as int),
            "\n"@,
        ),
        tells(
            flat(connections_parts(s)),
            "  Half-open:      "@,
            text::dec_signed(s.half_open_connections as int),
            "\n"@,
        ),
{
    broadcast use {flat_of_one, flat_of_more, start_is_one};

    reveal(connections_parts);
    let parts = connections_parts(s);
    range_is_told(parts, 1, start(text::dec_signed(s.peers_connected as int)));
    range_is_told(parts, 4, start(text::dec_signed(s.half_open_connections as int)));
}

#[verifier::opaque]
spec fn unknown_connections_parts() -> Seq<Seq<char>> {
    start("\n-- Connections --\n"@)
        .push("  Connected:      —\n"@)
        .push("  Half-open:      —\n"@)
        .push("  Total Attempts: —\n"@)
}

proof fn unknown_connections_append(out: Seq<char>)
    ensures
        stats::connections(out, None) == out + flat(unknown_connections_parts()),
{
    broadcast use {onto_one, onto_more, start_is_one};

    reveal(unknown_connections_parts);
    let parts = unknown_connections_parts();
    assert(onto(out, parts) == stats::connections(out, None));
    onto_is_flat(out, parts);
}

proof fn unknown_connections_tell()
    ensures
        tells(
            flat(unknown_connections_parts()),
            "\n-- Connections --\n"@,
            "  Connected:      —\n"@ + "  Half-open:      —\n"@,
            "  Total Attempts: —\n"@,
        ),
{
    broadcast use {flat_of_one, flat_of_more, start_is_one};

    reveal(unknown_connections_parts);
    let parts = unknown_connections_parts();
    range_is_told(parts, 0, start("  Connected:      —\n"@).push("  Half-open:      —\n"@));
}

#[verifier::opaque]
spec fn counts_parts(c: TorrentCounts) -> Seq<Seq<char>> {
    start("\n-- Torrents --\n"@)
        .push("  Total: "@)
        .push(text::dec_signed(c.total as int))
        .push("  Unique: "@)
        .push(text::dec_signed(c.unique as int))
        .push("  Pending: "@)
        .push(text::dec_signed(c.pending as int))
        .push("  Downloading: "@)
        .push(text::dec_signed(c.downloading as int))
        .push("  Seeding: "@)
        .push(text::dec_signed(c.seeding as int))
        .push("  Error: "@)
        .push(text::dec_signed(c.error as int))
        .push("\n"@)
}

proof fn counts_append(out: Seq<char>, c: TorrentCounts)
    ensures
        stats::torrent_overview(out, c) == out + flat(counts_parts(c)),
{
    broadcast use {onto_one, onto_more, start_is_one};

    reveal(counts_parts);
    let parts = counts_parts(c);
    assert(onto(out, parts) == stats::torrent_overview(out, c));
    onto_is_flat(out, parts);
}

proof fn counts_tell(c: TorrentCounts)
    ensures
        tells(
            flat(counts_parts(c)),
            "  Total: "@,
            text::dec_signed(c.total as int) + "  Unique: "@ + text::dec_signed(c.unique as int)
                + "  Pending: "@ + text::dec_signed(c.pending as int) + "  Downloading: "@
                + text::dec_signed(c.downloading as int) + "  Seeding: "@
                + text::dec_signed(c.seeding as int) + "  Error: "@
                + text::dec_signed(c.error as int),
            "\n"@,
        ),
{
    broadcast use {flat_of_one, flat_of_more, start_is_one};

    reveal(counts_parts);
    let parts = counts_parts(c);
    range_is_told(
        parts,
        1,
        start(text::dec_signed(c.total as int))
            .push("  Unique: "@)
            .push(text::dec_signed(c.unique as int))
            .push("  Pending: "@)
            .push(text::dec_signed(c.pending as int))
            .push("  Downloading: "@)
            .push(text::dec_signed(c.downloading as int))
            .push("  Seeding: "@)
            .push(text::dec_signed(c.seeding as int))
            .push("  Error: "@)
            .push(text::dec_signed(c.error as int)),
    );
}

#[verifier::opaque]
spec fn summary_parts(cache: CacheState) -> Seq<Seq<char>> {
    start("\n-- Cache --\n"@)
        .push("  Hits: "@)
        .push(numbers::num_text(cache.hits() as int))
        .push("  Misses: "@)
        .push(numbers::num_text(cache.misses() as int))
        .push("  Hit Rate: "@)
        .push(cache.hit_rate())
        .push("%  Evictions: 0\n"@)
}

proof fn summary_append(out: Seq<char>, cache: CacheState)
    ensures
        stats::cache_summary(out, cache) == out + flat(summary_parts(cache)),
{
    broadcast use {onto_one, onto_more, start_is_one};

    reveal(summary_parts);
    let parts = summary_parts(cache);
    assert(onto(out, parts) == stats::cache_summary(out, cache));
    onto_is_flat(out, parts);
}

proof fn summary_tell(cache: CacheState)
    ensures
        tells(
            flat(summary_parts(cache)),
            "  Hits: "@,
            numbers::num_text(cache.hits() as int) + "  Misses: "@
                + numbers::num_text(cache.misses() as int) + "  Hit Rate: "@ + cache.hit_rate(),
            "%  Evictions: 0\n"@,
        ),
{
    broadcast use {flat_of_one, flat_of_more, start_is_one};

    reveal(summary_parts);
    let parts = summary_parts(cache);
    range_is_told(
        parts,
        1,
        start(numbers::num_text(cache.hits() as int))
            .push("  Misses: "@)
            .push(numbers::num_text(cache.misses() as int))
            .push("  Hit Rate: "@)
            .push(cache.hit_rate()),
    );
}

#[verifier::opaque]
spec fn performance_parts() -> Seq<Seq<char>> {
    start("\n-- Performance --\n"@)
        .push("  Tick Interval:  1000 ms\n"@)
        .push("  Memory (RSS):   —\n"@)
}

proof fn performance_append(out: Seq<char>)
    ensures
        stats::performance(out) == out + flat(performance_parts()),
{
    broadcast use {onto_one, onto_more, start_is_one};

    reveal(performance_parts);
    let parts = performance_parts();
    assert(onto(out, parts) == stats::performance(out));
    onto_is_flat(out, parts);
}

#[verifier::opaque]
spec fn lookups_parts(m: MetricsSnapshot) -> Seq<Seq<char>> {
    start("\n-- Observability --\n"@)
        .push("  Cache L1 (memory):   hits "@)
        .push(numbers::num_text(m.l1_hits as int))
        .push("  misses "@)
        .push(numbers::num_text(m.l1_misses as int))
        .push("  hit rate "@)
        .push(stats::hit_rate_text(m.l1_hits, m.l1_misses))
        .push("%\n"@)
        .push("  Cache L2 (disk):     hits "@)
        .push(numbers::num_text(m.l2_hits as int))
        .push("  misses "@)
        .push(numbers::num_text(m.l2_misses as int))
        .push("  hit rate "@)
        .push(stats::hit_rate_text(m.l2_hits, m.l2_misses))
        .push("%\n"@)
        .push("  Cache L3 (metadata): hits "@)
        .push(numbers::num_text(m.l3_hits as int))
        .push("  misses "@)
        .push(numbers::num_text(m.l3_misses as int))
        .push("  hit rate "@)
        .push(stats::hit_rate_text(m.l3_hits, m.l3_misses))
        .push("%\n"@)
}

proof fn lookups_append(out: Seq<char>, m: MetricsSnapshot)
    ensures
        lookup_lines(out, m) == out + flat(lookups_parts(m)),
{
    broadcast use {onto_one, onto_more, start_is_one};

    reveal(lookups_parts);
    let parts = lookups_parts(m);
    assert(onto(out, parts) == lookup_lines(out, m));
    onto_is_flat(out, parts);
}

proof fn lookups_tell(m: MetricsSnapshot)
    ensures
        tells(
            flat(lookups_parts(m)),
            "  Cache L1 (memory):   hits "@,
            numbers::num_text(m.l1_hits as int) + "  misses "@
                + numbers::num_text(m.l1_misses as int) + "  hit rate "@
                + stats::hit_rate_text(m.l1_hits, m.l1_misses),
            "%\n"@,
        ),
        tells(
            flat(lookups_parts(m)),
            "  Cache L2 (disk):     hits "@,
            numbers::num_text(m.l2_hits as int) + "  misses "@
                + numbers::num_text(m.l2_misses as int) + "  hit rate "@
                + stats::hit_rate_text(m.l2_hits, m.l2_misses),
            "%\n"@,
        ),
        tells(
            flat(lookups_parts(m)),
            "  Cache L3 (metadata): hits "@,
            numbers::num_text(m.l3_hits as int) + "  misses "@
                + numbers::num_text(m.l3_misses as int) + "  hit rate "@
                + stats::hit_rate_text(m.l3_hits, m.l3_misses),
            "%\n"@,
        ),
{
    broadcast use {flat_of_one, flat_of_more, start_is_one};

    reveal(lookups_parts);
    let parts = lookups_parts(m);
    range_is_told(
        parts,
        1,
        start(numbers::num_text(m.l1_hits as int))
            .push("  misses "@)
            .push(numbers::num_text(m.l1_misses as int))
            .push("  hit rate "@)
            .push(stats::hit_rate_text(m.l1_hits, m.l1_misses)),
    );
    range_is_told(
        parts,
        8,
        start(numbers::num_text(m.l2_hits as int))
            .push("  misses "@)
            .push(numbers::num_text(m.l2_misses as int))
            .push("  hit rate "@)
            .push(stats::hit_rate_text(m.l2_hits, m.l2_misses)),
    );
    range_is_told(
        parts,
        15,
        start(numbers::num_text(m.l3_hits as int))
            .push("  misses "@)
            .push(numbers::num_text(m.l3_misses as int))
            .push("  hit rate "@)
            .push(stats::hit_rate_text(m.l3_hits, m.l3_misses)),
    );
}

#[verifier::opaque]
spec fn work_parts(m: MetricsSnapshot) -> Seq<Seq<char>> {
    start("  Deferred reads:      "@)
        .push(numbers::num_text(m.deferred_reads as int))
        .push("  Pending: "@)
        .push(numbers::num_text(m.pending_reads_current as int))
        .push(" current / "@)
        .push(numbers::num_text(m.pending_reads_peak as int))
        .push(" peak\n"@)
        .push("  Poll hit rate:       hits "@)
        .push(numbers::num_text(m.poll_hits as int))
        .push(" / checks "@)
        .push(numbers::num_text(m.poll_checks as int))
        .push(" ("@)
        .push(stats::hit_rate_text(m.poll_hits, m.poll_checks))
        .push("%)\n"@)
        .push("  Download queue:      "@)
        .push(numbers::num_text(m.download_queue_current as int))
        .push(" current / "@)
        .push(numbers::num_text(m.download_queue_peak as int))
        .push(" peak\n"@)
        .push("  Workers:             "@)
        .push(numbers::num_text(m.workers_active as int))
        .push(" active / "@)
        .push(numbers::num_text(m.workers_peak as int))
        .push(" peak\n"@)
        .push("  Lock wait:           "@)
        .push(numbers::num_text(m.lock_acquires as int))
        .push(" acquisitions, avg "@)
        .push(numbers::num_text(stats::average_wait(m.lock_wait_nanos, m.lock_acquires)))
        .push(" µs (total "@)
        .push(text::dec(m.lock_wait_nanos as int / 1_000_000))
        .push(" ms)\n"@)
}

proof fn work_append(out: Seq<char>, m: MetricsSnapshot)
    ensures
        work_lines(out, m) == out + flat(work_parts(m)),
{
    broadcast use {onto_one, onto_more, start_is_one};

    reveal(work_parts);
    let parts = work_parts(m);
    assert(onto(out, parts) == work_lines(out, m));
    onto_is_flat(out, parts);
}

proof fn work_tell(m: MetricsSnapshot)
    ensures
        tells(
            flat(work_parts(m)),
            "  Deferred reads:      "@,
            numbers::num_text(m.deferred_reads as int) + "  Pending: "@
                + numbers::num_text(m.pending_reads_current as int) + " current / "@
                + numbers::num_text(m.pending_reads_peak as int),
            " peak\n"@,
        ),
        tells(
            flat(work_parts(m)),
            "  Poll hit rate:       hits "@,
            numbers::num_text(m.poll_hits as int) + " / checks "@
                + numbers::num_text(m.poll_checks as int) + " ("@
                + stats::hit_rate_text(m.poll_hits, m.poll_checks),
            "%)\n"@,
        ),
        tells(
            flat(work_parts(m)),
            "  Download queue:      "@,
            numbers::num_text(m.download_queue_current as int) + " current / "@
                + numbers::num_text(m.download_queue_peak as int),
            " peak\n"@,
        ),
        tells(
            flat(work_parts(m)),
            "  Workers:             "@,
            numbers::num_text(m.workers_active as int) + " active / "@
                + numbers::num_text(m.workers_peak as int),
            " peak\n"@,
        ),
        tells(
            flat(work_parts(m)),
            "  Lock wait:           "@,
            numbers::num_text(m.lock_acquires as int) + " acquisitions, avg "@
                + numbers::num_text(stats::average_wait(m.lock_wait_nanos, m.lock_acquires))
                + " µs (total "@ + text::dec(m.lock_wait_nanos as int / 1_000_000),
            " ms)\n"@,
        ),
{
    broadcast use {flat_of_one, flat_of_more, start_is_one};

    reveal(work_parts);
    let parts = work_parts(m);
    range_is_told(
        parts,
        0,
        start(numbers::num_text(m.deferred_reads as int))
            .push("  Pending: "@)
            .push(numbers::num_text(m.pending_reads_current as int))
            .push(" current / "@)
            .push(numbers::num_text(m.pending_reads_peak as int)),
    );
    range_is_told(
        parts,
        7,
        start(numbers::num_text(m.poll_hits as int))
            .push(" / checks "@)
            .push(numbers::num_text(m.poll_checks as int))
            .push(" ("@)
            .push(stats::hit_rate_text(m.poll_hits, m.poll_checks)),
    );
    range_is_told(
        parts,
        14,
        start(numbers::num_text(m.download_queue_current as int))
            .push(" current / "@)
            .push(numbers::num_text(m.download_queue_peak as int)),
    );
    range_is_told(
        parts,
        19,
        start(numbers::num_text(m.workers_active as int))
            .push(" active / "@)
            .push(numbers::num_text(m.workers_peak as int)),
    );
    range_is_told(
        parts,
        24,
        start(numbers::num_text(m.lock_acquires as int))
            .push(" acquisitions, avg "@)
            .push(numbers::num_text(stats::average_wait(m.lock_wait_nanos, m.lock_acquires)))
            .push(" µs (total "@)
            .push(text::dec(m.lock_wait_nanos as int / 1_000_000)),
    );
}

spec fn overview_of(g: GlobalFigures) -> Seq<char> {
    match g.session {
        Some(s) => flat(
            known_overview_parts(
                g.creation_time,
                g.now,
                g.has_database,
                g.cache,
                g.listen_addr@,
                s,
            ),
        ),
        None => flat(
            unknown_overview_parts(
                g.creation_time,
                g.now,
                g.has_database,
                g.cache,
                g.listen_addr@,
            ),
        ),
    }
}

spec fn rates_of(session: Option<SessionStats>) -> Seq<char> {
    match session {
        Some(s) => flat(rates_parts(s)),
        None => flat(unknown_rates_parts()),
    }
}

spec fn connections_of(session: Option<SessionStats>) -> Seq<char> {
    match session {
        Some(s) => flat(connections_parts(s)),
        None => flat(unknown_connections_parts()),
    }
}

/// The sections of the root's `.stats`.
spec fn global_parts(g: GlobalFigures, m: MetricsSnapshot) -> Seq<Seq<char>> {
    sections(
        stats::banner(Seq::empty(), None),
        overview_of(g),
        rates_of(g.session),
        connections_of(g.session),
        flat(counts_parts(g.counts)) + flat(summary_parts(g.cache)) + flat(performance_parts()),
        flat(lookups_parts(m)) + flat(work_parts(m)) + stats::footer(Seq::empty()),
    )
}

#[verifier::opaque]
spec fn sections(
    a: Seq<char>,
    b: Seq<char>,
    c: Seq<char>,
    d: Seq<char>,
    e: Seq<char>,
    f: Seq<char>,
) -> Seq<Seq<char>> {
    start(a).push(b).push(c).push(d).push(e).push(f)
}

proof fn of_sections(
    a: Seq<char>,
    b: Seq<char>,
    c: Seq<char>,
    d: Seq<char>,
    e: Seq<char>,
    f: Seq<char>,
)
    ensures
        flat(sections(a, b, c, d, e, f)) == a + b + c + d + e + f,
        sections(a, b, c, d, e, f).len() == 6,
        sections(a, b, c, d, e, f)[1] == b,
        sections(a, b, c, d, e, f)[2] == c,
        sections(a, b, c, d, e, f)[3] == d,
        sections(a, b, c, d, e, f)[4] == e,
        sections(a, b, c, d, e, f)[5] == f,
        forall|x: Seq<char>|
            #[trigger] sections(a, b, x, d, e, f) == sections(a, b, c, d, e, f).update(2, x),
{
    broadcast use {flat_of_one, flat_of_more, start_is_one};

    reveal(sections);
    assert forall|x: Seq<char>| #[trigger]
        sections(a, b, x, d, e, f) == sections(a, b, c, d, e, f).update(2, x) by {
        assert(sections(a, b, x, d, e, f) =~= sections(a, b, c, d, e, f).update(2, x));
    }
}

proof fn three_are_held(a: Seq<char>, b: Seq<char>, c: Seq<char>)
    ensures
        holds(a + b + c, a),
        holds(a + b + c, b),
        holds(a + b + c, c),
{
    reveal(holds);
    let none = Seq::<char>::empty();
    assert(a + b + c =~= none + a + (b + c));
    assert(a + b + c =~= (a + b) + c + none);
}

proof fn held_further(longest: Seq<char>, longer: Seq<char>, text: Seq<char>)
    requires
        holds(longest, longer),
        holds(longer, text),
    ensures
        holds(longest, text),
{
    reveal(holds);
    let (a, d) = choose|a: Seq<char>, d: Seq<char>| longest == #[trigger] (a + longer + d);
    let (b, c) = choose|b: Seq<char>, c: Seq<char>| longer == #[trigger] (b + text + c);
    assert(longest =~= (a + b) + text + (c + d));
}

proof fn appended_together(x: Seq<char>, a: Seq<char>, b: Seq<char>, c: Seq<char>)
    ensures
        x + a + b + c == x + (a + b + c),
{
    assert(x + a + b + c =~= x + (a + b + c));
}

proof fn session_sections(out: Seq<char>, g: GlobalFigures)
    requires
        g.session matches Some(s) ==> known_rates(s),
    ensures
        stats::overview(
            out,
            g.creation_time,
            g.now,
            g.has_database,
            g.session,
            g.cache,
            g.listen_addr@,
        ) == out + overview_of(g),
        forall|x: Seq<char>|
            #[trigger] stats::global_rates(x, g.session) == x + rates_of(g.session),
        forall|x: Seq<char>|
            #[trigger] stats::connections(x, g.session) == x + connections_of(g.session),
{
    let l = g.listen_addr@;
    match g.session {
        Some(s) => {
            known_overview_append(out, g.creation_time, g.now, g.has_database, g.cache, l, s);
            assert forall|x: Seq<char>|
                #[trigger] stats::global_rates(x, g.session) == x + rates_of(g.session) by {
                rates_append(x, s);
            }
            assert forall|x: Seq<char>|
                #[trigger] stats::connections(x, g.session) == x + connections_of(g.session) by {
                connections_append(x, s);
            }
        },
        None => {
            unknown_overview_append(out, g.creation_time, g.now, g.has_database, g.cache, l);
            assert forall|x: Seq<char>|
                #[trigger] stats::global_rates(x, g.session) == x + rates_of(g.session) by {
                unknown_rates_append(x);
            }
            assert forall|x: Seq<char>|
                #[trigger] stats::connections(x, g.session) == x + connections_of(g.session) by {
                unknown_connections_append(x);
            }
        },
    }
}

proof fn observability_appends(out: Seq<char>, m: MetricsSnapshot)
    ensures
        stats::observability(out, m) == out + flat(lookups_parts(m)) + flat(work_parts(m)),
{
    lookups_append(out, m);
    work_append(lookup_lines(out, m), m);
}

proof fn middle_appends(out: Seq<char>, c: TorrentCounts, cache: CacheState)
    ensures
        stats::performance(stats::cache_summary(stats::torrent_overview(out, c), cache)) == out + (
        flat(counts_parts(c)) + flat(summary_parts(cache)) + flat(performance_parts())),
{
    counts_append(out, c);
    let d = out + flat(counts_parts(c));
    summary_append(d, cache);
    performance_append(d + flat(summary_parts(cache)));
    appended_together(
        out,
        flat(counts_parts(c)),
        flat(summary_parts(cache)),
        flat(performance_parts()),
    );
}

proof fn footer_appends(out: Seq<char>)
    ensures
        stats::footer(out) == out + stats::footer(Seq::empty()),
{
    assert(stats::footer(out) =~= out + stats::footer(Seq::empty()));
}

proof fn end_appends(out: Seq<char>, m: MetricsSnapshot)
    ensures
        stats::footer(stats::observability(out, m)) == out + (flat(lookups_parts(m)) + flat(
            work_parts(m),
        ) + stats::footer(Seq::empty())),
{
    observability_appends(out, m);
    footer_appends(out + flat(lookups_parts(m)) + flat(work_parts(m)));
    appended_together(
        out,
        flat(lookups_parts(m)),
        flat(work_parts(m)),
        stats::footer(Seq::empty()),
    );
}

proof fn global_text(g: GlobalFigures, m: MetricsSnapshot)
    requires
        g.metrics == Some(m),
        g.session matches Some(s) ==> known_rates(s),
    ensures
        stats::global_stats(g) == flat(global_parts(g, m)),
{
    let a = stats::banner(Seq::empty(), None);
    session_sections(a, g);
    let c = a + overview_of(g) + rates_of(g.session) + connections_of(g.session);
    let e = flat(counts_parts(g.counts)) + flat(summary_parts(g.cache)) + flat(performance_parts());
    middle_appends(c, g.counts, g.cache);
    end_appends(c + e, m);
    of_sections(
        a,
        overview_of(g),
        rates_of(g.session),
        connections_of(g.session),
        e,
        flat(lookups_parts(m)) + flat(work_parts(m)) + stats::footer(Seq::empty()),
    );
}

proof fn sections_are_held(g: GlobalFigures, m: MetricsSnapshot)
    requires
        g.metrics == Some(m),
        g.session matches Some(s) ==> known_rates(s),
    ensures
        holds(stats::global_stats(g), overview_of(g)),
        holds(stats::global_stats(g), rates_of(g.session)),
        holds(stats::global_stats(g), connections_of(g.session)),
        holds(stats::global_stats(g), flat(counts_parts(g.counts))),
        holds(stats::global_stats(g), flat(summary_parts(g.cache))),
        holds(stats::global_stats(g), flat(lookups_parts(m))),
        holds(stats::global_stats(g), flat(work_parts(m))),
{
    let parts = global_parts(g, m);
    let t = stats::global_stats(g);
    let p = flat(counts_parts(g.counts));
    let q = flat(summary_parts(g.cache));
    let r = flat(performance_parts());
    let x = flat(lookups_parts(m));
    let y = flat(work_parts(m));
    let z = stats::footer(Seq::empty());
    global_text(g, m);
    of_sections(
        stats::banner(Seq::empty(), None),
        overview_of(g),
        rates_of(g.session),
        connections_of(g.session),
        p + q + r,
        x + y + z,
    );
    part_is_held(parts, 1);
    part_is_held(parts, 2);
    part_is_held(parts, 3);
    part_is_held(parts, 4);
    part_is_held(parts, 5);
    three_are_held(p, q, r);
    three_are_held(x, y, z);
    held_further(t, p + q + r, p);
    held_further(t, p + q + r, q);
    held_further(t, x + y + z, x);
    held_further(t, x + y + z, y);
}

/// The rates and totals of a session are no negative numbers.
pub open spec fn known_rates(s: SessionStats) -> bool {
    &&& s.download_rate >= 0
    &&& s.upload_rate >= 0
    &&& s.total_downloaded >= 0
    &&& s.total_uploaded >= 0
}

/// The lines on the lookups of the three caches: each tells its own hits and misses, and the share
/// of the hits.
pub open spec fn lookups_told(t: Seq<char>, m: MetricsSnapshot) -> bool {
    &&& tells(t, "  Cache L1 (memory):   hits "@, numbers::num_text(m.l1_hits as int)
        + "  misses "@ + numbers::num_text(m.l1_misses as int) + "  hit rate "@
        + shares::percent_text(m.l1_hits as int, m.l1_hits + m.l1_misses), "%\n"@)
    &&& tells(t, "  Cache L2 (disk):     hits "@, numbers::num_text(m.l2_hits as int)
        + "  misses "@ + numbers::num_text(m.l2_misses as int) + "  hit rate "@
        + shares::percent_text(m.l2_hits as int, m.l2_hits + m.l2_misses), "%\n"@)
    &&& tells(t, "  Cache L3 (metadata): hits "@, numbers::num_text(m.l3_hits as int)
        + "  misses "@ + numbers::num_text(m.l3_misses as int) + "  hit rate "@
        + shares::percent_text(m.l3_hits as int, m.l3_hits + m.l3_misses), "%\n"@)
}

/// The lines on reads, polls, the queue, the workers and the lock: each tells its own counters.
pub open spec fn work_told(t: Seq<char>, m: MetricsSnapshot) -> bool {
    &&& tells(t, "  Deferred reads:      "@, numbers::num_text(m.deferred_reads as int)
        + "  Pending: "@ + numbers::num_text(m.pending_reads_current as int) + " current / "@
        + numbers::num_text(m.pending_reads_peak as int), " peak\n"@)
    &&& tells(t, "  Poll hit rate:       hits "@, numbers::num_text(m.poll_hits as int)
        + " / checks "@ + numbers::num_text(m.poll_checks as int) + " ("@ + shares::percent_text(
        m.poll_hits as int,
        m.poll_hits + m.poll_checks,
    ), "%)\n"@)
    &&& tells(t, "  Download queue:      "@, numbers::num_text(m.download_queue_current as int)
        + " current / "@ + numbers::num_text(m.download_queue_peak as int), " peak\n"@)
    &&& tells(t, "  Workers:             "@, numbers::num_text(m.workers_active as int)
        + " active / "@ + numbers::num_text(m.workers_peak as int), " peak\n"@)
    &&& tells(t, "  Lock wait:           "@, numbers::num_text(m.lock_acquires as int)
        + " acquisitions, avg "@ + numbers::num_text(
        if m.lock_acquires == 0 {
            0
        } else {
            (m.lock_wait_nanos as int / m.lock_acquires as int) / 1000
        },
    ) + " µs (total "@ + text::dec(m.lock_wait_nanos as int / 1_000_000), " ms)\n"@)
}

proof fn overview_is_told(g: GlobalFigures, m: MetricsSnapshot)
    requires
        g.metrics == Some(m),
        g.session matches Some(s) ==> known_rates(s),
    ensures
        ({
            let t = stats::global_stats(g);
            let up = stats::elapsed(g.creation_time, g.now);
            &&& tells(
                t,
                "  Uptime:       "@,
                text::dec(up / 3600) + "h "@ + text::dec((up % 3600) / 60) + "m "@ + text::dec(
                    up % 60,
                ),
                "s\n"@,
            )
            &&& tells(t, "  Database:     "@, if g.has_database {
                "(active)"@
            } else {
                "(none)"@
            }, "\n"@)
            &&& tells(t, "  Cache Dir:    "@, g.cache.place(), "\n"@)
            &&& tells(t, "  Cache Usage:  "@, numbers::bytes_text(g.cache.current_size() as int)
                + " / "@ + numbers::bytes_text(g.cache.max_size() as int) + " ("@
                + g.cache.usage(), "%)\n"@)
        }),
{
    broadcast use told_in_longer;

    let l = g.listen_addr@;
    sections_are_held(g, m);
    match g.session {
        Some(s) => known_overview_tell(g.creation_time, g.now, g.has_database, g.cache, l, s),
        None => unknown_overview_tell(g.creation_time, g.now, g.has_database, g.cache, l),
    }
}

proof fn counters_are_told(g: GlobalFigures, m: MetricsSnapshot)
    requires
        g.metrics == Some(m),
        g.session matches Some(s) ==> known_rates(s),
    ensures
        ({
            let t = stats::global_stats(g);
            let c = g.counts;
            &&& tells(t, "  Total: "@, text::dec_signed(c.total as int) + "  Unique: "@
                + text::dec_signed(c.unique as int) + "  Pending: "@ + text::dec_signed(
                c.pending as int,
            ) + "  Downloading: "@ + text::dec_signed(c.downloading as int) + "  Seeding: "@
                + text::dec_signed(c.seeding as int) + "  Error: "@ + text::dec_signed(
                c.error as int,
            ), "\n"@)
            &&& tells(t, "  Hits: "@, numbers::num_text(g.cache.hits() as int) + "  Misses: "@
                + numbers::num_text(g.cache.misses() as int) + "  Hit Rate: "@
                + g.cache.hit_rate(), "%  Evictions: 0\n"@)
            &&& lookups_told(t, m)
            &&& work_told(t, m)
        }),
{
    broadcast use told_in_longer;

    sections_are_held(g, m);
    counts_tell(g.counts);
    summary_tell(g.cache);
    lookups_tell(m);
    work_tell(m);
}

/// The root's `.stats` tells each figure of the mount under its own label: the database, the cache,
/// the torrents, and every counter.
pub proof fn global_figures_are_told(g: GlobalFigures)
    requires
        g.metrics is Some,
        g.session matches Some(s) ==> known_rates(s),
    ensures
        ({
            let t = stats::global_stats(g);
            let m = g.metrics->0;
            let c = g.counts;
            let (used, limit, hits, misses) = match g.cache {
                CacheState::Known(f) => (
                    f.current_size as int,
                    f.max_size as int,
                    f.hits as int,
                    f.misses as int,
                ),
                _ => (0int, 0int, 0int, 0int),
            };
            &&& tells(t, "  Database:     "@, if g.has_database {
                "(active)"@
            } else {
                "(none)"@
            }, "\n"@)
            &&& tells(t, "  Cache Dir:    "@, match g.cache {
                CacheState::Known(_) => "(cache)"@,
                CacheState::Locked => "(locked)"@,
                CacheState::Absent => "(none)"@,
            }, "\n"@)
            &&& tells(t, "  Cache Usage:  "@, numbers::bytes_text(used) + " / "@
                + numbers::bytes_text(limit) + " ("@ + shares::percent_text(used, limit), "%)\n"@)
            &&& tells(t, "  Total: "@, text::dec_signed(c.total as int) + "  Unique: "@
                + text::dec_signed(c.unique as int) + "  Pending: "@ + text::dec_signed(
                c.pending as int,
            ) + "  Downloading: "@ + text::dec_signed(c.downloading as int) + "  Seeding: "@
                + text::dec_signed(c.seeding as int) + "  Error: "@ + text::dec_signed(
                c.error as int,
            ), "\n"@)
            &&& tells(t, "  Hits: "@, numbers::num_text(hits) + "  Misses: "@ + numbers::num_text(
                misses,
            ) + "  Hit Rate: "@ + shares::percent_text(hits, hits + misses), "%  Evictions: 0\n"@)
            &&& lookups_told(t, m)
            &&& work_told(t, m)
        }),
{
    overview_is_told(g, g.metrics->0);
    counters_are_told(g, g.metrics->0);
}

/// The root's `.stats` tells how long ago the mount was made, in hours, minutes and seconds.
pub proof fn uptime_is_told(g: GlobalFigures) -> (r: (int, int, int))
    requires
        g.metrics is Some,
        g.session matches Some(s) ==> known_rates(s),
    ensures
        3600 * r.0 + 60 * r.1 + r.2 == if g.now > g.creation_time {
            g.now - g.creation_time
        } else {
            0
        },
        r.0 >= 0,
        0 <= r.1 < 60,
        0 <= r.2 < 60,
        tells(
            stats::global_stats(g),
            "  Uptime:       "@,
            text::dec(r.0) + "h "@ + text::dec(r.1) + "m "@ + text::dec(r.2),
            "s\n"@,
        ),
{
    let up = stats::elapsed(g.creation_time, g.now);
    let r = hours_minutes_seconds(up);
    overview_is_told(g, g.metrics->0);
    r
}

proof fn hours_minutes_seconds(up: int) -> (r: (int, int, int))
    requires
        up >= 0,
    ensures
        r == (up / 3600, (up % 3600) / 60, up % 60),
        3600 * r.0 + 60 * r.1 + r.2 == up,
        r.0 >= 0,
        0 <= r.1 < 60,
        0 <= r.2 < 60,
{
    let rest = up % 3600;
    assert(up == 3600 * (up / 3600) + rest);
    assert(rest == 60 * (rest / 60) + rest % 60);
    assert(up % 60 == rest % 60);
    (up / 3600, rest / 60, up % 60)
}

/// The figures that the session reports stand for themselves in the root's `.stats`: the rates and
/// the totals, each of its own direction, the connections and the nodes.
pub proof fn session_figures_are_told(g: GlobalFigures, s: SessionStats)
    requires
        g.metrics is Some,
        g.session == Some(s),
        known_rates(s),
    ensures
        ({
            let t = stats::global_stats(g);
            &&& tells(
                t,
                "  Download Rate:  "@,
                numbers::bytes_text(s.download_rate as int),
                "/s\n"@,
            )
            &&& tells(t, "  Upload Rate:    "@, numbers::bytes_text(s.upload_rate as int), "/s\n"@)
            &&& tells(
                t,
                "  Total DL:       "@,
                numbers::bytes_text(s.total_downloaded as int),
                "\n"@,
            )
            &&& tells(t, "  Total UL:       "@, numbers::bytes_text(s.total_uploaded as int), "\n"@)
            &&& tells(t, "  Connected:      "@, text::dec_signed(s.peers_connected as int), "\n"@)
            &&& tells(
                t,
                "  Half-open:      "@,
                text::dec_signed(s.half_open_connections as int),
                "\n"@,
            )
            &&& tells(t, "  DHT Nodes:    "@, text::dec_signed(s.dht_nodes as int), "\n"@)
            &&& tells(t, "  Listen:       "@, g.listen_addr@, "\n"@)
        }),
{
    broadcast use told_in_longer;

    sections_are_held(g, g.metrics->0);
    known_overview_tell(
        g.creation_time,
        g.now,
        g.has_database,
        g.cache,
        g.listen_addr@,
        s,
    );
    rates_tell(s);
    connections_tell(s);
}

/// Without a session the root's `.stats` tells no figure of one.
pub proof fn missing_session_is_told(g: GlobalFigures)
    requires
        g.metrics is Some,
        g.session is None,
    ensures
        ({
            let t = stats::global_stats(g);
            &&& tells(t, "\n-- Global Rates --\n"@, "  Download Rate:  —\n"@
                + "  Upload Rate:    —\n"@ + "  Total DL:       —\n"@, "  Total UL:       —\n"@)
            &&& tells(t, "\n-- Connections --\n"@, "  Connected:      —\n"@
                + "  Half-open:      —\n"@, "  Total Attempts: —\n"@)
        }),
{
    broadcast use told_in_longer;

    sections_are_held(g, g.metrics->0);
    unknown_rates_tell();
    unknown_connections_tell();
}

proof fn same_but_rates(g: GlobalFigures, s: SessionStats, z: SessionStats)
    requires
        g.session == Some(s),
        z.dht_nodes == s.dht_nodes,
        z.peers_connected == s.peers_connected,
        z.half_open_connections == s.half_open_connections,
    ensures
        overview_of(GlobalFigures { session: Some(z), ..g }) == overview_of(g),
        connections_of(Some(z)) == connections_of(g.session),
{
    reveal(known_overview_parts);
    reveal(connections_parts);
}

proof fn changed_rates(
    g: GlobalFigures,
    h: GlobalFigures,
    s: SessionStats,
    z: SessionStats,
    label: Seq<char>,
    a: Seq<char>,
    b: Seq<char>,
    end: Seq<char>,
)
    requires
        g.metrics is Some,
        g.session == Some(s),
        h == (GlobalFigures { session: Some(z), ..g }),
        known_rates(s),
        known_rates(z),
        z.dht_nodes == s.dht_nodes,
        z.peers_connected == s.peers_connected,
        z.half_open_connections == s.half_open_connections,
        differ_only_at(flat(rates_parts(s)), flat(rates_parts(z)), label, a, b, end),
    ensures
        differ_only_at(stats::global_stats(g), stats::global_stats(h), label, a, b, end),
{
    let m = g.metrics->0;
    let parts = global_parts(g, m);
    global_text(g, m);
    global_text(h, m);
    same_but_rates(g, s, z);
    of_sections(
        stats::banner(Seq::empty(), None),
        overview_of(g),
        rates_of(g.session),
        connections_of(g.session),
        flat(counts_parts(g.counts)) + flat(summary_parts(g.cache)) + flat(performance_parts()),
        flat(lookups_parts(m)) + flat(work_parts(m)) + stats::footer(Seq::empty()),
    );
    difference_in_part(parts, 2, rates_of(h.session), label, a, b, end);
}

/// Two mounts that differ only in the rate at which the session receives have `.stats` that differ
/// only in the line for it.
pub proof fn download_rate_stands_alone(g: GlobalFigures, h: GlobalFigures, s: SessionStats, n: i64)
    requires
        g.metrics is Some,
        g.session == Some(s),
        known_rates(s),
        n >= 0,
        h == (GlobalFigures { session: Some(SessionStats { download_rate: n, ..s }), ..g }),
    ensures
        differ_only_at(
            stats::global_stats(g),
            stats::global_stats(h),
            "  Download Rate:  "@,
            numbers::bytes_text(s.download_rate as int),
            numbers::bytes_text(n as int),
            "/s\n"@,
        ),
{
    broadcast use start_is_one;

    reveal(rates_parts);
    let z = SessionStats { download_rate: n, ..s };
    let value = numbers::bytes_text(n as int);
    assert(rates_parts(z) =~= rates_parts(s).update(2, value));
    changed_part_stands_alone(rates_parts(s), 2, value);
    changed_rates(
        g,
        h,
        s,
        z,
        "  Download Rate:  "@,
        numbers::bytes_text(s.download_rate as int),
        value,
        "/s\n"@,
    );
}

/// Two mounts that differ only in the rate at which the session sends have `.stats` that differ
/// only in the line for it.
pub proof fn upload_rate_stands_alone(g: GlobalFigures, h: GlobalFigures, s: SessionStats, n: i64)
    requires
        g.metrics is Some,
        g.session == Some(s),
        known_rates(s),
        n >= 0,
        h == (GlobalFigures { session: Some(SessionStats { upload_rate: n, ..s }), ..g }),
    ensures
        differ_only_at(
            stats::global_stats(g),
            stats::global_stats(h),
            "  Upload Rate:    "@,
            numbers::bytes_text(s.upload_rate as int),
            numbers::bytes_text(n as int),
            "/s\n"@,
        ),
{
    broadcast use start_is_one;

    reveal(rates_parts);
    let z = SessionStats { upload_rate: n, ..s };
    let value = numbers::bytes_text(n as int);
    assert(rates_parts(z) =~= rates_parts(s).update(5, value));
    changed_part_stands_alone(rates_parts(s), 5, value);
    changed_rates(
        g,
        h,
        s,
        z,
        "  Upload Rate:    "@,
        numbers::bytes_text(s.upload_rate as int),
        value,
        "/s\n"@,
    );
}

/// Two mounts that differ only in the number of bytes that were received have `.stats` that differ
/// only in the line for it.
pub proof fn total_downloaded_stands_alone(
    g: GlobalFigures,
    h: GlobalFigures,
    s: SessionStats,
    n: i64,
)
    requires
        g.metrics is Some,
        g.session == Some(s),
        known_rates(s),
        n >= 0,
        h == (GlobalFigures { session: Some(SessionStats { total_downloaded: n, ..s }), ..g }),
    ensures
        differ_only_at(
            stats::global_stats(g),
            stats::global_stats(h),
            "  Total DL:       "@,
            numbers::bytes_text(s.total_downloaded as int),
            numbers::bytes_text(n as int),
            "\n"@,
        ),
{
    broadcast use start_is_one;

    reveal(rates_parts);
    let z = SessionStats { total_downloaded: n, ..s };
    let value = numbers::bytes_text(n as int);
    assert(rates_parts(z) =~= rates_parts(s).update(8, value));
    changed_part_stands_alone(rates_parts(s), 8, value);
    changed_rates(
        g,
        h,
        s,
        z,
        "  Total DL:       "@,
        numbers::bytes_text(s.total_downloaded as int),
        value,
        "\n"@,
    );
}

/// Two mounts that differ only in the number of bytes that were sent have `.stats` that differ
/// only in the line for it.
pub proof fn total_uploaded_stands_alone(
    g: GlobalFigures,
    h: GlobalFigures,
    s: SessionStats,
    n: i64,
)
    requires
        g.metrics is Some,
        g.session == Some(s),
        known_rates(s),
        n >= 0,
        h == (GlobalFigures { session: Some(SessionStats { total_uploaded: n, ..s }), ..g }),
    ensures
        differ_only_at(
            stats::global_stats(g),
            stats::global_stats(h),
            "  Total UL:       "@,
            numbers::bytes_text(s.total_uploaded as int),
            numbers::bytes_text(n as int),
            "\n"@,
        ),
{
    broadcast use start_is_one;

    reveal(rates_parts);
    let z = SessionStats { total_uploaded: n, ..s };
    let value = numbers::bytes_text(n as int);
    assert(rates_parts(z) =~= rates_parts(s).update(11, value));
    changed_part_stands_alone(rates_parts(s), 11, value);
    changed_rates(
        g,
        h,
        s,
        z,
        "  Total UL:       "@,
        numbers::bytes_text(s.total_uploaded as int),
        value,
        "\n"@,
    );
}

/// What the session reports of a torrent are no negative numbers.
pub open spec fn known_activity(t: Torrent, a: TorrentActivity) -> bool {
    &&& t.total_size >= 0
    &&& a.total_upload >= 0
    &&& a.download_rate >= 0
    &&& a.upload_rate >= 0
}

spec fn head_lines(f: TorrentFigures, a: TorrentActivity) -> Seq<char> {
    Seq::<char>::empty() + "===== torrent: "@ + f.torrent.name@ + " =====\n\n"@ + "-- Status --\n"@
        + "  Name: "@ + f.torrent.name@ + "\n"@ + "  Status: "@
        + stats::status_english(f.torrent.status) + "  Progress: "@
        + stats::progress_text(a.total, f.pieces, f.progress@) + "%  Size: "@
        + numbers::bytes_text(f.torrent.total_size as int) + "\n"@ + "  DL: "@
        + numbers::bytes_text(a.total_done as int) + "  UL: "@
        + numbers::bytes_text(a.total_upload as int) + "  Ratio: "@
        + stats::share_text(a.total_upload, a.total_download) + "\n"@ + "\n-- Rates --\n"@
        + "  Rate: ↓ "@ + numbers::bytes_text(a.download_rate as int) + "/s  ↑ "@
        + numbers::bytes_text(a.upload_rate as int) + "/s\n"@ + "\n-- Peers --\n"@ + "  Peers: "@
        + text::dec_signed(a.num_peers as int) + "  Seeds: "@ + text::dec_signed(a.num_seeds as int)
        + "\n"@
}

spec fn grid_start(out: Seq<char>, r: PieceReport) -> Seq<char> {
    out + "\n-- Pieces ("@ + text::dec(r.pieces@.len() as int) + " pieces, "@
        + numbers::bytes_text(r.piece_length as int) + " each) --\n  "@
}

spec fn tail_lines(out: Seq<char>, t: Torrent) -> Seq<char> {
    out + "info_hash: "@ + t.info_hash@ + "\n"@ + "source_path: \""@ + t.source_path@ + "\"\n"@
}

#[verifier::opaque]
spec fn head_parts(f: TorrentFigures, a: TorrentActivity) -> Seq<Seq<char>> {
    start("===== torrent: "@)
        .push(f.torrent.name@)
        .push(" =====\n\n"@)
        .push("-- Status --\n"@)
        .push("  Name: "@)
        .push(f.torrent.name@)
        .push("\n"@)
        .push("  Status: "@)
        .push(stats::status_english(f.torrent.status))
        .push("  Progress: "@)
        .push(stats::progress_text(a.total, f.pieces, f.progress@))
        .push("%  Size: "@)
        .push(numbers::bytes_text(f.torrent.total_size as int))
        .push("\n"@)
        .push("  DL: "@)
        .push(numbers::bytes_text(a.total_done as int))
        .push("  UL: "@)
        .push(numbers::bytes_text(a.total_upload as int))
        .push("  Ratio: "@)
        .push(stats::share_text(a.total_upload, a.total_download))
        .push("\n"@)
        .push("\n-- Rates --\n"@)
        .push("  Rate: ↓ "@)
        .push(numbers::bytes_text(a.download_rate as int))
        .push("/s  ↑ "@)
        .push(numbers::bytes_text(a.upload_rate as int))
        .push("/s\n"@)
        .push("\n-- Peers --\n"@)
        .push("  Peers: "@)
        .push(text::dec_signed(a.num_peers as int))
        .push("  Seeds: "@)
        .push(text::dec_signed(a.num_seeds as int))
        .push("\n"@)
}

proof fn head_append(f: TorrentFigures, a: TorrentActivity)
    requires
        known_activity(f.torrent, a),
    ensures
        head_lines(f, a) == flat(head_parts(f, a)),
{
    broadcast use {onto_one, onto_more, start_is_one};

    reveal(head_parts);
    let parts = head_parts(f, a);
    let none = Seq::<char>::empty();
    assert(onto(none, parts) == head_lines(f, a));
    onto_is_flat(none, parts);
    assert(none + flat(parts) =~= flat(parts));
}

proof fn head_tell(f: TorrentFigures, a: TorrentActivity)
    ensures
        tells(flat(head_parts(f, a)), "===== torrent: "@, f.torrent.name@, " =====\n\n"@),
        tells(flat(head_parts(f, a)), "  Name: "@, f.torrent.name@, "\n"@),
        tells(
            flat(head_parts(f, a)),
            "  Status: "@,
            stats::status_english(f.torrent.status) + "  Progress: "@
                + stats::progress_text(a.total, f.pieces, f.progress@) + "%  Size: "@
                + numbers::bytes_text(f.torrent.total_size as int),
            "\n"@,
        ),
        tells(
            flat(head_parts(f, a)),
            "  DL: "@,
            numbers::bytes_text(a.total_done as int) + "  UL: "@
                + numbers::bytes_text(a.total_upload as int) + "  Ratio: "@
                + stats::share_text(a.total_upload, a.total_download),
            "\n"@,
        ),
        tells(
            flat(head_parts(f, a)),
            "  Rate: ↓ "@,
            numbers::bytes_text(a.download_rate as int) + "/s  ↑ "@
                + numbers::bytes_text(a.upload_rate as int),
            "/s\n"@,
        ),
        tells(
            flat(head_parts(f, a)),
            "  Peers: "@,
            text::dec_signed(a.num_peers as int) + "  Seeds: "@
                + text::dec_signed(a.num_seeds as int),
            "\n"@,
        ),
{
    broadcast use {flat_of_one, flat_of_more, start_is_one};

    reveal(head_parts);
    let parts = head_parts(f, a);
    range_is_told(parts, 0, start(f.torrent.name@));
    range_is_told(parts, 4, start(f.torrent.name@));
    range_is_told(
        parts,
        7,
        start(stats::status_english(f.torrent.status))
            .push("  Progress: "@)
            .push(stats::progress_text(a.total, f.pieces, f.progress@))
            .push("%  Size: "@)
            .push(numbers::bytes_text(f.torrent.total_size as int)),
    );
    range_is_told(
        parts,
        14,
        start(numbers::bytes_text(a.total_done as int))
            .push("  UL: "@)
            .push(numbers::bytes_text(a.total_upload as int))
            .push("  Ratio: "@)
            .push(stats::share_text(a.total_upload, a.total_download)),
    );
    range_is_told(
        parts,
        22,
        start(numbers::bytes_text(a.download_rate as int))
            .push("/s  ↑ "@)
            .push(numbers::bytes_text(a.upload_rate as int)),
    );
    range_is_told(
        parts,
        28,
        start(text::dec_signed(a.num_peers as int))
            .push("  Seeds: "@)
            .push(text::dec_signed(a.num_seeds as int)),
    );
}

#[verifier::opaque]
spec fn grid_head_parts(r: PieceReport) -> Seq<Seq<char>> {
    start("\n-- Pieces ("@)
        .push(text::dec(r.pieces@.len() as int))
        .push(" pieces, "@)
        .push(numbers::bytes_text(r.piece_length as int))
        .push(" each) --\n  "@)
}

proof fn grid_head_append(out: Seq<char>, r: PieceReport)
    ensures
        grid_start(out, r) == out + flat(grid_head_parts(r)),
{
    broadcast use {onto_one, onto_more, start_is_one};

    reveal(grid_head_parts);
    let parts = grid_head_parts(r);
    assert(onto(out, parts) == grid_start(out, r));
    onto_is_flat(out, parts);
}

proof fn grid_head_tell(r: PieceReport)
    ensures
        tells(
            flat(grid_head_parts(r)),
            "\n-- Pieces ("@,
            text::dec(r.pieces@.len() as int) + " pieces, "@
                + numbers::bytes_text(r.piece_length as int),
            " each) --\n  "@,
        ),
{
    broadcast use {flat_of_one, flat_of_more, start_is_one};

    reveal(grid_head_parts);
    let parts = grid_head_parts(r);
    range_is_told(
        parts,
        0,
        start(text::dec(r.pieces@.len() as int))
            .push(" pieces, "@)
            .push(numbers::bytes_text(r.piece_length as int)),
    );
}

#[verifier::opaque]
spec fn share_parts(c: CachedShare) -> Seq<Seq<char>> {
    start("Cache: "@)
        .push(text::dec(c.piece_count as int))
        .push(" pieces  "@)
        .push(numbers::bytes_text(c.total_size as int))
        .push("\n"@)
}

proof fn share_append(out: Seq<char>, c: CachedShare)
    ensures
        stats::cached_share(out, Some(c)) == out + flat(share_parts(c)),
{
    broadcast use {onto_one, onto_more, start_is_one};

    reveal(share_parts);
    let parts = share_parts(c);
    assert(onto(out, parts) == stats::cached_share(out, Some(c)));
    onto_is_flat(out, parts);
}

proof fn share_tell(c: CachedShare)
    ensures
        tells(
            flat(share_parts(c)),
            "Cache: "@,
            text::dec(c.piece_count as int) + " pieces  "@
                + numbers::bytes_text(c.total_size as int),
            "\n"@,
        ),
{
    broadcast use {flat_of_one, flat_of_more, start_is_one};

    reveal(share_parts);
    let parts = share_parts(c);
    range_is_told(
        parts,
        0,
        start(text::dec(c.piece_count as int))
            .push(" pieces  "@)
            .push(numbers::bytes_text(c.total_size as int)),
    );
}

#[verifier::opaque]
spec fn tail_parts(t: Torrent) -> Seq<Seq<char>> {
    start("info_hash: "@)
        .push(t.info_hash@)
        .push("\n"@)
        .push("source_path: \""@)
        .push(t.source_path@)
        .push("\"\n"@)
}

proof fn tail_append(out: Seq<char>, t: Torrent)
    ensures
        tail_lines(out, t) == out + flat(tail_parts(t)),
{
    broadcast use {onto_one, onto_more, start_is_one};

    reveal(tail_parts);
    let parts = tail_parts(t);
    assert(onto(out, parts) == tail_lines(out, t));
    onto_is_flat(out, parts);
}

proof fn tail_tell(t: Torrent)
    ensures
        tells(flat(tail_parts(t)), "info_hash: "@, t.info_hash@, "\n"@),
        tells(flat(tail_parts(t)), "source_path: \""@, t.source_path@, "\"\n"@),
{
    broadcast use {flat_of_one, flat_of_more, start_is_one};

    reveal(tail_parts);
    let parts = tail_parts(t);
    range_is_told(parts, 0, start(t.info_hash@));
    range_is_told(parts, 3, start(t.source_path@));
}

#[verifier::opaque]
spec fn sum_lines_parts(count: int, s: Sums) -> Seq<Seq<char>> {
    start("-- Rates --\n"@)
        .push("  Torrents: "@)
        .push(text::dec(count))
        .push("  Total Size: "@)
        .push(numbers::bytes_text(s.size))
        .push("  Downloaded: "@)
        .push(numbers::bytes_text(s.done))
        .push("\n"@)
        .push("  DL Rate: ↓ "@)
        .push(numbers::bytes_text(s.download_rate))
        .push("/s  UL Rate: ↑ "@)
        .push(numbers::bytes_text(s.upload_rate))
        .push("/s\n"@)
        .push("  Total UL: "@)
        .push(numbers::bytes_text(s.upload))
        .push("  Total DL: "@)
        .push(numbers::bytes_text(s.download))
        .push("\n"@)
        .push("\n-- Peers --\n"@)
        .push("  Peers: "@)
        .push(text::dec_signed(s.peers))
        .push("  Seeds: "@)
        .push(text::dec_signed(s.seeds))
        .push("\n"@)
}

proof fn sum_lines_append(out: Seq<char>, count: int, s: Sums)
    requires
        0 <= s.download_rate <= i64::MAX,
        0 <= s.upload_rate <= i64::MAX,
    ensures
        stats::directory_sums(out, count, s) == out + flat(sum_lines_parts(count, s)),
{
    broadcast use {onto_one, onto_more, start_is_one};

    reveal(sum_lines_parts);
    let parts = sum_lines_parts(count, s);
    assert(onto(out, parts) == stats::directory_sums(out, count, s));
    onto_is_flat(out, parts);
}

proof fn sum_lines_tell(count: int, s: Sums)
    ensures
        tells(
            flat(sum_lines_parts(count, s)),
            "  Torrents: "@,
            text::dec(count) + "  Total Size: "@ + numbers::bytes_text(s.size) + "  Downloaded: "@
                + numbers::bytes_text(s.done),
            "\n"@,
        ),
        tells(
            flat(sum_lines_parts(count, s)),
            "  DL Rate: ↓ "@,
            numbers::bytes_text(s.download_rate) + "/s  UL Rate: ↑ "@
                + numbers::bytes_text(s.upload_rate),
            "/s\n"@,
        ),
        tells(
            flat(sum_lines_parts(count, s)),
            "  Total UL: "@,
            numbers::bytes_text(s.upload) + "  Total DL: "@ + numbers::bytes_text(s.download),
            "\n"@,
        ),
        tells(
            flat(sum_lines_parts(count, s)),
            "  Peers: "@,
            text::dec_signed(s.peers) + "  Seeds: "@ + text::dec_signed(s.seeds),
            "\n"@,
        ),
{
    broadcast use {flat_of_one, flat_of_more, start_is_one};

    reveal(sum_lines_parts);
    let parts = sum_lines_parts(count, s);
    range_is_told(
        parts,
        1,
        start(text::dec(count))
            .push("  Total Size: "@)
            .push(numbers::bytes_text(s.size))
            .push("  Downloaded: "@)
            .push(numbers::bytes_text(s.done)),
    );
    range_is_told(
        parts,
        8,
        start(numbers::bytes_text(s.download_rate))
            .push("/s  UL Rate: ↑ "@)
            .push(numbers::bytes_text(s.upload_rate)),
    );
    range_is_told(
        parts,
        13,
        start(numbers::bytes_text(s.upload))
            .push("  Total DL: "@)
            .push(numbers::bytes_text(s.download)),
    );
    range_is_told(
        parts,
        19,
        start(text::dec_signed(s.peers)).push("  Seeds: "@).push(text::dec_signed(s.seeds)),
    );
}

#[verifier::opaque]
spec fn cache_lines_parts(c: CacheFigures) -> Seq<Seq<char>> {
    start("\n-- Cache --\n"@)
        .push("  Cache Usage: "@)
        .push(numbers::bytes_text(c.current_size as int))
        .push(" / "@)
        .push(numbers::bytes_text(c.max_size as int))
        .push(" ("@)
        .push(shares::percent_text(c.current_size as int, c.max_size as int))
        .push("%)\n"@)
        .push("  Hits: "@)
        .push(numbers::num_text(c.hits as int))
        .push("  Misses: "@)
        .push(numbers::num_text(c.misses as int))
        .push("  Hit Rate: "@)
        .push(shares::percent_text(c.hits as int, c.hits + c.misses))
        .push("%\n"@)
}

proof fn cache_lines_append(out: Seq<char>, c: CacheFigures)
    ensures
        stats::directory_cache(out, CacheState::Known(c)) == out + flat(cache_lines_parts(c)),
{
    broadcast use {onto_one, onto_more, start_is_one};

    reveal(cache_lines_parts);
    let parts = cache_lines_parts(c);
    assert(onto(out, parts) == stats::directory_cache(out, CacheState::Known(c)));
    onto_is_flat(out, parts);
}

proof fn cache_lines_tell(c: CacheFigures)
    ensures
        tells(
            flat(cache_lines_parts(c)),
            "  Cache Usage: "@,
            numbers::bytes_text(c.current_size as int) + " / "@
                + numbers::bytes_text(c.max_size as int) + " ("@
                + shares::percent_text(c.current_size as int, c.max_size as int),
            "%)\n"@,
        ),
        tells(
            flat(cache_lines_parts(c)),
            "  Hits: "@,
            numbers::num_text(c.hits as int) + "  Misses: "@ + numbers::num_text(c.misses as int)
                + "  Hit Rate: "@ + shares::percent_text(c.hits as int, c.hits + c.misses),
            "%\n"@,
        ),
{
    broadcast use {flat_of_one, flat_of_more, start_is_one};

    reveal(cache_lines_parts);
    let parts = cache_lines_parts(c);
    range_is_told(
        parts,
        1,
        start(numbers::bytes_text(c.current_size as int))
            .push(" / "@)
            .push(numbers::bytes_text(c.max_size as int))
            .push(" ("@)
            .push(shares::percent_text(c.current_size as int, c.max_size as int)),
    );
    range_is_told(
        parts,
        8,
        start(numbers::num_text(c.hits as int))
            .push("  Misses: "@)
            .push(numbers::num_text(c.misses as int))
            .push("  Hit Rate: "@)
            .push(shares::percent_text(c.hits as int, c.hits + c.misses)),
    );
}

#[verifier::opaque]
spec fn row_parts(number: int, row: DirectoryRow, a: TorrentActivity) -> Seq<Seq<char>> {
    start("  #"@)
        .push(stats::padded(text::dec(number), 3))
        .push(" "@)
        .push(stats::padded(stats::shown_name(row.torrent.name@), 40))
        .push(" "@)
        .push(stats::status_english(row.torrent.status))
        .push("  "@)
        .push(stats::indented(stats::progress_text(a.total, row.pieces, row.progress@), 5))
        .push("%  ↓ "@)
        .push(stats::padded(numbers::bytes_text(a.download_rate as int), 10))
        .push("/s  ↑ "@)
        .push(stats::padded(numbers::bytes_text(a.upload_rate as int), 10))
        .push("/s  "@)
        .push(stats::indented(text::dec_signed(a.num_peers as int), 3))
        .push("P/"@)
        .push(stats::padded(text::dec_signed(a.num_seeds as int), 3))
        .push("S\n"@)
}

proof fn row_append(out: Seq<char>, number: int, row: DirectoryRow, a: TorrentActivity)
    requires
        row.reported() == a,
        a.download_rate >= 0,
        a.upload_rate >= 0,
    ensures
        stats::row_line(out, number, row) == out + flat(row_parts(number, row, a)),
{
    broadcast use {onto_one, onto_more, start_is_one};

    reveal(row_parts);
    let parts = row_parts(number, row, a);
    assert(onto(out, parts) == stats::row_line(out, number, row));
    onto_is_flat(out, parts);
}

proof fn row_tell(number: int, row: DirectoryRow, a: TorrentActivity)
    ensures
        tells(
            flat(row_parts(number, row, a)),
            "  #"@,
            stats::padded(text::dec(number), 3) + " "@
                + stats::padded(stats::shown_name(row.torrent.name@), 40) + " "@
                + stats::status_english(row.torrent.status) + "  "@
                + stats::indented(stats::progress_text(a.total, row.pieces, row.progress@), 5)
                + "%  ↓ "@ + stats::padded(numbers::bytes_text(a.download_rate as int), 10)
                + "/s  ↑ "@ + stats::padded(numbers::bytes_text(a.upload_rate as int), 10) + "/s  "@
                + stats::indented(text::dec_signed(a.num_peers as int), 3) + "P/"@
                + stats::padded(text::dec_signed(a.num_seeds as int), 3),
            "S\n"@,
        ),
{
    broadcast use {flat_of_one, flat_of_more, start_is_one};

    reveal(row_parts);
    let parts = row_parts(number, row, a);
    range_is_told(
        parts,
        0,
        start(stats::padded(text::dec(number), 3))
            .push(" "@)
            .push(stats::padded(stats::shown_name(row.torrent.name@), 40))
            .push(" "@)
            .push(stats::status_english(row.torrent.status))
            .push("  "@)
            .push(stats::indented(stats::progress_text(a.total, row.pieces, row.progress@), 5))
            .push("%  ↓ "@)
            .push(stats::padded(numbers::bytes_text(a.download_rate as int), 10))
            .push("/s  ↑ "@)
            .push(stats::padded(numbers::bytes_text(a.upload_rate as int), 10))
            .push("/s  "@)
            .push(stats::indented(text::dec_signed(a.num_peers as int), 3))
            .push("P/"@)
            .push(stats::padded(text::dec_signed(a.num_seeds as int), 3)),
    );
}

proof fn two_are_held(a: Seq<char>, b: Seq<char>)
    ensures
        holds(a + b, a),
        holds(a + b, b),
        holds(a, a),
{
    reveal(holds);
    let none = Seq::<char>::empty();
    assert(a + b =~= none + a + b);
    assert(a + b =~= a + b + none);
    assert(a =~= none + a + none);
}

/// What a piece is shown as: whether it is in the cache and how often it was read, or else how much
/// it is wanted.
pub open spec fn mark_of(p: PieceStatus) -> Seq<char> {
    if p.is_cached && p.hit_count > 0 {
        "[X "@ + text::dec(p.hit_count as int) + "]"@
    } else if p.is_cached {
        "[x]"@
    } else if p.priority > 0 {
        "["@ + text::dec_signed(p.priority as int) + "]"@
    } else {
        "[]"@
    }
}

/// One mark for each piece, in the order of the pieces.
pub open spec fn marks(pieces: Seq<PieceStatus>) -> Seq<char>
    decreases pieces.len(),
{
    if pieces.len() == 0 {
        Seq::empty()
    } else {
        mark_of(pieces[0]) + marks(pieces.skip(1))
    }
}

proof fn marks_grow(pieces: Seq<PieceStatus>)
    requires
        pieces.len() > 0,
    ensures
        marks(pieces) == marks(pieces.drop_last()) + mark_of(pieces.last()),
    decreases pieces.len(),
{
    let rest = pieces.skip(1);
    if pieces.len() == 1 {
        assert(rest =~= Seq::empty());
        assert(pieces.drop_last() =~= Seq::empty());
        assert(mark_of(pieces[0]) + Seq::empty() =~= Seq::<char>::empty() + mark_of(pieces[0]));
    } else {
        marks_grow(rest);
        assert(rest.drop_last() =~= pieces.drop_last().skip(1));
        assert(rest.last() == pieces.last());
        assert(marks(pieces) =~= marks(pieces.drop_last()) + mark_of(pieces.last()));
    }
}

proof fn markers_append(out: Seq<char>, pieces: Seq<PieceStatus>)
    ensures
        stats::markers(out, pieces) == out + marks(pieces),
    decreases pieces.len(),
{
    if pieces.len() == 0 {
        assert(out + marks(pieces) =~= out);
    } else {
        markers_append(out, pieces.drop_last());
        marks_grow(pieces);
        let head = marks(pieces.drop_last());
        assert(out + head + mark_of(pieces.last()) =~= out + (head + mark_of(pieces.last())));
    }
}

/// The progress of a torrent is the share of its pieces that are in the cache; the session's own
/// word counts only where the pieces are not known.
pub open spec fn progress_of(
    total: u64,
    pieces: Option<PieceReport>,
    reported: Seq<char>,
) -> Seq<char> {
    if total == 0 {
        "0.0"@
    } else {
        match pieces {
            Some(r) => shares::percent_text(
                r.pieces@.filter(|p: PieceStatus| p.is_cached).len() as int,
                r.pieces@.len() as int,
            ),
            None => reported,
        }
    }
}

/// The English word for a status.
pub open spec fn word_for(status: TorrentStatus) -> Seq<char> {
    match status {
        TorrentStatus::Pending => "Pending"@,
        TorrentStatus::Downloading => "Downloading"@,
        TorrentStatus::Seeding => "Seeding"@,
        TorrentStatus::Error => "Error"@,
    }
}

proof fn torrent_sections(f: TorrentFigures, a: TorrentActivity)
    requires
        f.activity == Some(a),
        known_activity(f.torrent, a),
    ensures
        holds(stats::torrent_stats(f), flat(head_parts(f, a))),
        holds(stats::torrent_stats(f), flat(tail_parts(f.torrent))),
        f.cache matches Some(c) ==> holds(stats::torrent_stats(f), flat(share_parts(c))),
        f.pieces matches Some(r) ==> (r.pieces@.len() > 0 ==> holds(
            stats::torrent_stats(f),
            flat(grid_head_parts(r)) + marks(r.pieces@) + "\n"@,
        )),
{
    let t = stats::torrent_stats(f);
    let lines = head_lines(f, a);
    let h = stats::torrent_head(f);
    let z = stats::piece_grid(h, f.pieces);
    let y = stats::cached_share(z, f.cache);
    let x = tail_lines(y, f.torrent);
    head_append(f, a);
    two_are_held(
        lines,
        "  ⚠ Health: 0 peers / 0 seeds — tracker may be unreachable\n"@,
    );
    footer_appends(x);
    two_are_held(x, stats::footer(Seq::empty()));
    tail_append(y, f.torrent);
    two_are_held(y, flat(tail_parts(f.torrent)));
    held_further(t, x, y);
    held_further(t, x, flat(tail_parts(f.torrent)));
    match f.cache {
        Some(c) => {
            share_append(z, c);
            two_are_held(z, flat(share_parts(c)));
            held_further(t, y, z);
            held_further(t, y, flat(share_parts(c)));
        },
        None => {},
    }
    match f.pieces {
        Some(r) => {
            if r.pieces@.len() > 0 {
                let g = flat(grid_head_parts(r));
                grid_head_append(h, r);
                markers_append(h + g, r.pieces@);
                appended_together(h, g, marks(r.pieces@), "\n"@);
                two_are_held(h, g + marks(r.pieces@) + "\n"@);
                held_further(t, z, h);
                held_further(t, z, g + marks(r.pieces@) + "\n"@);
            }
        },
        None => {},
    }
    held_further(t, h, lines);
}

/// The `.stats` of a torrent tells its name, its status, its progress and size, what was received
/// and sent, its rates, its peers, its info hash and its source path, each under its own label.
pub proof fn torrent_figures_are_told(f: TorrentFigures, a: TorrentActivity)
    requires
        f.activity == Some(a),
        known_activity(f.torrent, a),
    ensures
        ({
            let t = stats::torrent_stats(f);
            &&& tells(t, "===== torrent: "@, f.torrent.name@, " =====\n\n"@)
            &&& tells(t, "  Name: "@, f.torrent.name@, "\n"@)
            &&& tells(t, "  Status: "@, word_for(f.torrent.status) + "  Progress: "@
                + progress_of(a.total, f.pieces, f.progress@) + "%  Size: "@ + numbers::bytes_text(
                f.torrent.total_size as int,
            ), "\n"@)
            &&& tells(t, "  DL: "@, numbers::bytes_text(a.total_done as int) + "  UL: "@
                + numbers::bytes_text(a.total_upload as int) + "  Ratio: "@ + (if a.total_download
                > 0 {
                shares::ratio_text(a.total_upload as int, a.total_download as int)
            } else {
                "—"@
            }), "\n"@)
            &&& tells(t, "  Rate: ↓ "@, numbers::bytes_text(a.download_rate as int) + "/s  ↑ "@
                + numbers::bytes_text(a.upload_rate as int), "/s\n"@)
            &&& tells(t, "  Peers: "@, text::dec_signed(a.num_peers as int) + "  Seeds: "@
                + text::dec_signed(a.num_seeds as int), "\n"@)
            &&& tells(t, "info_hash: "@, f.torrent.info_hash@, "\n"@)
            &&& tells(t, "source_path: \""@, f.torrent.source_path@, "\"\n"@)
        }),
{
    broadcast use told_in_longer;

    torrent_sections(f, a);
    head_tell(f, a);
    tail_tell(f.torrent);
    assert(stats::progress_text(a.total, f.pieces, f.progress@) == progress_of(
        a.total,
        f.pieces,
        f.progress@,
    ));
}

proof fn grid_head_ends(r: PieceReport)
    ensures
        exists|x: Seq<char>| flat(grid_head_parts(r)) == #[trigger] (x + " each) --\n  "@),
{
    broadcast use {flat_of_one, flat_of_more, start_is_one};

    reveal(grid_head_parts);
    let x = "\n-- Pieces ("@ + text::dec(r.pieces@.len() as int) + " pieces, "@
        + numbers::bytes_text(r.piece_length as int);
    assert(flat(grid_head_parts(r)) == x + " each) --\n  "@);
}

proof fn told_at_the_end(
    t: Seq<char>,
    head: Seq<char>,
    label: Seq<char>,
    value: Seq<char>,
    end: Seq<char>,
)
    requires
        holds(t, head + value + end),
        exists|x: Seq<char>| head == #[trigger] (x + label),
    ensures
        tells(t, label, value, end),
{
    reveal(tells);
    reveal(holds);
    let x = choose|x: Seq<char>| head == #[trigger] (x + label);
    let (before, after) = choose|before: Seq<char>, after: Seq<char>|
        t == #[trigger] (before + (head + value + end) + after);
    assert(t =~= (before + x) + label + value + end + after);
}

/// The `.stats` of a torrent shows every piece, in order, with its own mark, and tells how many
/// there are and how long each is.
pub proof fn pieces_are_told(f: TorrentFigures, a: TorrentActivity, r: PieceReport)
    requires
        f.activity == Some(a),
        known_activity(f.torrent, a),
        f.pieces == Some(r),
        r.pieces@.len() > 0,
    ensures
        tells(
            stats::torrent_stats(f),
            "\n-- Pieces ("@,
            text::dec(r.pieces@.len() as int) + " pieces, "@ + numbers::bytes_text(
                r.piece_length as int,
            ),
            " each) --\n  "@,
        ),
        tells(stats::torrent_stats(f), " each) --\n  "@, marks(r.pieces@), "\n"@),
{
    broadcast use {told_in_longer, flat_of_one, flat_of_more, start_is_one};

    torrent_sections(f, a);
    grid_head_tell(r);
    let g = flat(grid_head_parts(r));
    let m = marks(r.pieces@);
    let t = stats::torrent_stats(f);
    three_are_held(g, m, "\n"@);
    held_further(t, g + m + "\n"@, g);
    grid_head_ends(r);
    told_at_the_end(t, g, " each) --\n  "@, m, "\n"@);
}

/// The `.stats` of a torrent tells what the cache holds of it.
pub proof fn cached_share_is_told(f: TorrentFigures, a: TorrentActivity, c: CachedShare)
    requires
        f.activity == Some(a),
        known_activity(f.torrent, a),
        f.cache == Some(c),
    ensures
        tells(
            stats::torrent_stats(f),
            "Cache: "@,
            text::dec(c.piece_count as int) + " pieces  "@ + numbers::bytes_text(
                c.total_size as int,
            ),
            "\n"@,
        ),
{
    broadcast use told_in_longer;

    torrent_sections(f, a);
    share_tell(c);
}

/// The sum of a figure over torrents.
pub open spec fn total(rows: Seq<DirectoryRow>, figure: spec_fn(DirectoryRow) -> int) -> int
    decreases rows.len(),
{
    if rows.len() == 0 {
        0
    } else {
        total(rows.drop_last(), figure) + figure(rows.last())
    }
}

/// What the session reports of a torrent, by one of its figures; nothing where it reports nothing.
pub open spec fn figure_of(row: DirectoryRow, figure: spec_fn(TorrentActivity) -> int) -> int {
    match row.activity {
        Some(a) => figure(a),
        None => 0,
    }
}

/// No figure of the torrents is negative, and the rates can be counted.
pub open spec fn known_rows(rows: Seq<DirectoryRow>) -> bool {
    &&& forall|i: int|
        0 <= i < rows.len() ==> (#[trigger] rows[i]).torrent.total_size >= 0 && (
        rows[i].activity matches Some(a) ==> known_activity(rows[i].torrent, a) && a.total_download
            >= 0)
    &&& stats::can_sum(rows)
}

proof fn sums_are_totals(rows: Seq<DirectoryRow>)
    requires
        forall|i: int|
            0 <= i < rows.len() ==> (#[trigger] rows[i]).torrent.total_size >= 0 && (
            rows[i].activity matches Some(a) ==> known_activity(rows[i].torrent, a)
                && a.total_download >= 0),
    ensures
        stats::sums(rows).size == total(rows, |r: DirectoryRow| r.torrent.total_size as int),
        stats::sums(rows).done == total(
            rows,
            |r: DirectoryRow| figure_of(r, |a: TorrentActivity| a.total_done as int),
        ),
        stats::sums(rows).upload == total(
            rows,
            |r: DirectoryRow| figure_of(r, |a: TorrentActivity| a.total_upload as int),
        ),
        stats::sums(rows).download == total(
            rows,
            |r: DirectoryRow| figure_of(r, |a: TorrentActivity| a.total_download as int),
        ),
        stats::sums(rows).download_rate == total(
            rows,
            |r: DirectoryRow| figure_of(r, |a: TorrentActivity| a.download_rate as int),
        ),
        stats::sums(rows).upload_rate == total(
            rows,
            |r: DirectoryRow| figure_of(r, |a: TorrentActivity| a.upload_rate as int),
        ),
        stats::sums(rows).peers == total(
            rows,
            |r: DirectoryRow| figure_of(r, |a: TorrentActivity| a.num_peers as int),
        ),
        stats::sums(rows).seeds == total(
            rows,
            |r: DirectoryRow| figure_of(r, |a: TorrentActivity| a.num_seeds as int),
        ),
        stats::sums(rows).download_rate >= 0,
        stats::sums(rows).upload_rate >= 0,
    decreases rows.len(),
{
    if rows.len() > 0 {
        let head = rows.drop_last();
        assert forall|i: int| 0 <= i < head.len() implies (#[trigger] head[i]).torrent.total_size
            >= 0 && (head[i].activity matches Some(a) ==> known_activity(head[i].torrent, a)
            && a.total_download >= 0) by {
            assert(head[i] == rows[i]);
        }
        sums_are_totals(head);
        assert(rows.last() == rows[rows.len() - 1]);
    }
}

spec fn row_texts(rows: Seq<DirectoryRow>) -> Seq<Seq<char>> {
    Seq::new(rows.len(), |i: int| flat(row_parts(i + 1, rows[i], rows[i].reported())))
}

proof fn rows_append(out: Seq<char>, rows: Seq<DirectoryRow>)
    requires
        rows.len() > 0,
        forall|i: int|
            0 <= i < rows.len() ==> (#[trigger] rows[i]).reported().download_rate >= 0
                && rows[i].reported().upload_rate >= 0,
    ensures
        stats::row_lines(out, rows) == out + flat(row_texts(rows)),
{
    rows_onto(out, rows);
    onto_is_flat(out, row_texts(rows));
}

proof fn rows_onto(out: Seq<char>, rows: Seq<DirectoryRow>)
    requires
        forall|i: int|
            0 <= i < rows.len() ==> (#[trigger] rows[i]).reported().download_rate >= 0
                && rows[i].reported().upload_rate >= 0,
    ensures
        stats::row_lines(out, rows) == onto(out, row_texts(rows)),
    decreases rows.len(),
{
    reveal(onto);
    if rows.len() > 0 {
        let head = rows.drop_last();
        assert forall|i: int| 0 <= i < head.len() implies (
        #[trigger] head[i]).reported().download_rate >= 0 && head[i].reported().upload_rate
            >= 0 by {
            assert(head[i] == rows[i]);
        }
        rows_onto(out, head);
        assert(row_texts(rows).drop_last() =~= row_texts(head));
        let last = rows[rows.len() - 1];
        row_append(stats::row_lines(out, head), rows.len() as int, last, last.reported());
    }
}

proof fn directory_sections(path: Seq<char>, rows: Seq<DirectoryRow>, cache: CacheState)
    requires
        rows.len() > 0,
        known_rows(rows),
    ensures
        holds(
            stats::directory_stats(path, rows, cache),
            flat(sum_lines_parts(rows.len() as int, stats::sums(rows))),
        ),
        cache matches CacheState::Known(c) ==> holds(
            stats::directory_stats(path, rows, cache),
            flat(cache_lines_parts(c)),
        ),
        holds(stats::directory_stats(path, rows, cache), flat(row_texts(rows))),
        holds(
            stats::directory_stats(path, rows, cache),
            Seq::<char>::empty() + "===== directory: "@ + path + " =====\n\n"@,
        ),
{
    let t = stats::directory_stats(path, rows, cache);
    let title = Seq::<char>::empty() + "===== directory: "@ + path + " =====\n\n"@;
    let sums = stats::sums(rows);
    let s = flat(sum_lines_parts(rows.len() as int, sums));
    sums_are_totals(rows);
    assert(rows.take(rows.len() as int) =~= rows);
    assert(stats::sums_fit(stats::sums(rows.take(rows.len() as int))));
    sum_lines_append(title, rows.len() as int, sums);
    let a = title + s;
    let b = stats::directory_cache(a, cache);
    let c = b + "\n-- Torrents --\n"@;
    assert forall|i: int| 0 <= i < rows.len() implies (#[trigger] rows[i]).reported().download_rate
        >= 0 && rows[i].reported().upload_rate >= 0 by {}
    rows_append(c, rows);
    let l = flat(row_texts(rows));
    footer_appends(c + l);
    two_are_held(c + l, stats::footer(Seq::empty()));
    two_are_held(c, l);
    held_further(t, c + l, l);
    held_further(t, c + l, c);
    two_are_held(b, "\n-- Torrents --\n"@);
    held_further(t, c, b);
    cache_is_appended(a, cache);
    held_further(t, b, a);
    two_are_held(title, s);
    held_further(t, a, s);
    held_further(t, a, title);
    if let CacheState::Known(f) = cache {
        held_further(t, b, flat(cache_lines_parts(f)));
    }
}

proof fn cache_is_appended(out: Seq<char>, cache: CacheState)
    ensures
        holds(stats::directory_cache(out, cache), out),
        cache matches CacheState::Known(c) ==> holds(
            stats::directory_cache(out, cache),
            flat(cache_lines_parts(c)),
        ),
{
    match cache {
        CacheState::Known(c) => {
            cache_lines_append(out, c);
            two_are_held(out, flat(cache_lines_parts(c)));
        },
        CacheState::Locked => {
            two_are_held(out, "\n-- Cache --\n"@ + "  (locked)\n"@);
            assert(stats::directory_cache(out, cache) =~= out + ("\n-- Cache --\n"@
                + "  (locked)\n"@));
        },
        CacheState::Absent => {
            two_are_held(out, "\n-- Cache --\n"@ + "  (none)\n"@);
            assert(stats::directory_cache(out, cache) =~= out + ("\n-- Cache --\n"@
                + "  (none)\n"@));
        },
    }
}

/// The `.stats` of a directory tells, each under its own label, how many torrents there are and
/// the sums of their figures: sizes, what was received and sent, rates, peers and seeds.
pub proof fn directory_sums_are_told(path: Seq<char>, rows: Seq<DirectoryRow>, cache: CacheState)
    requires
        rows.len() > 0,
        known_rows(rows),
    ensures
        ({
            let t = stats::directory_stats(path, rows, cache);
            let size = total(rows, |r: DirectoryRow| r.torrent.total_size as int);
            let done = total(
                rows,
                |r: DirectoryRow| figure_of(r, |a: TorrentActivity| a.total_done as int),
            );
            let upload = total(
                rows,
                |r: DirectoryRow| figure_of(r, |a: TorrentActivity| a.total_upload as int),
            );
            let download = total(
                rows,
                |r: DirectoryRow| figure_of(r, |a: TorrentActivity| a.total_download as int),
            );
            let download_rate = total(
                rows,
                |r: DirectoryRow| figure_of(r, |a: TorrentActivity| a.download_rate as int),
            );
            let upload_rate = total(
                rows,
                |r: DirectoryRow| figure_of(r, |a: TorrentActivity| a.upload_rate as int),
            );
            let peers = total(
                rows,
                |r: DirectoryRow| figure_of(r, |a: TorrentActivity| a.num_peers as int),
            );
            let seeds = total(
                rows,
                |r: DirectoryRow| figure_of(r, |a: TorrentActivity| a.num_seeds as int),
            );
            &&& tells(t, "  Torrents: "@, text::dec(rows.len() as int) + "  Total Size: "@
                + numbers::bytes_text(size) + "  Downloaded: "@ + numbers::bytes_text(done), "\n"@)
            &&& tells(t, "  DL Rate: ↓ "@, numbers::bytes_text(download_rate)
                + "/s  UL Rate: ↑ "@ + numbers::bytes_text(upload_rate), "/s\n"@)
            &&& tells(t, "  Total UL: "@, numbers::bytes_text(upload) + "  Total DL: "@
                + numbers::bytes_text(download), "\n"@)
            &&& tells(t, "  Peers: "@, text::dec_signed(peers) + "  Seeds: "@ + text::dec_signed(
                seeds,
            ), "\n"@)
            &&& cache matches CacheState::Known(c) ==> {
                &&& tells(t, "  Cache Usage: "@, numbers::bytes_text(c.current_size as int)
                    + " / "@ + numbers::bytes_text(c.max_size as int) + " ("@
                    + shares::percent_text(c.current_size as int, c.max_size as int), "%)\n"@)
                &&& tells(t, "  Hits: "@, numbers::num_text(c.hits as int) + "  Misses: "@
                    + numbers::num_text(c.misses as int) + "  Hit Rate: "@ + shares::percent_text(
                    c.hits as int,
                    c.hits + c.misses,
                ), "%\n"@)
            }
        }),
{
    broadcast use told_in_longer;

    directory_sections(path, rows, cache);
    sums_are_totals(rows);
    sum_lines_tell(rows.len() as int, stats::sums(rows));
    if let CacheState::Known(c) = cache {
        cache_lines_tell(c);
    }
}

/// The `.stats` of a directory has a line for each torrent, which tells its number, its name, its
/// status, its progress, its rates and its peers.
pub proof fn directory_rows_are_told(
    path: Seq<char>,
    rows: Seq<DirectoryRow>,
    cache: CacheState,
    i: int,
    a: TorrentActivity,
)
    requires
        known_rows(rows),
        0 <= i < rows.len(),
        rows[i].activity == Some(a),
    ensures
        tells(
            stats::directory_stats(path, rows, cache),
            "  #"@,
            stats::padded(text::dec(i + 1), 3) + " "@ + stats::padded(
                stats::shown_name(rows[i].torrent.name@),
                40,
            ) + " "@ + word_for(rows[i].torrent.status) + "  "@ + stats::indented(
                progress_of(a.total, rows[i].pieces, rows[i].progress@),
                5,
            ) + "%  ↓ "@ + stats::padded(numbers::bytes_text(a.download_rate as int), 10)
                + "/s  ↑ "@ + stats::padded(numbers::bytes_text(a.upload_rate as int), 10)
                + "/s  "@ + stats::indented(text::dec_signed(a.num_peers as int), 3) + "P/"@
                + stats::padded(text::dec_signed(a.num_seeds as int), 3),
            "S\n"@,
        ),
{
    broadcast use told_in_longer;

    let t = stats::directory_stats(path, rows, cache);
    let texts = row_texts(rows);
    directory_sections(path, rows, cache);
    part_is_held(texts, i);
    held_further(t, flat(texts), texts[i]);
    row_tell(i + 1, rows[i], a);
    assert(stats::progress_text(a.total, rows[i].pieces, rows[i].progress@) == progress_of(
        a.total,
        rows[i].pieces,
        rows[i].progress@,
    ));
}

/// A text in a column is followed, or preceded, by as many spaces as are missing.
pub proof fn columns_keep_their_text(s: Seq<char>, width: int, k: int)
    ensures
        text::begins(stats::padded(s, width), s),
        text::ends(stats::indented(s, width), s),
        stats::padded(s, width).len() == if s.len() < width {
            width
        } else {
            s.len() as int
        },
        stats::indented(s, width).len() == stats::padded(s, width).len(),
        s.len() <= k < stats::padded(s, width).len() ==> stats::padded(s, width)[k] == ' ',
        0 <= k < stats::indented(s, width).len() - s.len() ==> stats::indented(s, width)[k] == ' ',
{
    let p = stats::padded(s, width);
    let q = stats::indented(s, width);
    assert(p.subrange(0, s.len() as int) =~= s);
    assert(q.subrange(q.len() - s.len(), q.len() as int) =~= s);
}

/// A name that fits its column is shown whole, and of a longer one the beginning.
pub proof fn shown_name_is_the_name(name: Seq<char>)
    ensures
        vstd::utf8::encode_utf8(name).len() <= 40 ==> stats::shown_name(name) == name,
        vstd::utf8::encode_utf8(name).len() > 40 ==> {
            let kept = stats::shown_name(name).len() - 3;
            &&& 0 <= kept <= 37
            &&& kept <= name.len()
            &&& kept == 37 || kept == name.len()
            &&& stats::shown_name(name) == name.take(kept) + "..."@
        },
{
    reveal_strlit("...");
    if name.len() <= 37 {
        assert(name.take(name.len() as int) =~= name);
    }
}

/// The `.stats` of a torrent by its id are those of the torrent where the catalogue lists it, and else
/// tell which id is missing.
pub proof fn torrent_is_told_by_its_id(torrent_id: i64, f: TorrentFigures)
    ensures
        stats::torrent_row_stats(torrent_id, stats::TorrentRow::Listed(f)) == stats::torrent_stats(
            f,
        ),
        tells(
            stats::torrent_row_stats(torrent_id, stats::TorrentRow::NotListed),
            "Torrent not found (id="@,
            text::dec_signed(torrent_id as int),
            ")\n"@,
        ),
{
    reveal(tells);
    let none = Seq::<char>::empty();
    let t = stats::torrent_row_stats(torrent_id, stats::TorrentRow::NotListed);
    assert(t =~= none + "Torrent not found (id="@ + text::dec_signed(torrent_id as int) + ")\n"@
        + none);
}

/// The marker of a piece tells whether it is in the cache, how often it was read from there, and how
/// much it is wanted where it is not.
pub proof fn marker_tells_the_piece(p: PieceStatus)
    ensures
        p.is_cached && p.hit_count > 0 ==> stats::marker(p) == "[X "@ + text::dec(
            p.hit_count as int,
        ) + "]"@,
        p.is_cached && p.hit_count == 0 ==> stats::marker(p) == "[x]"@,
        !p.is_cached && p.priority > 0 ==> stats::marker(p) == "["@ + text::dec(p.priority as int)
            + "]"@,
        !p.is_cached && p.priority <= 0 ==> stats::marker(p).len() == 2,
{
    reveal_strlit("[]");
}

/// One more torrent counts among the different ones exactly where its info hash is new.
pub proof fn new_info_hash_counts(torrents: Seq<Torrent>, more: Torrent)
    ensures
        stats::info_hashes(torrents.push(more)).to_set().len() == stats::info_hashes(
            torrents,
        ).to_set().len() + (if exists|i: int|
            0 <= i < torrents.len() && (#[trigger] torrents[i]).info_hash@ == more.info_hash@ {
            0int
        } else {
            1
        }),
{
    let all = stats::info_hashes(torrents);
    let h = more.info_hash@;
    assert(stats::info_hashes(torrents.push(more)) =~= all.push(h));
    text::push_contains(all, h);
    assert(all.push(h).to_set() =~= all.to_set().insert(h));
    assert(all.to_set().contains(h) <==> exists|i: int|
        0 <= i < torrents.len() && (#[trigger] torrents[i]).info_hash@ == h) by {
        if all.to_set().contains(h) {
            let i = all.index_of(h);
            assert(torrents[i].info_hash@ == h);
        }
        if exists|i: int|
            0 <= i < torrents.len() && (#[trigger] torrents[i]).info_hash@ == h {
            let i = choose|i: int|
                0 <= i < torrents.len() && (#[trigger] torrents[i]).info_hash@ == h;
            assert(all[i] == h);
        }
    }
}

/// The hit rate is the share of the hits in all lookups: a hundred percent where none missed, none where
/// none hit.
pub proof fn hit_rate_is_the_share_of_hits(hits: u64, misses: u64)
    ensures
        stats::hit_rate_text(hits, misses) == shares::percent_text(hits as int, hits + misses),
        hits > 0 && misses == 0 ==> stats::hit_rate_text(hits, misses) == "100.0"@,
        hits == 0 ==> stats::hit_rate_text(hits, misses) == "0.0"@,
{
    if misses == 0 && hits > 0 {
        shares::whole_is_a_hundred_percent(hits);
    }
    if hits == 0 {
        shares::nothing_is_no_percent(misses);
    }
}

/// The average wait for a lock is told in whole microseconds: as many waits of that length take no longer
/// than all took, and as many of a microsecond more take longer.
pub proof fn average_wait_is_the_average(nanos: u64, acquires: u64)
    requires
        acquires > 0,
    ensures
        ({
            let micros = stats::average_wait(nanos, acquires);
            micros * 1000 * acquires <= nanos < (micros + 1) * 1000 * acquires
        }),
        stats::average_wait(nanos, 0) == 0,
{
    let n = nanos as int;
    let d = acquires as int;
    let q = n / d;
    assert(q * d <= n < (q + 1) * d) by (nonlinear_arith)
        requires
            d > 0,
            q == n / d,
    ;
    let m = q / 1000;
    assert(m * 1000 <= q < (m + 1) * 1000);
    assert(m * 1000 * d <= q * d) by (nonlinear_arith)
        requires
            m * 1000 <= q,
            d > 0,
    ;
    assert((q + 1) * d <= (m + 1) * 1000 * d) by (nonlinear_arith)
        requires
            q + 1 <= (m + 1) * 1000,
            d > 0,
    ;
}

} // verus!

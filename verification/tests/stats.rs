//! The `.stats` files.

use torrentfs::domain::types::{Torrent, TorrentStatus};
use torrentfs::download::types::{PieceStatus, SessionStats, TorrentActivity};
use torrentfs::fuse::numbers::{format_bytes, format_num};
use torrentfs::fuse::shares::{percent, ratio};
use torrentfs::fuse::stats::{
    cached_pieces, generate_directory_stats, generate_global_stats, generate_stats,
    generate_torrent_stats, generate_torrent_stats_for_id, piece_marker, shorten_name,
    unique_info_hashes, CacheFigures, CacheState, CachedShare, DirectoryRow, GlobalFigures,
    PieceReport, TorrentCounts, TorrentFigures, TorrentRow,
};
use torrentfs::infrastructure::metrics::MetricsSnapshot;

const NO_COUNTS: TorrentCounts = TorrentCounts {
    pending: 0,
    downloading: 0,
    seeding: 0,
    error: 0,
    total: 0,
    unique: 0,
};

fn figures(metrics: Option<MetricsSnapshot>) -> GlobalFigures {
    GlobalFigures {
        creation_time: 0,
        now: 0,
        has_database: false,
        session: None,
        cache: CacheState::Absent,
        listen_addr: "0.0.0.0:6881".to_string(),
        counts: NO_COUNTS,
        metrics,
    }
}

/// The part of the pieces that is in the cache.
fn piece_progress(pieces: &[PieceStatus]) -> f64 {
    if pieces.is_empty() {
        return 0.0;
    }
    cached_pieces(&pieces.to_vec()) as f64 / pieces.len() as f64
}

#[test]
fn test_format_num_zero() {
    assert_eq!(format_num(0), "0");
}

#[test]
fn test_format_num_single_digit() {
    assert_eq!(format_num(5), "5");
}

#[test]
fn test_format_num_two_digits() {
    assert_eq!(format_num(42), "42");
}

#[test]
fn test_format_num_three_digits() {
    assert_eq!(format_num(999), "999");
}

#[test]
fn test_format_num_thousand() {
    assert_eq!(format_num(1000), "1,000");
}

#[test]
fn test_format_num_ten_thousand() {
    assert_eq!(format_num(10000), "10,000");
}

#[test]
fn test_format_num_hundred_thousand() {
    assert_eq!(format_num(100000), "100,000");
}

#[test]
fn test_format_num_million() {
    assert_eq!(format_num(1000000), "1,000,000");
}

#[test]
fn test_format_num_seven_digits() {
    assert_eq!(format_num(1234567), "1,234,567");
}

#[test]
fn test_format_num_eight_digits() {
    assert_eq!(format_num(12345678), "12,345,678");
}

#[test]
fn test_format_num_nine_digits() {
    assert_eq!(format_num(123456789), "123,456,789");
}

#[test]
fn test_format_num_u64_max() {
    assert_eq!(format_num(u64::MAX), "18,446,744,073,709,551,615");
}

#[test]
fn test_piece_marker_semantics() {
    // Downloaded, never accessed → `[x]`
    assert_eq!(
        piece_marker(&PieceStatus {
            priority: 0,
            is_cached: true,
            hit_count: 0,
        }),
        "[x]"
    );
    // Downloaded and accessed 5 times → `[X 5]`
    assert_eq!(
        piece_marker(&PieceStatus {
            priority: 0,
            is_cached: true,
            hit_count: 5,
        }),
        "[X 5]"
    );
    // Priority 3, not cached → `[3]`
    assert_eq!(
        piece_marker(&PieceStatus {
            priority: 3,
            is_cached: false,
            hit_count: 0,
        }),
        "[3]"
    );
    // Not wanted → `[]`
    assert_eq!(
        piece_marker(&PieceStatus {
            priority: 0,
            is_cached: false,
            hit_count: 0,
        }),
        "[]"
    );
}

#[test]
fn test_piece_progress_empty() {
    assert_eq!(piece_progress(&[]), 0.0);
}

#[test]
fn test_piece_progress_none_cached() {
    let pieces = vec![
        PieceStatus {
            priority: 0,
            is_cached: false,
            hit_count: 0,
        },
        PieceStatus {
            priority: 3,
            is_cached: false,
            hit_count: 0,
        },
        PieceStatus {
            priority: 0,
            is_cached: false,
            hit_count: 0,
        },
        PieceStatus {
            priority: 0,
            is_cached: false,
            hit_count: 0,
        },
    ];
    assert_eq!(piece_progress(&pieces), 0.0);
}

#[test]
fn test_piece_progress_all_cached() {
    let pieces = vec![
        PieceStatus {
            priority: 0,
            is_cached: true,
            hit_count: 2,
        },
        PieceStatus {
            priority: 0,
            is_cached: true,
            hit_count: 0,
        },
    ];
    assert!((piece_progress(&pieces) - 1.0).abs() < f64::EPSILON);
}

#[test]
fn test_piece_progress_partial() {
    // 1 of 4 cached → 0.25 (25%)
    let pieces = vec![
        PieceStatus {
            priority: 0,
            is_cached: true,
            hit_count: 1,
        },
        PieceStatus {
            priority: 3,
            is_cached: false,
            hit_count: 0,
        },
        PieceStatus {
            priority: 0,
            is_cached: false,
            hit_count: 0,
        },
        PieceStatus {
            priority: 0,
            is_cached: false,
            hit_count: 0,
        },
    ];
    assert!((piece_progress(&pieces) - 0.25).abs() < f64::EPSILON);
}

#[test]
fn test_piece_progress_ignores_priority() {
    // High priority but not cached → 0%
    let pieces = vec![
        PieceStatus {
            priority: 7,
            is_cached: false,
            hit_count: 0,
        },
        PieceStatus {
            priority: 7,
            is_cached: false,
            hit_count: 0,
        },
    ];
    assert_eq!(piece_progress(&pieces), 0.0);
}

#[test]
fn test_piece_grid_shows_priority_during_active_read() {
    // during an active read, pieces with elevated priority
    // (not yet cached) must render as `[N]`, not `[]`.  The bug was that
    // the snapshot never captured elevated priorities, so every piece
    // showed `[]`.  This test locks the `piece_marker` rendering contract
    // the fix depends on: non-cached + priority > 0 → `[N]`.
    let grid = vec![
        // Cached, no accesses → `[x]`
        PieceStatus { priority: 0, is_cached: true, hit_count: 0 },
        // Active read target, not cached, priority 7 → `[7]`
        PieceStatus { priority: 7, is_cached: false, hit_count: 0 },
        // Prefetch edge, not cached, priority 1 → `[1]`
        PieceStatus { priority: 1, is_cached: false, hit_count: 0 },
        // Outside window, not cached, priority 0 → `[]`
        PieceStatus { priority: 0, is_cached: false, hit_count: 0 },
    ];
    let rendered: String = grid.iter().map(piece_marker).collect();
    assert_eq!(rendered, "[x][7][1][]");
}

#[test]
fn test_global_stats_header_present() {
    let stats = generate_global_stats(&figures(None));
    let text = String::from_utf8_lossy(&stats);
    assert!(text.contains("torrentfs v0.1.0"));
    assert!(text.contains("-- Overview --"));
}

#[test]
fn test_global_stats_no_torrent_details() {
    let stats = generate_global_stats(&figures(None));
    let text = String::from_utf8_lossy(&stats);
    assert!(!text.contains("── 种子详情 ──"));
}

#[test]
fn test_global_stats_no_per_infohash_cache() {
    let stats = generate_global_stats(&figures(None));
    let text = String::from_utf8_lossy(&stats);
    assert!(!text.contains("[info_hash]"));
}

#[test]
fn test_torrent_stats_not_found() {
    let stats = generate_torrent_stats(999, "deadbeef", &None);
    let text = String::from_utf8_lossy(&stats);
    assert!(text.contains("Torrent not found"));
}

#[test]
fn test_directory_stats_empty_path() {
    let stats = generate_directory_stats("/nonexistent", &vec![], &CacheState::Absent);
    let text = String::from_utf8_lossy(&stats);
    assert!(text.contains("No torrents found"));
}

#[test]
fn test_generate_stats_is_wrapper() {
    let global = generate_global_stats(&figures(None));
    let wrapper = generate_stats(&figures(None));
    let gtext = String::from_utf8_lossy(&global);
    let wtext = String::from_utf8_lossy(&wrapper);
    assert_eq!(
        gtext, wtext,
        "generate_stats should produce same output as generate_global_stats"
    );
}

#[test]
fn test_name_truncation_utf8_safe() {
    let long_cjk = "这是一个很长的种子文件名测试用例".to_string(); // 16 chars, 48 bytes
    assert!(long_cjk.len() > 40);
    let truncated = shorten_name(&long_cjk);
    assert_eq!(truncated.chars().count(), 16 + 3);
}

#[test]
fn test_global_stats_ascii_borders() {
    let stats = generate_global_stats(&figures(None));
    let text = String::from_utf8_lossy(&stats);
    assert!(text.contains("====="), "borders must be ASCII '='");
    assert!(!text.contains('\u{2550}'), "no Unicode double-line borders");
}

#[test]
fn test_global_stats_english_headers() {
    let stats = generate_global_stats(&figures(None));
    let text = String::from_utf8_lossy(&stats);
    assert!(text.contains("-- Overview --"));
    assert!(text.contains("-- Global Rates --"));
    assert!(text.contains("-- Connections --"));
    assert!(text.contains("-- Torrents --"));
    assert!(text.contains("-- Cache --"));
    assert!(text.contains("-- Performance --"));
    assert!(text.contains("-- Observability --"));
}

#[test]
fn test_observability_renders_layered_cache_hit_rate() {
    let mut m = MetricsSnapshot::default();
    m.l1_hits = 40;
    m.l1_misses = 60;
    let stats = generate_global_stats(&figures(Some(m)));
    let text = String::from_utf8_lossy(&stats);
    assert!(
        text.contains("Cache L1 (memory):"),
        "missing L1 line: {text}"
    );
    assert!(
        text.contains("hit rate 40.0%"),
        "missing L1 hit rate: {text}"
    );
    assert!(text.contains("Cache L2 (disk):"), "missing L2 line: {text}");
    assert!(
        text.contains("Cache L3 (metadata):"),
        "missing L3 line: {text}"
    );
    assert!(
        text.contains("Deferred reads:"),
        "missing Deferred line: {text}"
    );
    assert!(text.contains("Poll hit rate:"), "missing poll line: {text}");
    assert!(
        text.contains("Download queue:"),
        "missing queue line: {text}"
    );
    assert!(text.contains("Workers:"), "missing workers line: {text}");
    assert!(
        text.contains("Lock wait:"),
        "missing lock wait line: {text}"
    );
}

#[test]
fn test_global_stats_total_unique_format() {
    let stats = generate_global_stats(&figures(None));
    let text = String::from_utf8_lossy(&stats);
    assert!(text.contains("Total: "));
    assert!(text.contains("Unique: "));
}

#[test]
fn test_torrent_stats_english_status() {
    // Without a real DB, this should just not panic with "Torrent not found"
    let stats = generate_torrent_stats(1, "abc", &None);
    let text = String::from_utf8_lossy(&stats);
    assert!(!text.contains("等待"));
    assert!(!text.contains("下载"));
    assert!(!text.contains("做种"));
    assert!(!text.contains("错误"));
}

#[test]
fn test_directory_stats_english_headers() {
    let stats = generate_directory_stats("/nonexistent", &vec![], &CacheState::Absent);
    let text = String::from_utf8_lossy(&stats);
    assert!(!text.contains("──"));
    assert!(text.contains("No torrents found"));
}

#[test]
fn test_torrent_stats_has_title_line() {
    // Without a real DB, this should just not panic with "Torrent not found"
    // but we can still verify the format when it IS found by checking code structure.
    // Test with torrent not found case: verify the function doesn't crash.
    let stats = generate_torrent_stats(999, "deadbeef", &None);
    let text = String::from_utf8_lossy(&stats);
    assert!(
        text.contains("Torrent not found"),
        "stats for missing torrent should include 'Torrent not found', got: {}",
        text
    );
}

#[test]
fn test_torrent_stats_section_headers_present_in_code() {
    // Verify the section header strings exist in the compiled binary
    // by checking the const patterns that would appear in any torrent stats output.
    let stats = generate_torrent_stats(999, "deadbeef", &None);
    let text = String::from_utf8_lossy(&stats);
    // torrent not found case; version banner must NOT appear (root-only)
    assert!(!text.contains("torrentfs v"));
}

#[test]
fn test_torrent_stats_no_version_banner() {
    // Leaf .stats must not include the version banner.
    let stats = generate_torrent_stats(999, "deadbeef", &None);
    let text = String::from_utf8_lossy(&stats);
    assert!(!text.contains("torrentfs v0"));
}

#[test]
fn test_directory_stats_header_format() {
    let stats = generate_directory_stats("/test/path", &vec![], &CacheState::Absent);
    let text = String::from_utf8_lossy(&stats);
    assert!(text.contains("===== directory: /test/path ====="));
}

#[test]
fn test_directory_stats_no_version_banner() {
    // Intermediate directory .stats must not include the version banner.
    let stats = generate_directory_stats("/test/path", &vec![], &CacheState::Absent);
    let text = String::from_utf8_lossy(&stats);
    assert!(!text.contains("torrentfs v0"));
}

#[test]
fn test_directory_stats_has_path_title() {
    let stats = generate_directory_stats("/nonexistent", &vec![], &CacheState::Absent);
    let text = String::from_utf8_lossy(&stats);
    // Path title uses spec format: ===== directory: {path} =====
    assert!(text.contains("===== directory: /nonexistent ====="));
}

#[test]
fn test_directory_stats_section_headers_empty() {
    let stats = generate_directory_stats("/nonexistent", &vec![], &CacheState::Absent);
    let text = String::from_utf8_lossy(&stats);
    // Empty path shows "No torrents found" not section headers
    assert!(text.contains("No torrents found"));
}

#[test]
fn sizes_read_as_floats_print() {
    let units: [(u64, &str); 3] = [
        (1024, "KB"),
        (1024 * 1024, "MB"),
        (1024 * 1024 * 1024, "GB"),
    ];
    let mut sizes: Vec<u64> = vec![0, 1, 1023, 1024, 1025, 1029, 1034, 1039, u64::MAX, u64::MAX - 1];
    for shift in 10..64 {
        for delta in [0u64, 1, 5, 1234567] {
            sizes.push((1u64 << shift) + delta);
            sizes.push((1u64 << shift).wrapping_mul(3).wrapping_add(delta));
            sizes.push((1u64 << shift).wrapping_sub(delta));
        }
    }
    for size in sizes {
        let expected = match units.iter().rev().find(|(unit, _)| size >= *unit) {
            Some((unit, name)) => format!("{:.2} {}", size as f64 / *unit as f64, name),
            None => format!("{} B", size),
        };
        assert_eq!(format_bytes(size), expected);
    }
}

#[test]
fn shares_read_as_floats_print() {
    let mut numbers: Vec<u64> = vec![0, 1, 2, 3, 7, 9, 10, 99, 100, 999, 1000, 1999, 2000, 3001];
    for shift in [5, 10, 31, 32, 52, 53, 54, 60, 63] {
        numbers.push((1u64 << shift) - 1);
        numbers.push(1u64 << shift);
        numbers.push((1u64 << shift) + 1);
    }
    numbers.push(u64::MAX);
    numbers.push(0x1234_5678_9abc_def1);
    for a in &numbers {
        for b in &numbers {
            let expected = if *b > 0 {
                format!("{:.1}", (*a as f64 / *b as f64) * 100.0)
            } else {
                "0.0".to_string()
            };
            assert_eq!(percent(*a, *b), expected, "{} of {}", a, b);
            if *b > 0 && *b <= i64::MAX as u64 {
                let a = *a as i64;
                let b = *b as i64;
                assert_eq!(ratio(a, b), format!("{:.2}", a as f64 / b as f64), "{} / {}", a, b);
            }
        }
        if *a > 0 {
            assert_eq!(percent(*a, *a), "100.0");
        }
    }
}

fn torrent(name: &str, info_hash: &str) -> Torrent {
    Torrent {
        id: 1,
        source_path: "os/linux".to_string(),
        name: name.to_string(),
        filename: format!("{}.torrent", name),
        total_size: 2048,
        info_hash: info_hash.to_string(),
        file_count: 1,
        status: TorrentStatus::Downloading,
        torrent_data: None,
        resume_data: None,
        created_at: String::new(),
    }
}

fn activity() -> TorrentActivity {
    TorrentActivity {
        total_done: 1024,
        total: 2048,
        download_rate: 10,
        upload_rate: 20,
        total_download: 300,
        total_upload: 150,
        num_peers: 2,
        num_seeds: 1,
    }
}

fn pieces() -> PieceReport {
    PieceReport {
        piece_length: 1024,
        pieces: vec![
            PieceStatus { priority: 0, is_cached: true, hit_count: 3 },
            PieceStatus { priority: 7, is_cached: false, hit_count: 0 },
        ],
    }
}

#[test]
fn a_torrent_is_shown_with_everything_known() {
    let figures = Some(TorrentFigures {
        torrent: torrent("disc", "abcd"),
        activity: Some(activity()),
        pieces: Some(pieces()),
        progress: "100.0".to_string(),
        cache: Some(CachedShare { piece_count: 1, total_size: 1024 }),
    });
    let text = String::from_utf8(generate_torrent_stats(1, "abcd", &figures)).unwrap();
    assert_eq!(
        text,
        "===== torrent: disc =====\n\n\
         -- Status --\n\
         \x20 Name: disc\n\
         \x20 Status: Downloading  Progress: 50.0%  Size: 2.00 KB\n\
         \x20 DL: 1.00 KB  UL: 150 B  Ratio: 0.50\n\
         \n-- Rates --\n\
         \x20 Rate: ↓ 10 B/s  ↑ 20 B/s\n\
         \n-- Peers --\n\
         \x20 Peers: 2  Seeds: 1\n\
         \n-- Pieces (2 pieces, 1.00 KB each) --\n\
         \x20 [X 3][7]\n\
         Cache: 1 pieces  1.00 KB\n\
         info_hash: abcd\n\
         source_path: \"os/linux\"\n\
         \n===========================================================\n"
    );
}

#[test]
fn an_idle_torrent_warns_of_missing_peers() {
    let figures = Some(TorrentFigures {
        torrent: torrent("disc", "abcd"),
        activity: None,
        pieces: None,
        progress: "77.7".to_string(),
        cache: None,
    });
    let text = String::from_utf8(generate_torrent_stats(1, "abcd", &figures)).unwrap();
    assert!(text.contains("Progress: 0.0%"));
    assert!(text.contains("Ratio: —"));
    assert!(text.contains("⚠ Health: 0 peers / 0 seeds"));
    assert!(!text.contains("-- Pieces"));
    assert!(!text.contains("Cache: "));
}

#[test]
fn a_directory_is_shown_with_its_sums() {
    let rows = vec![
        DirectoryRow {
            torrent: torrent("disc", "abcd"),
            activity: Some(activity()),
            pieces: Some(pieces()),
            progress: "100.0".to_string(),
        },
        DirectoryRow {
            torrent: torrent(&"n".repeat(41), "ef01"),
            activity: Some(TorrentActivity { total: 10, ..activity() }),
            pieces: None,
            progress: "12.5".to_string(),
        },
    ];
    let cache = CacheState::Known(CacheFigures {
        current_size: 512,
        max_size: 1024,
        hits: 1000,
        misses: 3000,
    });
    let text = String::from_utf8(generate_directory_stats("os", &rows, &cache)).unwrap();
    let short = format!("{}...", "n".repeat(37));
    assert_eq!(
        text,
        format!(
            "===== directory: os =====\n\n\
             -- Rates --\n\
             \x20 Torrents: 2  Total Size: 4.00 KB  Downloaded: 2.00 KB\n\
             \x20 DL Rate: ↓ 20 B/s  UL Rate: ↑ 40 B/s\n\
             \x20 Total UL: 300 B  Total DL: 600 B\n\
             \n-- Peers --\n\
             \x20 Peers: 4  Seeds: 2\n\
             \n-- Cache --\n\
             \x20 Cache Usage: 512 B / 1.00 KB (50.0%)\n\
             \x20 Hits: 1,000  Misses: 3,000  Hit Rate: 25.0%\n\
             \n-- Torrents --\n\
             \x20 #{:<3} {:<40} {}  {:>5.1}%  ↓ {:<10}/s  ↑ {:<10}/s  {:>3}P/{:<3}S\n\
             \x20 #{:<3} {:<40} {}  {:>5.1}%  ↓ {:<10}/s  ↑ {:<10}/s  {:>3}P/{:<3}S\n\
             \n===========================================================\n",
            1, "disc", "Downloading", 50.0, "10 B", "20 B", 2, 1,
            2, short, "Downloading", 12.5, "10 B", "20 B", 2, 1
        )
    );
}

#[test]
fn the_root_shows_session_cache_and_catalogue() {
    let g = GlobalFigures {
        creation_time: 100,
        now: 100 + 3600 * 2 + 60 * 3 + 4,
        has_database: true,
        session: Some(SessionStats {
            download_rate: 1024,
            upload_rate: 1,
            total_downloaded: 2,
            total_uploaded: 3,
            dht_nodes: 4,
            peers_connected: 5,
            half_open_connections: 6,
        }),
        cache: CacheState::Locked,
        listen_addr: "0.0.0.0:6881".to_string(),
        counts: TorrentCounts { pending: 1, downloading: 2, seeding: 3, error: 4, total: 10, unique: 9 },
        metrics: None,
    };
    let text = String::from_utf8(generate_global_stats(&g)).unwrap();
    for line in [
        "  Uptime:       2h 3m 4s\n",
        "  Database:     (active)\n",
        "  Cache Dir:    (locked)\n",
        "  Cache Usage:  0 B / 0 B (0.0%)\n",
        "  Listen:       0.0.0.0:6881\n",
        "  DHT Nodes:    4\n",
        "  Download Rate:  1.00 KB/s\n",
        "  Connected:      5\n",
        "  Half-open:      6\n",
        "  Total: 10  Unique: 9  Pending: 1  Downloading: 2  Seeding: 3  Error: 4\n",
        "  Hits: 0  Misses: 0  Hit Rate: 0.0%  Evictions: 0\n",
        "  Lock wait:           0 acquisitions, avg 0 µs (total 0 ms)\n",
    ] {
        assert!(text.contains(line), "missing {:?} in {}", line, text);
    }
}

#[test]
fn equal_info_hashes_count_once() {
    assert_eq!(
        unique_info_hashes(&vec![torrent("a", "1"), torrent("b", "2"), torrent("c", "1")]),
        2
    );
    assert_eq!(unique_info_hashes(&vec![]), 0);
}

#[test]
fn long_names_are_cut() {
    assert_eq!(shorten_name(&"x".repeat(40)), "x".repeat(40));
    assert_eq!(shorten_name(&"x".repeat(41)), format!("{}...", "x".repeat(37)));
}

#[test]
fn a_torrent_that_is_not_known_has_a_notice() {
    assert_eq!(
        generate_torrent_stats_for_id(7, &TorrentRow::NoCatalogue),
        b"Database not available\n"
    );
    assert_eq!(
        generate_torrent_stats_for_id(7, &TorrentRow::NotListed),
        b"Torrent not found (id=7)\n"
    );
}

//! Which pieces are wanted, and how much.

use torrentfs::domain::piece_key::{make_piece_key, split_piece_key as split_key};
use torrentfs::domain::pieces_manager::{
    prefetch_pieces, FilePieceInfo, PiecePriorityConfig, PiecesManager, ReadTarget,
};
use torrentfs::infrastructure::cache::{CacheManager, RangeFault};

fn manager() -> PiecesManager {
    PiecesManager::new(
        CacheManager::new(1024 * 1024),
        PiecePriorityConfig::default(),
    )
}

#[test]
fn test_default_config() {
    let cfg = PiecePriorityConfig::default();
    assert_eq!(cfg.prefetch_window_mb, 4);
    assert_eq!(cfg.current_priority, 7);
    assert_eq!(cfg.step_priorities, [6, 5, 4, 3]);
    assert_eq!(cfg.rest_priority, 2);
    assert_eq!(cfg.backward_priority, 1);
}

#[test]
fn test_pieces_manager_new() {
    let pm = manager();
    assert_eq!(pm.elevated.len(), 0);
}

#[test]
fn test_get_piece_priority_unknown_hash() {
    let pm = manager();
    assert_eq!(pm.get_piece_priority("deadbeef", 0), 0);
    assert_eq!(pm.get_piece_priority("deadbeef", 42), 0);
}

#[test]
fn test_get_pieces_status_empty() {
    let pm = manager();
    let status = pm.get_pieces_status("deadbeef", 4);
    assert_eq!(status.len(), 4);
    for s in &status {
        assert_eq!(s.0, 0);
        assert!(!s.1);
    }
}

#[test]
fn test_init_upload_mode_populates_elevated() {
    let mut pm = manager();
    let info_hash = "abc123";
    pm.init_upload_mode(info_hash, 8);

    let status = pm.get_pieces_status(info_hash, 8);
    assert_eq!(status.len(), 8);
    for s in &status {
        assert_eq!(s.0, 0);
    }
}

#[test]
fn test_get_pieces_status_with_priorities() {
    let mut pm = manager();
    let info_hash = "gradient_test";
    pm.elevated
        .insert(info_hash.to_string(), vec![7, 6, 5, 0]);

    let status = pm.get_pieces_status(info_hash, 4);
    assert_eq!(status[0], (7, false));
    assert_eq!(status[1], (6, false));
    assert_eq!(status[2], (5, false));
    assert_eq!(status[3], (0, false));
}

#[test]
fn test_gradient_step_priorities_match_config() {
    let cfg = PiecePriorityConfig::default();
    // Step priorities should form a descending sequence.
    assert!(cfg.step_priorities[0] > cfg.step_priorities[1]);
    assert!(cfg.step_priorities[1] > cfg.step_priorities[2]);
    assert!(cfg.step_priorities[2] > cfg.step_priorities[3]);

    // current > first step
    assert!(cfg.current_priority > cfg.step_priorities[0]);

    // last step > rest
    assert!(cfg.step_priorities[3] > cfg.rest_priority);

    // rest > backward
    assert!(cfg.rest_priority > cfg.backward_priority);

    // backward > 0
    assert!(cfg.backward_priority > 0);
}

#[test]
fn test_get_piece_priority_with_elevated() {
    let mut pm = manager();
    let info_hash = "test_elev";
    pm.elevated
        .insert(info_hash.to_string(), vec![0, 7, 0, 3]);

    assert_eq!(pm.get_piece_priority(info_hash, 0), 0);
    assert_eq!(pm.get_piece_priority(info_hash, 1), 7);
    assert_eq!(pm.get_piece_priority(info_hash, 2), 0);
    assert_eq!(pm.get_piece_priority(info_hash, 3), 3);
    // Out of bounds returns 0.
    assert_eq!(pm.get_piece_priority(info_hash, 4), 0);
    assert_eq!(pm.get_piece_priority(info_hash, -1), 0);
}

#[test]
fn test_prefetch_window_to_pieces() {
    let cfg = PiecePriorityConfig::default();
    // 4 MiB window with 256 KiB pieces = 16 pieces.
    // We test the math: ceil(4 * 1024 * 1024 / piece_length).
    let piece_length: u64 = 262144; // 256 KiB
    assert_eq!(prefetch_pieces(cfg.prefetch_window_mb, piece_length), 16);
    assert_eq!(prefetch_pieces(cfg.prefetch_window_mb, piece_length + 1), 16);
    assert_eq!(prefetch_pieces(cfg.prefetch_window_mb, piece_length - 1), 17);
}

#[test]
fn split_piece_key_parses_info_hash_and_index() {
    assert_eq!(
        split_key("abcdef0123456789:piece:42"),
        Some(("abcdef0123456789".to_string(), 42))
    );
    // Non-`piece` segment or missing index are rejected.
    assert_eq!(split_key("abc:data:0"), None);
    assert_eq!(split_key("abc:piece:x"), None);
    assert_eq!(split_key("abc"), None);
    assert_eq!(split_key(""), None);
}

#[test]
fn keys_come_apart_as_they_were_put_together() {
    for index in [0, 7, 2147483647, -1] {
        assert_eq!(
            split_key(&make_piece_key("00ff", index)),
            Some(("00ff".to_string(), index))
        );
    }
}

#[test]
fn failed_range_reads_say_what_failed() {
    let pm = manager();
    assert_eq!(
        pm.read_piece_range("k", 0, 2, Ok(vec![1, 2])).unwrap(),
        vec![1, 2]
    );
    let text = |fault| {
        pm.read_piece_range("k", 8, 2, Err((fault, "why".to_string())))
            .unwrap_err()
            .to_text()
    };
    assert_eq!(
        text(RangeFault::Open),
        "IO error: Failed to open cached piece k for range read: why"
    );
    assert_eq!(
        text(RangeFault::Seek),
        "IO error: Failed to seek in cached piece k: why"
    );
    assert_eq!(
        text(RangeFault::Read),
        "IO error: Failed to read cached piece k (wanted 2 bytes at offset 8): why"
    );
}

fn target() -> ReadTarget {
    ReadTarget {
        info_hash: vec![0xab, 0xcd],
        piece_length: 10,
        num_pieces: 12,
        file: FilePieceInfo {
            first_piece: 0,
            num_pieces: 12,
            file_offset: 0,
        },
        file_size: 120,
    }
}

#[test]
fn a_read_raises_its_file_by_distance() {
    let mut cache = CacheManager::new(1024 * 1024);
    cache.add_piece("abcd:piece:4", 10, 1);
    let mut config = PiecePriorityConfig::default();
    config.prefetch_window_mb = 0;
    let mut pm = PiecesManager::new(cache, config);

    let changes = pm.apply_read_priority(&target(), 25, 10);
    let priorities: Vec<i32> = changes.iter().map(|c| c.priority).collect();
    assert_eq!(priorities, vec![1, 1, 7, 7, 0, 5, 4, 3, 2, 2, 2, 2]);
    let pieces: Vec<i32> = changes.iter().map(|c| c.piece).collect();
    assert_eq!(pieces, (0..12).collect::<Vec<i32>>());
    for (p, priority) in priorities.iter().enumerate() {
        assert_eq!(pm.get_piece_priority("abcd", p as i32), *priority);
    }
    assert!(pm.has_piece("abcd", 4));
    assert!(!pm.has_piece("abcd", 5));
}

#[test]
fn a_read_fetches_ahead_within_the_window() {
    let mut pm = manager();
    // Four MiB reach beyond the whole file.
    let changes = pm.apply_read_priority(&target(), 0, 10);
    let priorities: Vec<i32> = changes.iter().map(|c| c.priority).collect();
    assert_eq!(priorities, vec![7, 6, 5, 4, 3, 3, 3, 3, 3, 3, 3, 3]);
}

#[test]
fn a_read_behind_the_end_changes_nothing() {
    let mut pm = manager();
    assert!(pm.apply_read_priority(&target(), 120, 10).is_empty());
    assert_eq!(pm.elevated.len(), 0);
}

#[test]
fn cached_pieces_and_closed_torrents_are_wanted_no_more() {
    let mut pm = manager();
    pm.apply_read_priority(&target(), 0, 10);
    assert!(pm.add_piece("abcd", 1, 10, 5));
    assert_eq!(pm.get_piece_priority("abcd", 1), 0);
    assert_eq!(pm.get_cache_manager().current_size(), 10);

    // A piece that came into the cache by another way.
    pm.cache_manager.add_piece("abcd:piece:2", 10, 6);
    assert_eq!(pm.deprioritize_cached("abcd"), vec![2]);
    assert_eq!(pm.get_piece_priority("abcd", 2), 0);

    let lowered = pm.reset_all("abcd");
    assert_eq!(lowered.len(), 10);
    for p in 0..12 {
        assert_eq!(pm.get_piece_priority("abcd", p), 0);
    }
}

#[test]
fn recorded_priorities_need_not_reach_beyond_the_file() {
    let mut pm = manager();
    pm.init_upload_mode("abcd", 5);
    let mut t = target();
    // The file's last piece lies beyond the five that are recorded.
    assert!(!pm.reaches(&t, 0));
    // Behind the end of the file nothing is raised.
    assert!(pm.reaches(&t, 120));
    t.file.num_pieces = 5;
    t.file_size = 50;
    assert!(pm.reaches(&t, 0));
    let changes = pm.apply_read_priority(&t, 40, 10);
    let priorities: Vec<i32> = changes.iter().map(|c| c.priority).collect();
    assert_eq!(priorities, vec![1, 1, 1, 1, 7]);
    // A file without pieces raises none, wherever it lies.
    t.file.first_piece = 8;
    t.file.num_pieces = 0;
    assert!(pm.reaches(&t, 0));
    assert!(pm.apply_read_priority(&t, 0, 10).is_empty());
}

#[test]
fn adding_a_piece_touches_nothing_else_of_the_cache() {
    let mut pm = manager();
    pm.cache_manager.add_piece("other:piece:0", 1, 1);
    pm.cache_manager.record_access("other:piece:0", 2).unwrap();
    assert!(!pm.add_piece("abcd", 3, 10, 5));
    assert!(pm.cache_manager.is_piece_verified("abcd:piece:3"));
    assert!(pm.cache_manager.is_piece_verified("other:piece:0"));
    assert_eq!(pm.cache_manager.max_cache_size(), 1024 * 1024);
    assert_eq!((pm.cache_manager.hit_count, pm.cache_manager.miss_count), (1, 2));
    // A piece that was known is no miss.
    pm.add_piece("abcd", 3, 10, 6);
    assert_eq!((pm.cache_manager.hit_count, pm.cache_manager.miss_count), (1, 2));
}

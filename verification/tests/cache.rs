//! The index of the cache.

use torrentfs::domain::error::TorrentError;
use torrentfs::infrastructure::cache::{
    format_metadata_line, migration_target, parse_metadata_line, CacheManager, PieceMetadata,
    PiecesDirectory, ScannedFile,
};

/// Adds a piece and makes room for it, as the owner of the files does.
fn add(cache: &mut CacheManager, key: &str, size: u64, now: u64) -> Vec<String> {
    cache.add_piece(key, size, now);
    let mut gone = Vec::new();
    while let Some(oldest) = cache.evict_lru() {
        let file_size = cache.piece_metadata_size(&oldest);
        cache.delete_piece(&oldest, file_size);
        gone.push(oldest);
    }
    gone
}

fn scanned(name: &str, size: u64) -> ScannedFile {
    ScannedFile {
        name: name.to_string(),
        size,
        seen_at: 77,
    }
}

#[test]
fn test_cache_manager_basic() {
    let mut cache = CacheManager::new(1024 * 1024);
    assert_eq!(cache.piece_count(), 0);

    let test_key = "abc123:piece:0";
    add(&mut cache, test_key, 100, 1);

    assert!(cache.has_piece(test_key));
    assert_eq!(cache.piece_count(), 1);
}

#[test]
fn test_lru_eviction() {
    let mut cache = CacheManager::new(250);
    let piece_1_key = "hash1:piece:0";
    add(&mut cache, piece_1_key, 100, 1);
    let piece_2_key = "hash1:piece:1";
    add(&mut cache, piece_2_key, 100, 6);

    assert!(cache.has_piece(piece_1_key));
    assert!(cache.has_piece(piece_2_key));
    assert_eq!(cache.current_size(), 200);

    let piece_3_key = "hash1:piece:2";
    assert_eq!(add(&mut cache, piece_3_key, 100, 11), vec![piece_1_key]);

    assert!(
        !cache.has_piece(piece_1_key),
        "piece_1 should be evicted (oldest)"
    );
    assert!(cache.has_piece(piece_2_key), "piece_2 should remain");
    assert!(cache.has_piece(piece_3_key), "piece_3 should remain");
    assert_eq!(cache.current_size(), 200);
}

#[test]
fn test_persistence_across_restart() {
    let mut cache = CacheManager::new(1024 * 1024);
    add(&mut cache, "def456:piece:0", 50, 9);
    let content = cache.metadata_text();
    assert_eq!(content, "def456:piece:0\t9\t50\t0\n");

    let mut cache = CacheManager::new(1024 * 1024);
    cache.rebuild_index(Some(content), &vec![scanned("def456:piece:0", 50)]);
    assert!(cache.has_piece("def456:piece:0"));
    assert_eq!(cache.current_size(), 50);
}

#[test]
fn test_unverified_pieces_mark_verified_and_delete() {
    let piece_key = "cafe1234:piece:3";
    // A piece that was found is registered but NOT verified.
    let mut cache = CacheManager::new(1024 * 1024);
    cache.rebuild_index(None, &vec![scanned(piece_key, 100)]);
    assert!(cache.has_piece(piece_key));
    assert!(!cache.is_piece_verified(piece_key));
    assert_eq!(cache.unverified_pieces(), vec![piece_key.to_string()]);

    // Mark verified after a successful check of its hash.
    cache.mark_verified(piece_key);
    assert!(cache.is_piece_verified(piece_key));
    assert!(cache.unverified_pieces().is_empty());

    // A corrupted piece is purged.
    cache.delete_piece(piece_key, Some(100));
    assert!(!cache.has_piece(piece_key));
    assert!(!cache.is_piece_verified(piece_key));
    assert_eq!(cache.current_size(), 0);
}

#[test]
fn test_remove_infohash_pieces_purges_dir_and_metadata() {
    let mut cache = CacheManager::new(1024 * 1024);
    let key_a = "aaaa1111:piece:0";
    let key_b = "bbbb2222:piece:0";
    add(&mut cache, key_a, 100, 1);
    add(&mut cache, key_b, 50, 2);
    assert_eq!(cache.current_size(), 150);

    assert!(cache.may_purge("aaaa1111"));
    cache.remove_infohash_pieces("aaaa1111", PiecesDirectory::Directory);

    assert!(!cache.has_piece(key_a));
    assert!(!cache.is_piece_verified(key_a));

    // A different info_hash must be left untouched.
    assert!(cache.has_piece(key_b));
    assert!(cache.is_piece_verified(key_b));
    assert_eq!(cache.current_size(), 50);
}

#[test]
fn test_remove_infohash_pieces_idempotent_and_refuses_escape() {
    let mut cache = CacheManager::new(1024 * 1024);
    // No pieces for this hash: a no-op, not an error.
    cache.remove_infohash_pieces("missing_hash", PiecesDirectory::Absent);
    assert_eq!(cache.piece_count(), 0);

    // A path with separators must be refused and never resolved against a
    // parent directory.
    assert!(!cache.may_purge("../outside.txt"));
    assert!(!cache.may_purge(".."));
    assert!(!cache.may_purge(""));
}

#[test]
fn test_add_piece_marks_verified() {
    let mut cache = CacheManager::new(1024 * 1024);
    let piece_key = "deadbeef:piece:0";
    add(&mut cache, piece_key, 20, 1);
    assert!(cache.is_piece_verified(piece_key));
    assert!(cache.unverified_pieces().is_empty());
}

#[test]
fn test_record_access_updates_lru() {
    let mut cache = CacheManager::new(250);
    let piece_1_key = "hash2:piece:0";
    add(&mut cache, piece_1_key, 100, 1);
    let piece_2_key = "hash2:piece:1";
    add(&mut cache, piece_2_key, 100, 6);
    cache.record_access(piece_1_key, 11).unwrap();
    let piece_3_key = "hash2:piece:2";
    add(&mut cache, piece_3_key, 100, 16);

    assert!(
        cache.has_piece(piece_1_key),
        "piece_1 should remain (accessed recently)"
    );
    assert!(
        !cache.has_piece(piece_2_key),
        "piece_2 should be evicted (oldest after piece_1 access)"
    );
    assert!(cache.has_piece(piece_3_key), "piece_3 should remain");
    assert_eq!(cache.piece_hit_count(piece_1_key), 1);
    assert!(matches!(
        cache.record_access("hash2:piece:9", 20),
        Err(TorrentError::IoError(m)) if m == "Piece not found in cache: hash2:piece:9"
    ));
}

#[test]
fn test_piece_directory_structure() {
    let cache = CacheManager::new(1024 * 1024);
    let info_hash = "abc123def456";
    let piece_key = format!("{}:piece:0", info_hash);
    let path = cache.piece_path(&piece_key);
    assert_eq!(path.directory, info_hash);
    assert_eq!(path.file, piece_key);
    assert_eq!(cache.extract_info_hash(":piece:0"), "unknown");
    assert_eq!(cache.extract_piece_index("h:piece:12"), 12);
    assert_eq!(cache.extract_piece_index("h:piece:x"), -1);
}

#[test]
fn test_multiple_torrents_separate_directories() {
    let mut cache = CacheManager::new(1024 * 1024);
    let hash1 = "torrent_hash_1";
    let hash2 = "torrent_hash_2";

    let piece1_key = format!("{}:piece:0", hash1);
    let piece2_key = format!("{}:piece:0", hash2);
    add(&mut cache, &piece1_key, 100, 1);
    add(&mut cache, &piece2_key, 100, 2);

    let path1 = cache.piece_path(&piece1_key);
    let path2 = cache.piece_path(&piece2_key);
    assert_eq!(path1.directory, hash1);
    assert_eq!(path2.directory, hash2);
    assert_eq!(path1.file, piece1_key);
    assert_eq!(path2.file, piece2_key);
    assert!(cache.has_piece(&piece1_key));
    assert!(cache.has_piece(&piece2_key));
}

#[test]
fn test_backward_compatibility_migration() {
    // A piece file in the cache directory itself moves to its torrent's directory.
    let info_hash = "oldhash123";
    let piece_key = format!("{}:piece:0", info_hash);
    assert_eq!(migration_target(&piece_key), Some(info_hash.to_string()));
    assert_eq!(migration_target("cache_metadata.txt"), None);

    // The scan then finds it where pieces are looked for.
    let mut cache = CacheManager::new(1024 * 1024);
    assert_eq!(cache.piece_path(&piece_key).directory, info_hash);
    assert_eq!(cache.piece_path(&piece_key).file, piece_key);
    cache.rebuild_index(None, &vec![scanned(&piece_key, 100)]);
    assert!(
        cache.has_piece(&piece_key),
        "migrated piece should be in metadata"
    );
    assert_eq!(cache.piece_metadata_size(&piece_key), Some(100));
}

#[test]
fn test_partial_piece_registered_by_scan_has_wrong_size() {
    let piece_key = "partial_hash:piece:0";
    let mut cache = CacheManager::new(1024 * 1024);
    cache.rebuild_index(None, &vec![scanned(piece_key, 32768)]);
    assert!(cache.has_piece(piece_key));
    let size = cache
        .piece_metadata_size(piece_key)
        .expect("piece should have metadata");
    assert_eq!(
        size, 32768,
        "registered size should match the partial file, not the expected piece length"
    );
}

#[test]
fn test_complete_piece_registered_by_scan_has_correct_size() {
    let piece_key = "complete_hash:piece:0";
    let mut cache = CacheManager::new(1024 * 1024);
    cache.rebuild_index(None, &vec![scanned(piece_key, 262144)]);
    assert_eq!(cache.piece_metadata_size(piece_key), Some(262144));
    assert!(
        !cache.is_piece_verified(piece_key),
        "scanned piece should NOT be verified even with correct size"
    );
}

#[test]
fn test_piece_verified_after_add_piece() {
    let mut cache = CacheManager::new(1024 * 1024);
    let piece_key = "tsi2048_addpiece:piece:0";

    // Before add_piece: no metadata, not verified.
    assert!(!cache.has_piece(piece_key));
    assert!(!cache.is_piece_verified(piece_key));

    // add_piece (called after read_piece succeeds).
    add(&mut cache, piece_key, 262144, 1);

    // After add_piece: has metadata AND verified.
    assert!(cache.has_piece(piece_key));
    assert!(
        cache.is_piece_verified(piece_key),
        "piece registered via add_piece should be verified"
    );
    assert_eq!(cache.piece_metadata_size(piece_key), Some(262144));
}

#[test]
fn lines_of_the_index_come_back() {
    let meta = PieceMetadata {
        last_accessed: u64::MAX,
        size: 0,
        hit_count: 7,
    };
    let line = format_metadata_line("h:piece:1", meta);
    assert_eq!(line, "h:piece:1\t18446744073709551615\t0\t7");
    assert_eq!(parse_metadata_line(&line), Some(("h:piece:1".to_string(), meta)));
    // A line without a count is from an older index.
    assert_eq!(
        parse_metadata_line("k\t1\t2").unwrap().1,
        PieceMetadata { last_accessed: 1, size: 2, hit_count: 0 }
    );
    assert_eq!(parse_metadata_line("k\t1"), None);
    assert_eq!(parse_metadata_line("k\tx\t2"), None);
}

#[test]
fn torrents_are_summed_up_each_for_itself() {
    let mut cache = CacheManager::new(1024 * 1024);
    add(&mut cache, "a:piece:0", 10, 1);
    add(&mut cache, "a:piece:1", 20, 2);
    add(&mut cache, "ab:piece:0", 5, 3);
    cache.record_access("a:piece:1", 4).unwrap();
    let stats = cache.get_cache_stats_by_infohash("a");
    assert_eq!((stats.piece_count, stats.total_size, stats.hit_count), (2, 30, 1));
    assert_eq!(cache.infohash_total_size("a"), 30);
    let mut hashes = cache.get_all_infohashes();
    hashes.sort();
    assert_eq!(hashes, vec!["a", "ab"]);
    assert_eq!(cache.eviction_notice("a:piece:1"), Some(("a".to_string(), 1)));
    cache.remove_infohash_metadata("a");
    assert_eq!(cache.piece_count(), 1);
    assert_eq!(cache.max_cache_size(), 1024 * 1024);
}

#[test]
fn accesses_are_counted_by_piece_and_together() {
    let mut cache = CacheManager::new(1024);
    add(&mut cache, "a:piece:0", 10, 1);
    add(&mut cache, "b:piece:0", 20, 2);
    let (hits, misses) = (cache.hit_count, cache.miss_count);
    let keys = ["a:piece:0", "b:piece:0", "c:piece:0", "a:piece:0", "a:piece:0"];
    for (i, key) in keys.into_iter().enumerate() {
        assert_eq!(cache.record_access(key, 3 + i as u64).is_ok(), key != "c:piece:0");
    }
    assert_eq!(cache.piece_hit_count("a:piece:0"), 3);
    assert_eq!(cache.piece_hit_count("b:piece:0"), 1);
    assert_eq!(cache.piece_hit_count("c:piece:0"), 0);
    assert_eq!((cache.hit_count - hits, cache.miss_count - misses), (4, 1));
    assert_eq!(cache.piece_count(), 2);
}

#[test]
fn torrents_add_up_to_the_cache() {
    let mut cache = CacheManager::new(1024);
    for (key, size) in [("a:piece:0", 10), ("b:piece:3", 7), ("a:piece:1", 20), ("c", 1)] {
        add(&mut cache, key, size, 1);
    }
    cache.record_access("a:piece:1", 2).unwrap();
    cache.record_access("c", 3).unwrap();
    let mut sum = (0, 0, 0);
    for info_hash in ["a", "b", "c"] {
        let stats = cache.get_cache_stats_by_infohash(info_hash);
        sum.0 += stats.piece_count;
        sum.1 += stats.total_size;
        sum.2 += stats.hit_count;
    }
    assert_eq!(sum, (4, 38, 2));
    assert_eq!(cache.piece_count(), 4);
}

#[test]
fn eviction_takes_no_more_than_the_oldest_pieces() {
    let mut cache = CacheManager::new(250);
    for (i, key) in ["a:piece:0", "a:piece:1", "b:piece:0", "b:piece:1"].into_iter().enumerate() {
        cache.add_piece(key, 100, 10 + i as u64);
    }
    cache.record_access("a:piece:0", 20).unwrap();
    let mut gone = Vec::new();
    while let Some(key) = cache.evict_lru() {
        assert!(cache.current_size() > 250);
        cache.delete_piece(&key, Some(100));
        gone.push(key);
    }
    // The first one was read again, so it outlives the two that came after it.
    assert_eq!(gone, vec!["a:piece:1", "b:piece:0"]);
    assert!(cache.has_piece("a:piece:0") && cache.has_piece("b:piece:1"));
    assert_eq!(cache.current_size(), 200);
    assert!(cache.current_size() + 100 > cache.max_cache_size());
}

//! Checks of cached pieces, counters and texts.

use torrentfs::infrastructure::cache::CacheManager;
use torrentfs::infrastructure::digest::hash_text_of;
use torrentfs::infrastructure::metrics::MetricsSnapshot;
use torrentfs::infrastructure::verification::{
    check_piece, content_is_good, enter_verdict, judge_piece, verdict_for, ExpectedPiece,
    FileRemoval, PieceCheck, PieceFinding, PieceVerdict, VerificationTally,
};
use torrentfs::table::TextMap;
use torrentfs::text::{
    comes_before, decimal, decimal_signed, decimal_wide, join_all, lines, parse_i32, parse_number,
    split_on, strip_prefix, strip_suffix,
};

fn bytes(hex: &str) -> Vec<u8> {
    (0..hex.len() / 2)
        .map(|i| u8::from_str_radix(&hex[2 * i..2 * i + 2], 16).unwrap())
        .collect()
}

#[test]
fn pieces_are_checked_by_size_and_hash() {
    // The digest of "abc".
    let hash = bytes("a9993e364706816aba3e25717850c26c9cd0d89d");
    let expected = ExpectedPiece { hash: Some(hash.clone()), size: Some(3) };
    assert_eq!(check_piece(&expected, Some(3)), PieceCheck::Hash);
    assert_eq!(check_piece(&expected, Some(2)), PieceCheck::Skip);
    assert_eq!(check_piece(&expected, None), PieceCheck::Purge);
    assert_eq!(
        check_piece(&ExpectedPiece { hash: None, size: Some(3) }, Some(3)),
        PieceCheck::Skip
    );
    assert!(content_is_good(&Some(b"abc".to_vec()), &hash));
    assert!(!content_is_good(&Some(b"abd".to_vec()), &hash));
    assert!(!content_is_good(&None, &hash));
}

#[test]
fn only_whole_pieces_are_found_good_or_bad() {
    let hash = bytes("a9993e364706816aba3e25717850c26c9cd0d89d");
    let expected = ExpectedPiece { hash: Some(hash), size: Some(3) };
    let abc = Some(b"abc".to_vec());
    assert_eq!(judge_piece(&expected, Some(3), &abc), PieceFinding::Good);
    let abd = Some(b"abd".to_vec());
    assert_eq!(judge_piece(&expected, Some(3), &abd), PieceFinding::Bad);
    assert_eq!(judge_piece(&expected, Some(3), &None), PieceFinding::Bad);
    assert_eq!(judge_piece(&expected, None, &None), PieceFinding::Bad);
    assert_eq!(judge_piece(&expected, Some(2), &abc), PieceFinding::Unknown);
    let unknown = ExpectedPiece { hash: None, size: None };
    assert_eq!(judge_piece(&unknown, None, &None), PieceFinding::Unknown);
}

#[test]
fn verdicts_are_entered_and_counted() {
    let mut cache = CacheManager::new(100);
    cache.add_piece("h:piece:0", 5, 1);
    let tally = VerificationTally { verified: 0, purged: 0, skipped: 0 };
    let tally = enter_verdict(&mut cache, "h:piece:0", PieceVerdict::Verified, tally);
    assert!(cache.is_piece_verified("h:piece:0"));
    let tally = enter_verdict(
        &mut cache,
        "h:piece:0",
        PieceVerdict::Purged { file_size: Some(5) },
        tally,
    );
    assert!(!cache.has_piece("h:piece:0"));
    assert_eq!(cache.current_size(), 0);
    let tally = enter_verdict(&mut cache, "h:piece:1", PieceVerdict::Skipped, tally);
    assert_eq!(tally, VerificationTally { verified: 1, purged: 1, skipped: 1 });
}

#[test]
fn bad_pieces_are_purged_where_their_files_can_be_removed() {
    let gone = FileRemoval::Gone { file_size: Some(5) };
    assert_eq!(verdict_for(PieceFinding::Good, gone), PieceVerdict::Verified);
    assert_eq!(verdict_for(PieceFinding::Unknown, gone), PieceVerdict::Skipped);
    assert_eq!(
        verdict_for(PieceFinding::Bad, gone),
        PieceVerdict::Purged { file_size: Some(5) }
    );
    let stuck = verdict_for(PieceFinding::Bad, FileRemoval::Failed);
    assert_eq!(stuck, PieceVerdict::Stuck);

    // A piece whose file stays is counted as purged and stays known.
    let mut cache = CacheManager::new(100);
    cache.add_piece("h:piece:0", 5, 1);
    let tally = VerificationTally { verified: 0, purged: 0, skipped: 0 };
    let tally = enter_verdict(&mut cache, "h:piece:0", stuck, tally);
    assert_eq!(tally, VerificationTally { verified: 0, purged: 1, skipped: 0 });
    assert!(cache.has_piece("h:piece:0"));
    assert_eq!(cache.current_size(), 5);
}

#[test]
fn hashes_are_written_in_lower_case() {
    assert_eq!(hash_text_of(&vec![0x00, 0x0f, 0xab, 0xff]), "000fabff");
    assert_eq!(hash_text_of(&vec![]), "");
}

#[test]
fn counters_start_at_zero() {
    let m = MetricsSnapshot::new();
    assert_eq!((m.l1_hits, m.poll_checks, m.lock_wait_nanos), (0, 0, 0));
}

#[test]
fn texts_come_apart_and_together() {
    assert_eq!(split_on("a//b", '/'), vec!["a", "", "b"]);
    assert_eq!(split_on("", '/'), vec![""]);
    assert_eq!(join_all(&split_on("a//b/", '/'), "/"), "a//b/");
    assert_eq!(strip_prefix("os/x", "os/"), Some("x".to_string()));
    assert_eq!(strip_suffix("a.torrent", ".torrent"), Some("a".to_string()));
    assert_eq!(strip_suffix("a", ".torrent"), None);
    let text = "a\r\nb\n\nc";
    assert_eq!(lines(text), text.lines().map(str::to_string).collect::<Vec<_>>());
    assert_eq!(lines(""), Vec::<String>::new());
}

#[test]
fn numerals_are_those_of_the_standard_library() {
    for n in [0, 9, 10, 101, u64::MAX] {
        assert_eq!(decimal(n), n.to_string());
        assert_eq!(parse_number(&n.to_string(), u64::MAX), Some(n));
    }
    for n in [i64::MIN, -1, 0, i64::MAX] {
        assert_eq!(decimal_signed(n), n.to_string());
    }
    for n in [0u128, u64::MAX as u128 + 1, u128::MAX] {
        assert_eq!(decimal_wide(n), n.to_string());
    }
    for s in ["", "+", "+5", "007", "-1", "1 ", "18446744073709551616", "5x"] {
        assert_eq!(parse_number(s, u64::MAX), s.parse::<u64>().ok(), "{:?}", s);
        assert_eq!(parse_i32(s), s.parse::<i32>().ok(), "{:?}", s);
    }
    assert_eq!(parse_i32("-2147483648"), Some(i32::MIN));
    assert_eq!(parse_i32("-2147483649"), None);
    for (a, b) in [("a", "b"), ("a", "ab"), ("", "x"), ("é", "z")] {
        assert_eq!(comes_before(a, b), a < b);
        assert_eq!(comes_before(b, a), b < a);
    }
}

#[test]
fn a_table_keeps_the_last_value() {
    let mut t: TextMap<u64> = TextMap::new();
    t.insert("a".to_string(), 1);
    t.insert("b".to_string(), 2);
    t.insert("a".to_string(), 3);
    assert_eq!(t.len(), 2);
    assert_eq!(t.get("a"), Some(&3));
    assert_eq!(t.remove("a"), Some(3));
    assert_eq!(t.remove("a"), None);
    assert!(!t.contains_key("a"));
}

//! Ranges of pieces, and waiting for them.

use torrentfs::domain::error::TorrentError;
use torrentfs::domain::pieces_manager::FilePieceInfo;
use torrentfs::download::manager::{
    piece_fetched, piece_file_read, piece_source, DownloadManager, HandlePlan, PieceBytes,
    PieceSource,
};
use torrentfs::download::range::{plan_range, PieceRange, RangePlan};
use torrentfs::download::types::TorrentState;
use torrentfs::download::wait::{
    check_peers, state_step, unregistered_pieces, urgent_pieces, PeerReport, PeerStep, PeerWait,
    PieceWait, StateStep, WaitAnswer, WaitStep, SECOND,
};
use torrentfs::infrastructure::cache::CacheManager;

fn info(file_offset: i64) -> FilePieceInfo {
    FilePieceInfo {
        first_piece: 0,
        num_pieces: 1,
        file_offset,
    }
}

fn range(plan: RangePlan) -> PieceRange {
    match plan {
        RangePlan::Pieces(r) => r,
        RangePlan::Nothing => panic!("nothing to read"),
    }
}

#[test]
fn any_range_gives_the_bytes_of_its_pieces() {
    let content: Vec<u8> = (0..97u8).collect();
    for piece_length in [1usize, 7, 10, 96, 97, 200] {
        let pieces: Vec<Vec<u8>> = content.chunks(piece_length).map(|c| c.to_vec()).collect();
        for file_offset in [0usize, 5, 30] {
            for offset in [0usize, 1, 9, 50] {
                for size in [0usize, 1, 10, 33, 200] {
                    let plan = plan_range(
                        info(file_offset as i64),
                        piece_length as i64,
                        pieces.len() as i64,
                        offset as u64,
                        size as u32,
                    )
                    .unwrap();
                    let r = range(plan);
                    let mut answer = Vec::new();
                    for index in r.start_piece..=r.end_piece {
                        if r.append_piece(&mut answer, index, &pieces[index as usize]) {
                            break;
                        }
                    }
                    let from = file_offset + offset;
                    let to = (from + size).min(content.len());
                    assert_eq!(answer, &content[from..to]);
                }
            }
        }
    }
}

#[test]
fn reads_at_the_end_of_the_torrent_give_nothing() {
    let content: Vec<u8> = (0..97u8).collect();
    let pieces: Vec<Vec<u8>> = content.chunks(10).map(|c| c.to_vec()).collect();
    // The last piece holds seven bytes, so that the end and what follows it lie in that piece.
    for offset in [97u64, 98, 99] {
        for size in [0u32, 1, 10, 200] {
            let r = range(plan_range(info(0), 10, pieces.len() as i64, offset, size).unwrap());
            assert_eq!((r.start_piece, r.end_piece), (9, 9));
            let mut answer = Vec::new();
            assert!(!r.append_piece(&mut answer, 9, &pieces[9]));
            assert!(answer.is_empty());
        }
    }
    // One byte earlier there is one byte to read.
    let r = range(plan_range(info(0), 10, pieces.len() as i64, 96, 200).unwrap());
    let mut answer = Vec::new();
    assert!(!r.append_piece(&mut answer, 9, &pieces[9]));
    assert_eq!(answer, vec![96]);
    // A read that starts in no piece is refused.
    assert!(matches!(
        plan_range(info(0), 10, pieces.len() as i64, 100, 1),
        Err(TorrentError::InvalidFile(_))
    ));
}

#[test]
fn ranges_outside_the_torrent_are_refused() {
    assert!(matches!(
        plan_range(info(0), 10, 0, 0, 1),
        Err(TorrentError::InvalidFile(m)) if m == "Invalid torrent: num_pieces = 0"
    ));
    assert!(matches!(
        plan_range(info(20), 10, 3, 15, 1),
        Err(TorrentError::InvalidFile(m))
            if m == "start_piece 3 exceeds num_pieces 3 (absolute_offset=35, piece_length=10)"
    ));
    // A range that would end in a piece beyond counting comes to nothing.
    assert_eq!(
        plan_range(info(0), 1, 5, 0, 4_000_000_000).unwrap(),
        RangePlan::Nothing
    );
}

#[test]
fn reads_wait_for_a_torrent_to_settle() {
    assert!(matches!(state_step(TorrentState::Seeding, 0, 30), StateStep::Ready));
    assert!(matches!(state_step(TorrentState::CheckingFiles, 30, 30), StateStep::Wait));
    assert!(matches!(
        state_step(TorrentState::CheckingFiles, 31, 30),
        StateStep::Stuck(TorrentError::InvalidFile(m))
            if m == "Torrent stuck in state CheckingFiles for 30 seconds"
    ));
}

fn report(num_peers: i32, num_seeds: i32) -> PeerReport {
    PeerReport {
        state: TorrentState::from(3),
        num_peers,
        num_seeds,
        progress: "12.50".to_string(),
    }
}

#[test]
fn the_wait_for_peers_ends_early_where_it_is_in_vain() {
    let mut wait = PeerWait::new(0, 30);
    assert_eq!(wait.next_round(9 * SECOND), PeerStep::Poll);
    assert_eq!(wait.next_round(10 * SECOND), PeerStep::Over);
    assert_eq!(wait.polled(1, &Some(report(1, 0))), PeerStep::Poll);
    assert_eq!(wait.polled(2, &Some(report(0, 0))), PeerStep::Poll);
    assert_eq!(wait.polled(3, &Some(report(0, 0))), PeerStep::AskCache);
    assert_eq!(wait.cache_checked(4, true), PeerStep::Poll);
    assert_eq!(wait.cache_checked(4, false), PeerStep::Over);
    assert_eq!(wait.polled(5, &Some(report(2, 0))), PeerStep::Over);
    assert_eq!(wait.polled(6, &None), PeerStep::Over);
    // A shorter limit on reads holds here too.
    assert_eq!(PeerWait::new(0, 3).next_round(3 * SECOND), PeerStep::Over);
}

#[test]
fn reads_without_peers_need_their_pieces() {
    assert!(check_peers(&report(2, 0), false).is_ok());
    assert!(check_peers(&report(0, 0), true).is_ok());
    assert!(matches!(
        check_peers(&report(1, 0), false),
        Err(TorrentError::NoPeers(m)) if m
            == "Torrent has 1 peers and 0 seeds (progress: 12.50%, state: Downloading). The \
                tracker may be unreachable or the torrent has no active peers."
    ));
}

#[test]
fn a_piece_is_waited_for_until_the_time_is_up() {
    let mut wait = PieceWait::new(4, 5, report(2, 1));
    assert!(matches!(wait.answer(0, WaitAnswer::Cache(false)), WaitStep::AskPeers));
    assert!(matches!(
        wait.answer(0, WaitAnswer::Peers(Ok(report(2, 1)))),
        WaitStep::Nap
    ));
    // No word on the peers is asked for within two seconds.
    assert!(matches!(wait.answer(SECOND, WaitAnswer::Have(false)), WaitStep::AskCache));
    assert!(matches!(wait.answer(SECOND, WaitAnswer::Cache(false)), WaitStep::Nap));
    assert!(matches!(wait.answer(2 * SECOND, WaitAnswer::Have(false)), WaitStep::AskPeers));
    // Peers that vanish are forgiven for a while.
    assert!(matches!(
        wait.answer(2 * SECOND, WaitAnswer::Peers(Ok(report(0, 0)))),
        WaitStep::AskCache
    ));
    assert!(matches!(wait.answer(5 * SECOND, WaitAnswer::Cache(false)), WaitStep::AskPeers));
    assert!(matches!(
        wait.answer(5 * SECOND, WaitAnswer::Peers(Ok(report(3, 0)))),
        WaitStep::Fail(TorrentError::InvalidFile(m))
            if m == "Timed out waiting for piece 4 after 5s. Torrent progress: 12.50%, peers: 3, \
                     seeds: 0"
    ));
}

#[test]
fn a_piece_that_comes_ends_the_wait() {
    let mut wait = PieceWait::new(4, 30, report(2, 1));
    assert!(matches!(wait.answer(0, WaitAnswer::Cache(true)), WaitStep::Done));
    let mut wait = PieceWait::new(4, 30, report(2, 1));
    wait.answer(0, WaitAnswer::Cache(false));
    wait.answer(0, WaitAnswer::Peers(Err(TorrentError::NullPointer)));
    assert!(matches!(wait.answer(1, WaitAnswer::Have(true)), WaitStep::Done));
    // An answer that was not asked for changes nothing.
    let mut wait = PieceWait::new(4, 30, report(2, 1));
    assert!(matches!(wait.answer(0, WaitAnswer::Have(true)), WaitStep::AskCache));
}

#[test]
fn a_piece_without_peers_is_given_up() {
    let mut wait = PieceWait::new(4, 30, report(2, 1));
    wait.answer(0, WaitAnswer::Cache(false));
    assert!(matches!(
        wait.answer(0, WaitAnswer::Peers(Ok(report(1, 0)))),
        WaitStep::Fail(TorrentError::NoPeers(m))
            if m == "No peers available and piece 4 is not in cache. Torrent progress: 12.50%, \
                     state: Downloading"
    ));
    let mut wait = PieceWait::new(4, 30, report(2, 1));
    wait.answer(0, WaitAnswer::Cache(false));
    wait.answer(0, WaitAnswer::Peers(Ok(report(2, 1))));
    wait.answer(11 * SECOND, WaitAnswer::Have(false));
    assert!(matches!(
        wait.answer(11 * SECOND, WaitAnswer::Peers(Ok(report(0, 0)))),
        WaitStep::Fail(TorrentError::NoPeers(m))
            if m == "Peers dropped to 0 while waiting for piece 4. Torrent progress: 12.50%, \
                     state: Downloading"
    ));
}

#[test]
fn missing_pieces_are_named() {
    let mut cache = CacheManager::new(100);
    cache.add_piece("h:piece:1", 1, 1);
    assert_eq!(unregistered_pieces(&cache, "h", 0, 3), vec![0, 2, 3]);
    assert_eq!(urgent_pieces(5, &vec![true, false, false]), vec![6, 7]);
}

#[test]
fn handles_are_made_once() {
    let mut m = DownloadManager::new(None);
    assert_eq!(m.read_timeout_secs, 30);
    let (hash, plan) = m.ensure_handle_lightweight(&vec![0xab, 0x01]);
    assert_eq!(hash, "ab01");
    assert_eq!(plan, HandlePlan::CustomStorageUploadOnly);
    m.handle_created(&hash, 7, plan);
    assert_eq!(m.get_or_create_handle(&vec![0xab, 0x01]).1, HandlePlan::Existing(7));
    assert_eq!(m.get_or_create_handle(&vec![0xcd]).1, HandlePlan::OwnDirectory);
    assert_eq!(m.ensure_handle_lightweight(&vec![0xcd]).1, HandlePlan::UploadOnly);
    assert_eq!(m.query_handle("ab01"), Some(7));
    assert_eq!(m.query_handle("cd"), None);
    assert_eq!(m.get_all_handles(), vec![("ab01".to_string(), 7)]);
    assert_eq!(m.get_cache_manager().max_cache_size(), 1024 * 1024 * 1024);
    let fresh = DownloadManager::new(Some(9));
    assert_eq!(fresh.get_or_create_handle(&vec![1]).1, HandlePlan::CustomStorage);
    assert_eq!(fresh.read_timeout_secs, 9);
}

#[test]
fn pieces_come_from_where_they_are() {
    let mut cache = CacheManager::new(100);
    let key = "h:piece:0";
    assert_eq!(piece_source(&cache, key, false), PieceSource::Session);
    assert_eq!(piece_source(&cache, key, true), PieceSource::OnDisk);
    // A found file that cannot be read fails the read.
    assert!(matches!(
        piece_file_read(&mut cache, key, Err("gone".to_string()), 1),
        PieceBytes::Failed(TorrentError::IoError(m))
            if m == "Failed to read cached piece h:piece:0 from disk: gone"
    ));
    // One that can is in the index from then on.
    assert!(matches!(
        piece_file_read(&mut cache, key, Ok(vec![1, 2]), 2),
        PieceBytes::Data(d) if d == vec![1, 2]
    ));
    assert_eq!(piece_source(&cache, key, false), PieceSource::Cached);
    assert_eq!(cache.piece_hit_count(key), 0);
    piece_file_read(&mut cache, key, Ok(vec![1, 2]), 3);
    assert_eq!(cache.piece_hit_count(key), 1);
    // An indexed file that cannot be read is fetched again.
    assert!(matches!(
        piece_file_read(&mut cache, key, Err("gone".to_string()), 4),
        PieceBytes::AskSession
    ));
    piece_fetched(&mut cache, "h:piece:1", 5, 5);
    assert_eq!(cache.piece_metadata_size("h:piece:1"), Some(5));
}

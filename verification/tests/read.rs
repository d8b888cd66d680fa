//! Reads from their start to their answer.

use torrentfs::domain::error::TorrentError;
use torrentfs::domain::pieces_manager::FilePieceInfo;
use torrentfs::download::manager::DownloadManager;
use torrentfs::download::read::{FileRead, Places, ReadAction, ReadEvent};
use torrentfs::download::types::TorrentState;
use torrentfs::download::wait::{PeerReport, SECOND};

/// A torrent of 40 bytes in pieces of 8; the file begins at byte 10.
struct Swarm {
    content: Vec<u8>,
    /// The pieces that the session has.
    have: Vec<bool>,
    /// The pieces that are in the cache or on disk.
    cached: Vec<bool>,
    state: TorrentState,
    num_peers: i32,
    num_seeds: i32,
    /// After as many naps the session has every piece.
    naps_until_all: Option<u32>,
    naps: u32,
    now: u64,
    urged: Vec<i32>,
    fetched: Vec<i32>,
    polls: u32,
}

fn swarm() -> Swarm {
    Swarm {
        content: (0..40).collect(),
        have: vec![true; 5],
        cached: vec![false; 5],
        state: TorrentState::Downloading,
        num_peers: 3,
        num_seeds: 1,
        naps_until_all: None,
        naps: 0,
        now: 0,
        urged: vec![],
        fetched: vec![],
        polls: 0,
    }
}

impl Swarm {
    fn status(&self) -> ReadEvent {
        ReadEvent::Status(Ok(PeerReport {
            state: self.state,
            num_peers: self.num_peers,
            num_seeds: self.num_seeds,
            progress: "50.00".to_string(),
        }))
    }

    fn has(&self, piece: i32) -> ReadEvent {
        ReadEvent::HavePiece(self.have[piece as usize])
    }

    fn all_cached(&self, start: i32, end: i32) -> ReadEvent {
        ReadEvent::AllCached((start..=end).all(|p| self.cached[p as usize]))
    }

    fn act(&mut self, action: ReadAction) -> ReadEvent {
        match action {
            ReadAction::AskStatus => self.status(),
            ReadAction::NapThenStatus => {
                self.now += SECOND / 10;
                self.status()
            }
            ReadAction::PollStatus => {
                self.polls += 1;
                self.now += SECOND / 2;
                self.status()
            }
            ReadAction::NapThenPlaces => {
                self.now += SECOND / 10;
                ReadEvent::Places(Ok(Places {
                    file: FilePieceInfo {
                        first_piece: 1,
                        num_pieces: 4,
                        file_offset: 10,
                    },
                    piece_length: 8,
                    num_pieces: 5,
                }))
            }
            ReadAction::AskAllCached { start, end } => self.all_cached(start, end),
            ReadAction::AskHave { start, end } => {
                ReadEvent::Have(self.have[start as usize..=end as usize].to_vec())
            }
            ReadAction::Urge { pieces, probe } => {
                self.urged = pieces;
                self.has(probe)
            }
            ReadAction::AskHavePiece { piece } => self.has(piece),
            ReadAction::AskCached { piece } => ReadEvent::Cached(self.cached[piece as usize]),
            ReadAction::NapThenHave { piece } => {
                self.naps += 1;
                self.now += SECOND / 5;
                if self.naps_until_all == Some(self.naps) {
                    self.have = vec![true; 5];
                }
                self.has(piece)
            }
            ReadAction::Fetch { piece } => {
                self.fetched.push(piece);
                let from = piece as usize * 8;
                ReadEvent::Bytes(Ok(self.content[from..from + 8].to_vec()))
            }
            ReadAction::Done(_) | ReadAction::Failed(_) | ReadAction::Nothing => {
                panic!("the read is over")
            }
        }
    }

    fn read(&mut self, offset: u64, size: u32) -> Result<Vec<u8>, TorrentError> {
        let manager = DownloadManager::new(Some(20));
        let (mut read, mut action): (FileRead, ReadAction) =
            manager.read_file_range(true, offset, size);
        loop {
            match action {
                ReadAction::Done(bytes) => return Ok(bytes),
                ReadAction::Failed(e) => return Err(e),
                _ => {}
            }
            let event = self.act(action);
            (read, action) = read.step(self.now, event);
        }
    }
}

#[test]
fn a_read_gives_the_bytes_of_the_file() {
    let mut s = swarm();
    assert_eq!(s.read(3, 10).unwrap(), (13..23).collect::<Vec<u8>>());
    assert_eq!(s.fetched, vec![1, 2]);
    assert!(s.urged.is_empty());
    assert_eq!(s.read(0, 1).unwrap(), vec![10]);
    assert_eq!(s.read(25, 100).unwrap(), vec![35, 36, 37, 38, 39]);
    assert_eq!(s.read(4, 0).unwrap(), Vec::<u8>::new());
}

#[test]
fn a_read_waits_for_its_missing_pieces_and_urges_them() {
    let mut s = swarm();
    s.have[2] = false;
    s.have[3] = false;
    s.naps_until_all = Some(12);
    assert_eq!(s.read(0, 20).unwrap(), (10..30).collect::<Vec<u8>>());
    assert_eq!(s.urged, vec![2, 3]);
    assert_eq!(s.naps, 12);
    assert_eq!(s.fetched, vec![1, 2, 3]);
}

#[test]
fn a_read_without_peers_is_refused() {
    let mut s = swarm();
    s.num_peers = 0;
    s.num_seeds = 0;
    match s.read(0, 20) {
        Err(TorrentError::NoPeers(m)) => assert_eq!(
            m,
            "Torrent has 0 peers and 0 seeds (progress: 50.00%, state: Downloading). \
             The tracker may be unreachable or the torrent has no active peers."
        ),
        other => panic!("{other:?}"),
    }
    assert_eq!(s.polls, 3);
    assert!(s.fetched.is_empty());
    assert!(s.urged.is_empty());
}

#[test]
fn cached_pieces_are_read_without_peers() {
    let mut s = swarm();
    s.num_peers = 0;
    s.num_seeds = 0;
    s.have = vec![false; 5];
    s.cached = vec![true; 5];
    assert_eq!(s.read(0, 20).unwrap(), (10..30).collect::<Vec<u8>>());
    assert_eq!(s.polls, 20);
    assert_eq!(s.naps, 0);
}

#[test]
fn a_piece_that_does_not_come_fails_after_the_timeout() {
    let mut s = swarm();
    s.have[2] = false;
    match s.read(0, 20) {
        Err(TorrentError::InvalidFile(m)) => assert_eq!(
            m,
            "Timed out waiting for piece 2 after 20s. Torrent progress: 50.00%, peers: 3, seeds: 1"
        ),
        other => panic!("{other:?}"),
    }
    assert!(s.fetched.is_empty());
}

#[test]
fn a_torrent_that_never_settles_fails_after_the_timeout() {
    let mut s = swarm();
    s.state = TorrentState::CheckingFiles;
    match s.read(0, 20) {
        Err(TorrentError::InvalidFile(m)) => {
            assert_eq!(m, "Torrent stuck in state CheckingFiles for 20 seconds")
        }
        other => panic!("{other:?}"),
    }
    assert_eq!(s.now / SECOND, 21);
}

#[test]
fn a_read_beyond_the_torrent_fails() {
    match swarm().read(40, 8) {
        Err(TorrentError::InvalidFile(m)) => assert_eq!(
            m,
            "start_piece 6 exceeds num_pieces 5 (absolute_offset=50, piece_length=8)"
        ),
        other => panic!("{other:?}"),
    }
}

#[test]
fn a_read_of_a_torrent_that_the_session_lost_fails() {
    let manager = DownloadManager::new(None);
    match manager.read_file_range(false, 0, 1).1 {
        ReadAction::Failed(TorrentError::InvalidFile(m)) => {
            assert_eq!(m, "Torrent handle is invalid")
        }
        other => panic!("{other:?}"),
    }
}

#[test]
fn a_question_that_is_not_answered_is_asked_again() {
    let manager = DownloadManager::new(None);
    let (read, _) = manager.read_file_range(true, 0, 1);
    let (read, action) = read.step(0, ReadEvent::AllCached(true));
    assert!(matches!(action, ReadAction::AskStatus));
    let (read, action) = read.step(0, swarm().status());
    assert!(matches!(action, ReadAction::NapThenPlaces));
    let (read, action) = read.step(0, swarm().status());
    assert!(matches!(action, ReadAction::NapThenPlaces));
    let (read, action) = read.step(
        0,
        ReadEvent::Places(Err(TorrentError::IoError("gone".to_string()))),
    );
    assert!(matches!(action, ReadAction::Failed(TorrentError::IoError(_))));
    let (_, action) = read.step(0, swarm().status());
    assert!(matches!(action, ReadAction::Nothing));
}

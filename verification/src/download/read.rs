//! A read of a file of a torrent, from its start to its answer.
//!
//! The read decides, and its caller acts: the caller does what the read asks for, and hands back
//! what came of it. Times are in nanoseconds, counted from the start of the read.

use vstd::prelude::*;

use super::manager::DownloadManager;
use super::range;
use super::range::{plan_range, PieceRange, RangePlan};
use super::wait;
use super::wait::{
    check_peers,
    state_step,
    urgent_pieces,
    PeerReport,
    PeerStep,
    PeerWait,
    PieceWait,
    StateStep,
    WaitAnswer,
    WaitPhase,
    WaitStep,
    SECOND,
};
use crate::domain::error::TorrentError;
use crate::domain::pieces_manager::FilePieceInfo;
use crate::text;

verus! {

/// Where the read file lies in its torrent, and how the torrent is cut.
#[derive(Debug, Clone, Copy, PartialEq, Eq, Structural)]
pub struct Places {
    pub file: FilePieceInfo,
    pub piece_length: i64,
    pub num_pieces: i64,
}

/// How far a read has come.
#[derive(Debug)]
pub enum ReadPhase {
    /// The torrent's files may still be looked through.
    Settling,
    /// The pieces of the read are not known yet.
    Placing { report: PeerReport },
    /// Nobody has the torrent: peers are waited for.
    Seeking { range: PieceRange, search: PeerWait, report: PeerReport },
    /// Peers have not come: whether the pieces are there decides.
    Weighing { range: PieceRange, search: PeerWait, report: PeerReport },
    /// The torrent's peers are asked for once more.
    Refreshing { range: PieceRange, report: PeerReport },
    /// Nobody else has the torrent: whether the pieces are there decides.
    Checking { range: PieceRange, report: PeerReport },
    /// Which pieces the session has is asked for.
    Surveying { range: PieceRange, report: PeerReport },
    /// All pieces before this one are there.
    Probing { range: PieceRange, report: PeerReport, piece: i32 },
    /// A piece is waited for; all before it are there.
    Waiting { range: PieceRange, wait: PieceWait },
    /// All pieces are there, and those before this one are in the answer.
    Gathering { range: PieceRange, answer: Vec<u8>, piece: i32 },
    Over,
}

/// A read of `size` bytes at `offset` of a file, which may wait for `timeout` seconds.
#[derive(Debug)]
pub struct FileRead {
    pub timeout: u64,
    pub offset: u64,
    pub size: u32,
    pub phase: ReadPhase,
}

/// What a read asks for.
#[derive(Debug)]
pub enum ReadAction {
    /// Ask the session for the torrent's status.
    AskStatus,
    /// Sleep for 100 milliseconds, then ask for the status.
    NapThenStatus,
    /// Sleep for half a second, then ask for the status.
    PollStatus,
    /// Sleep for 100 milliseconds, then ask for the places of the file.
    NapThenPlaces,
    /// Ask whether all these pieces are in the cache or on disk.
    AskAllCached { start: i32, end: i32 },
    /// Ask for each of these pieces whether the session has it.
    AskHave { start: i32, end: i32 },
    /// Have these pieces fetched at once, then ask whether the session has the piece `probe`.
    Urge { pieces: Vec<i32>, probe: i32 },
    /// Ask whether the session has a piece.
    AskHavePiece { piece: i32 },
    /// Ask whether a piece is in the cache or on disk.
    AskCached { piece: i32 },
    /// Sleep for 200 milliseconds, then ask whether the session has a piece.
    NapThenHave { piece: i32 },
    /// Get the bytes of a piece.
    Fetch { piece: i32 },
    /// The read is answered.
    Done(Vec<u8>),
    Failed(TorrentError),
    /// The read has been answered before.
    Nothing,
}

/// What came of what a read asked for.
#[derive(Debug)]
pub enum ReadEvent {
    Status(Result<PeerReport, TorrentError>),
    Places(Result<Places, TorrentError>),
    AllCached(bool),
    Have(Vec<bool>),
    HavePiece(bool),
    Cached(bool),
    Bytes(Result<Vec<u8>, TorrentError>),
}

/// What a wait for a piece asks for.
pub open spec fn wait_asks(phase: WaitPhase, piece: i32) -> ReadAction {
    match phase {
        WaitPhase::Cache | WaitPhase::Recheck => ReadAction::AskCached { piece },
        WaitPhase::Peers | WaitPhase::Refresh | WaitPhase::Last => ReadAction::AskStatus,
        WaitPhase::Nap => ReadAction::NapThenHave { piece },
    }
}

impl ReadPhase {
    /// What a read in this phase waits to be told.
    pub open spec fn asks(&self) -> ReadAction {
        match *self {
            ReadPhase::Settling => ReadAction::AskStatus,
            ReadPhase::Placing { .. } => ReadAction::NapThenPlaces,
            ReadPhase::Seeking { .. } => ReadAction::PollStatus,
            ReadPhase::Weighing { range, .. } => ReadAction::AskAllCached {
                start: range.start_piece,
                end: range.end_piece,
            },
            ReadPhase::Refreshing { .. } => ReadAction::AskStatus,
            ReadPhase::Checking { range, .. } => ReadAction::AskAllCached {
                start: range.start_piece,
                end: range.end_piece,
            },
            ReadPhase::Surveying { range, .. } => ReadAction::AskHave {
                start: range.start_piece,
                end: range.end_piece,
            },
            ReadPhase::Probing { piece, .. } => ReadAction::AskHavePiece { piece },
            ReadPhase::Waiting { wait, .. } => wait_asks(wait.phase, wait.piece),
            ReadPhase::Gathering { piece, .. } => ReadAction::Fetch { piece },
            ReadPhase::Over => ReadAction::Nothing,
        }
    }

    /// The pieces of a phase belong to its range, peers are missing where that is checked, and an
    /// answer is not complete yet.
    pub open spec fn wf(&self) -> bool {
        match *self {
            ReadPhase::Settling | ReadPhase::Placing { .. } | ReadPhase::Over => true,
            ReadPhase::Seeking { range, .. } => in_order(range),
            ReadPhase::Weighing { range, .. } => in_order(range),
            ReadPhase::Refreshing { range, .. } => in_order(range),
            ReadPhase::Checking { range, report } => in_order(range) && report.alone(),
            ReadPhase::Surveying { range, .. } => in_order(range),
            ReadPhase::Probing { range, piece, .. } => in_order(range) && range.start_piece <= piece
                <= range.end_piece,
            ReadPhase::Waiting { range, wait } => in_order(range) && range.start_piece <= wait.piece
                <= range.end_piece,
            ReadPhase::Gathering { range, answer, piece } => in_order(range) && range.start_piece
                <= piece <= range.end_piece && !range.complete(answer@),
        }
    }

    fn question(&self) -> (r: ReadAction)
        ensures
            r == self.asks(),
    {
        match self {
            ReadPhase::Settling => ReadAction::AskStatus,
            ReadPhase::Placing { .. } => ReadAction::NapThenPlaces,
            ReadPhase::Seeking { .. } => ReadAction::PollStatus,
            ReadPhase::Weighing { range, .. } => ReadAction::AskAllCached {
                start: range.start_piece,
                end: range.end_piece,
            },
            ReadPhase::Refreshing { .. } => ReadAction::AskStatus,
            ReadPhase::Checking { range, .. } => ReadAction::AskAllCached {
                start: range.start_piece,
                end: range.end_piece,
            },
            ReadPhase::Surveying { range, .. } => ReadAction::AskHave {
                start: range.start_piece,
                end: range.end_piece,
            },
            ReadPhase::Probing { piece, .. } => ReadAction::AskHavePiece { piece: *piece },
            ReadPhase::Waiting { wait, .. } => match wait.phase {
                WaitPhase::Cache | WaitPhase::Recheck => ReadAction::AskCached {
                    piece: wait.piece,
                },
                WaitPhase::Peers | WaitPhase::Refresh | WaitPhase::Last => ReadAction::AskStatus,
                WaitPhase::Nap => ReadAction::NapThenHave { piece: wait.piece },
            },
            ReadPhase::Gathering { piece, .. } => ReadAction::Fetch { piece: *piece },
            ReadPhase::Over => ReadAction::Nothing,
        }
    }
}

/// The first piece and byte of a range do not come after the last.
pub open spec fn in_order(range: PieceRange) -> bool {
    range.start_piece <= range.end_piece && range.absolute_offset <= range.end_offset
}

/// What the session told last: its new word, or else what it told before.
pub open spec fn latest(told: Result<PeerReport, TorrentError>, before: PeerReport) -> PeerReport {
    match told {
        Ok(report) => report,
        Err(_) => before,
    }
}

/// A read that fails with an error.
pub open spec fn fails(phase: ReadPhase, action: ReadAction, e: TorrentError) -> bool {
    phase is Over && action == ReadAction::Failed(e)
}

/// A read that asks for what its phase waits for.
pub open spec fn stays(phase: ReadPhase, action: ReadAction, at: ReadPhase) -> bool {
    phase == at && action == at.asks()
}

/// A read in the middle of its wait for peers.
pub open spec fn seeks(
    phase: ReadPhase,
    action: ReadAction,
    range: PieceRange,
    search: PeerWait,
    report: PeerReport,
    step: PeerStep,
) -> bool {
    stays(
        phase,
        action,
        match step {
            PeerStep::Poll => ReadPhase::Seeking { range, search, report },
            PeerStep::AskCache => ReadPhase::Weighing { range, search, report },
            PeerStep::Over => ReadPhase::Refreshing { range, report },
        },
    )
}

/// A read that has found a piece: the next piece is looked for, or the bytes are gathered.
pub open spec fn passes(
    phase: ReadPhase,
    action: ReadAction,
    range: PieceRange,
    report: PeerReport,
    piece: i32,
) -> bool {
    if piece < range.end_piece {
        stays(phase, action, ReadPhase::Probing { range, report, piece: (piece + 1) as i32 })
    } else {
        &&& phase matches ReadPhase::Gathering { range: r, answer, piece: p } && r == range
            && answer@ == Seq::<u8>::empty() && p == range.start_piece
        &&& action == ReadAction::Fetch { piece: range.start_piece }
    }
}

/// The places of a file allow the arithmetic of a read.
pub open spec fn countable(places: Places, offset: u64, size: u32) -> bool {
    &&& range::place(places.file, offset) <= u64::MAX
    &&& (places.num_pieces as i32) > 0 ==> places.piece_length != 0 && range::place(
        places.file,
        offset,
    ) + size <= u64::MAX
}

impl FileRead {
    /// The range of a read, once the places of its file are known.
    pub open spec fn range(&self, places: Places) -> PieceRange {
        range::range_of(
            places.file,
            places.piece_length,
            places.num_pieces,
            self.offset,
            self.size,
        )
    }

    /// What follows on the torrent's first status, or on one after a nap.
    pub open spec fn settles(
        &self,
        now: u64,
        report: PeerReport,
        phase: ReadPhase,
        action: ReadAction,
    ) -> bool {
        if !report.state.unsettled() {
            stays(phase, action, ReadPhase::Placing { report })
        } else if now / SECOND > self.timeout {
            &&& phase is Over
            &&& action matches ReadAction::Failed(TorrentError::InvalidFile(m)) && m@
                == wait::stuck_text(report.state, self.timeout)
        } else {
            phase is Settling && action is NapThenStatus
        }
    }

    /// What follows on the places of the file.
    pub open spec fn places(
        &self,
        now: u64,
        report: PeerReport,
        places: Places,
        phase: ReadPhase,
        action: ReadAction,
    ) -> bool {
        let range = self.range(places);
        let count = places.num_pieces as i32;
        if count <= 0 {
            &&& phase is Over
            &&& action matches ReadAction::Failed(TorrentError::InvalidFile(m)) && m@
                == "Invalid torrent: num_pieces = "@ + text::dec_signed(count as int)
        } else if range.start_piece >= count {
            &&& phase is Over
            &&& action matches ReadAction::Failed(TorrentError::InvalidFile(m)) && m@
                == range::beyond_text(range, count)
        } else if range.start_piece > range.end_piece {
            &&& phase is Over
            &&& action matches ReadAction::Done(bytes) && bytes@ == Seq::<u8>::empty()
        } else if report.deserted() {
            let search = PeerWait { started: now, grace: wait::grace_of(self.timeout), polls: 0 };
            seeks(phase, action, range, search, report, search.round(now))
        } else {
            stays(phase, action, ReadPhase::Refreshing { range, report })
        }
    }

    /// What follows on the answer of the session while peers are waited for.
    pub open spec fn sought(
        &self,
        now: u64,
        range: PieceRange,
        search: PeerWait,
        report: PeerReport,
        told: Result<PeerReport, TorrentError>,
        phase: ReadPhase,
        action: ReadAction,
    ) -> bool {
        let next = PeerWait { polls: (search.polls + 1) as u32, ..search };
        let step = match told {
            Err(_) => PeerStep::Over,
            Ok(p) => if p.num_peers > 1 || p.num_seeds > 0 {
                PeerStep::Over
            } else if next.polls >= wait::POLLS_BEFORE_CACHE {
                PeerStep::AskCache
            } else {
                next.round(now)
            },
        };
        seeks(phase, action, range, next, latest(told, report), step)
    }

    /// What follows on the answer to a question of the wait for a piece.
    pub open spec fn waited(
        &self,
        now: u64,
        range: PieceRange,
        wait: PieceWait,
        answer: WaitAnswer,
        phase: ReadPhase,
        action: ReadAction,
    ) -> bool {
        exists|next: PieceWait, step: WaitStep| #[trigger]
            next.follows(wait, now, answer, step) && match step {
                WaitStep::Done => passes(phase, action, range, next.report, next.piece),
                WaitStep::Fail(e) => fails(phase, action, e),
                _ => stays(phase, action, ReadPhase::Waiting { range, wait: next }),
            }
    }

    /// What follows on the bytes of a piece.
    pub open spec fn gathers(
        &self,
        range: PieceRange,
        answer: Seq<u8>,
        piece: i32,
        data: Seq<u8>,
        phase: ReadPhase,
        action: ReadAction,
    ) -> bool {
        let more = answer + range.chunk(piece as int, data);
        if range.complete(more) || piece == range.end_piece {
            &&& phase is Over
            &&& action matches ReadAction::Done(bytes) && bytes@ == more
        } else {
            &&& phase matches ReadPhase::Gathering { range: r, answer: a, piece: p } && r == range
                && a@ == more && p == piece + 1
            &&& action == ReadAction::Fetch { piece: (piece + 1) as i32 }
        }
    }

    /// What follows in a read on what came of its question, at the time `now`. What does not
    /// answer the question is passed over, and the question is asked again.
    pub open spec fn turns(
        &self,
        now: u64,
        event: ReadEvent,
        phase: ReadPhase,
        action: ReadAction,
    ) -> bool {
        match (self.phase, event) {
            (ReadPhase::Settling, ReadEvent::Status(told)) => match told {
                Err(e) => fails(phase, action, e),
                Ok(report) => self.settles(now, report, phase, action),
            },
            (ReadPhase::Placing { report }, ReadEvent::Places(told)) => match told {
                Err(e) => fails(phase, action, e),
                Ok(places) => self.places(now, report, places, phase, action),
            },
            (ReadPhase::Seeking { range, search, report }, ReadEvent::Status(told)) => self.sought(
                now,
                range,
                search,
                report,
                told,
                phase,
                action,
            ),
            (ReadPhase::Weighing { range, search, report }, ReadEvent::AllCached(there)) => seeks(
                phase,
                action,
                range,
                search,
                report,
                if there {
                    search.round(now)
                } else {
                    PeerStep::Over
                },
            ),
            (ReadPhase::Refreshing { range, report }, ReadEvent::Status(told)) => {
                let report = latest(told, report);
                stays(
                    phase,
                    action,
                    if report.alone() {
                        ReadPhase::Checking { range, report }
                    } else {
                        ReadPhase::Surveying { range, report }
                    },
                )
            },
            (ReadPhase::Checking { range, report }, ReadEvent::AllCached(there)) => if there {
                stays(phase, action, ReadPhase::Surveying { range, report })
            } else {
                &&& phase is Over
                &&& action matches ReadAction::Failed(TorrentError::NoPeers(m)) && m@
                    == wait::no_peers_text(report)
            },
            (ReadPhase::Surveying { range, report }, ReadEvent::Have(have)) if have@.len()
                == range.end_piece - range.start_piece + 1 => {
                &&& phase == (ReadPhase::Probing { range, report, piece: range.start_piece })
                &&& action matches ReadAction::Urge { pieces, probe } && pieces@ == wait::urgent(
                    range.start_piece,
                    have@,
                ) && probe == range.start_piece
            },
            (ReadPhase::Probing { range, report, piece }, ReadEvent::HavePiece(there)) => if there {
                passes(phase, action, range, report, piece)
            } else {
                stays(
                    phase,
                    action,
                    ReadPhase::Waiting {
                        range,
                        wait: PieceWait {
                            piece,
                            timeout: self.timeout,
                            started: 0,
                            checked: 0,
                            report,
                            phase: WaitPhase::Cache,
                        },
                    },
                )
            },
            (ReadPhase::Waiting { range, wait }, ReadEvent::Status(told)) => self.waited(
                now,
                range,
                wait,
                WaitAnswer::Peers(told),
                phase,
                action,
            ),
            (ReadPhase::Waiting { range, wait }, ReadEvent::Cached(there)) => self.waited(
                now,
                range,
                wait,
                WaitAnswer::Cache(there),
                phase,
                action,
            ),
            (ReadPhase::Waiting { range, wait }, ReadEvent::HavePiece(there)) => self.waited(
                now,
                range,
                wait,
                WaitAnswer::Have(there),
                phase,
                action,
            ),
            (ReadPhase::Gathering { range, answer, piece }, ReadEvent::Bytes(told)) => match told {
                Err(e) => fails(phase, action, e),
                Ok(data) => self.gathers(range, answer@, piece, data@, phase, action),
            },
            _ => stays(phase, action, self.phase),
        }
    }

    /// The read after what came of its question, and what it asks for then.
    pub open spec fn leads_to(
        &self,
        now: u64,
        event: ReadEvent,
        after: FileRead,
        action: ReadAction,
    ) -> bool {
        &&& self.turns(now, event, after.phase, action)
        &&& after.phase.wf()
        &&& after.timeout == self.timeout
        &&& after.offset == self.offset
        &&& after.size == self.size
    }

    /// What came of a question allows the arithmetic of the next step.
    pub open spec fn can_take(&self, event: ReadEvent) -> bool {
        &&& self.phase.wf()
        &&& self.phase is Seeking && event is Status ==> self.phase->Seeking_search.polls < u32::MAX
        &&& self.phase is Placing && event is Places && event->Places_0 is Ok ==> countable(
            event->Places_0->Ok_0,
            self.offset,
            self.size,
        )
        &&& self.phase is Gathering && event is Bytes && event->Bytes_0 is Ok ==> {
            &&& self.phase->Gathering_piece >= 0
            &&& self.phase->Gathering_piece * self.phase->Gathering_range.piece_length
                + event->Bytes_0->Ok_0@.len() <= u64::MAX
        }
    }
}

/// What the session told last: its new word, or else what it told before.
fn newest(told: Result<PeerReport, TorrentError>, before: PeerReport) -> (r: PeerReport)
    ensures
        r == latest(told, before),
{
    match told {
        Ok(report) => report,
        Err(_) => before,
    }
}

/// Goes to a phase and asks for what it waits for.
fn go(phase: ReadPhase) -> (r: (ReadPhase, ReadAction))
    ensures
        stays(r.0, r.1, phase),
{
    let action = phase.question();
    (phase, action)
}

fn seek(range: PieceRange, search: PeerWait, report: PeerReport, step: PeerStep) -> (r: (
    ReadPhase,
    ReadAction,
))
    requires
        in_order(range),
    ensures
        seeks(r.0, r.1, range, search, report, step),
        r.0.wf(),
{
    match step {
        PeerStep::Poll => go(ReadPhase::Seeking { range, search, report }),
        PeerStep::AskCache => go(ReadPhase::Weighing { range, search, report }),
        PeerStep::Over => go(ReadPhase::Refreshing { range, report }),
    }
}

fn pass(range: PieceRange, report: PeerReport, piece: i32) -> (r: (ReadPhase, ReadAction))
    requires
        in_order(range),
        range.start_piece <= piece <= range.end_piece,
    ensures
        passes(r.0, r.1, range, report, piece),
        r.0.wf(),
{
    if piece < range.end_piece {
        go(ReadPhase::Probing { range, report, piece: piece + 1 })
    } else {
        let first: i32 = range.start_piece;
        (
            ReadPhase::Gathering { range, answer: Vec::new(), piece: first },
            ReadAction::Fetch { piece: first },
        )
    }
}

impl FileRead {
    fn settle(&self, now: u64, report: PeerReport) -> (r: (ReadPhase, ReadAction))
        ensures
            self.settles(now, report, r.0, r.1),
            r.0.wf(),
    {
        match state_step(report.state, now / SECOND, self.timeout) {
            StateStep::Ready => go(ReadPhase::Placing { report }),
            StateStep::Wait => (ReadPhase::Settling, ReadAction::NapThenStatus),
            StateStep::Stuck(e) => (ReadPhase::Over, ReadAction::Failed(e)),
        }
    }

    fn place(&self, now: u64, report: PeerReport, places: Places) -> (r: (ReadPhase, ReadAction))
        requires
            countable(places, self.offset, self.size),
        ensures
            self.places(now, report, places, r.0, r.1),
            r.0.wf(),
    {
        let plan = plan_range(
            places.file,
            places.piece_length,
            places.num_pieces,
            self.offset,
            self.size,
        );
        match plan {
            Err(e) => (ReadPhase::Over, ReadAction::Failed(e)),
            Ok(RangePlan::Nothing) => (ReadPhase::Over, ReadAction::Done(Vec::new())),
            Ok(RangePlan::Pieces(range)) => if report.is_deserted() {
                let search = PeerWait::new(now, self.timeout);
                let step = search.next_round(now);
                seek(range, search, report, step)
            } else {
                go(ReadPhase::Refreshing { range, report })
            },
        }
    }

    fn wait_on(&self, now: u64, range: PieceRange, wait: PieceWait, answer: WaitAnswer) -> (r: (
        ReadPhase,
        ReadAction,
    ))
        requires
            in_order(range),
            range.start_piece <= wait.piece <= range.end_piece,
        ensures
            self.waited(now, range, wait, answer, r.0, r.1),
            r.0.wf(),
    {
        let mut next = wait;
        let step = next.answer(now, answer);
        let ghost told = step;
        proof {
            assert(next.follows(wait, now, answer, told));
        }
        match step {
            WaitStep::Done => pass(range, next.report, next.piece),
            WaitStep::Fail(e) => (ReadPhase::Over, ReadAction::Failed(e)),
            _ => go(ReadPhase::Waiting { range, wait: next }),
        }
    }

    fn gather(&self, range: PieceRange, answer: Vec<u8>, piece: i32, data: &Vec<u8>) -> (r: (
        ReadPhase,
        ReadAction,
    ))
        requires
            in_order(range),
            range.start_piece <= piece <= range.end_piece,
            !range.complete(answer@),
            piece >= 0,
            piece * range.piece_length + data@.len() <= u64::MAX,
        ensures
            self.gathers(range, answer@, piece, data@, r.0, r.1),
            r.0.wf(),
    {
        let mut more = answer;
        let done = range.append_piece(&mut more, piece, data);
        if done || piece == range.end_piece {
            (ReadPhase::Over, ReadAction::Done(more))
        } else {
            let next: i32 = piece + 1;
            (
                ReadPhase::Gathering { range, answer: more, piece: next },
                ReadAction::Fetch { piece: next },
            )
        }
    }

    /// Takes what came of the read's question at the time `now`, and asks the next one.
    pub fn step(self, now: u64, event: ReadEvent) -> (r: (FileRead, ReadAction))
        requires
            self.can_take(event),
        ensures
            self.leads_to(now, event, r.0, r.1),
    {
        let FileRead { timeout, offset, size, phase } = self;
        let head = FileRead { timeout, offset, size, phase: ReadPhase::Over };
        let (phase, action) = match (phase, event) {
            (ReadPhase::Settling, ReadEvent::Status(Err(e))) => (
                ReadPhase::Over,
                ReadAction::Failed(e),
            ),
            (ReadPhase::Settling, ReadEvent::Status(Ok(report))) => head.settle(now, report),
            (ReadPhase::Placing { .. }, ReadEvent::Places(Err(e))) => (
                ReadPhase::Over,
                ReadAction::Failed(e),
            ),
            (ReadPhase::Placing { report }, ReadEvent::Places(Ok(places))) => head.place(
                now,
                report,
                places,
            ),
            (ReadPhase::Seeking { range, search, report }, ReadEvent::Status(told)) => {
                let mut next = search;
                let told = match told {
                    Ok(p) => Some(p),
                    Err(_) => None,
                };
                let step = next.polled(now, &told);
                let report = match told {
                    Some(p) => p,
                    None => report,
                };
                seek(range, next, report, step)
            },
            (ReadPhase::Weighing { range, search, report }, ReadEvent::AllCached(there)) => {
                let step = search.cache_checked(now, there);
                seek(range, search, report, step)
            },
            (ReadPhase::Refreshing { range, report }, ReadEvent::Status(told)) => {
                let report = newest(told, report);
                if report.is_alone() {
                    go(ReadPhase::Checking { range, report })
                } else {
                    go(ReadPhase::Surveying { range, report })
                }
            },
            (ReadPhase::Checking { range, report }, ReadEvent::AllCached(there)) => {
                match check_peers(&report, there) {
                    Ok(_) => go(ReadPhase::Surveying { range, report }),
                    Err(e) => (ReadPhase::Over, ReadAction::Failed(e)),
                }
            },
            (ReadPhase::Surveying { range, report }, ReadEvent::Have(have)) => {
                let first: i32 = range.start_piece;
                let count: i64 = range.end_piece as i64 - first as i64 + 1;
                if have.len() as u64 == count as u64 {
                    (
                        ReadPhase::Probing { range, report, piece: first },
                        ReadAction::Urge { pieces: urgent_pieces(first, &have), probe: first },
                    )
                } else {
                    go(ReadPhase::Surveying { range, report })
                }
            },
            (ReadPhase::Probing { range, report, piece }, ReadEvent::HavePiece(there)) => {
                if there {
                    pass(range, report, piece)
                } else {
                    let wait = PieceWait::new(piece, timeout, report);
                    go(ReadPhase::Waiting { range, wait })
                }
            },
            (ReadPhase::Waiting { range, wait }, ReadEvent::Status(told)) => head.wait_on(
                now,
                range,
                wait,
                WaitAnswer::Peers(told),
            ),
            (ReadPhase::Waiting { range, wait }, ReadEvent::Cached(there)) => head.wait_on(
                now,
                range,
                wait,
                WaitAnswer::Cache(there),
            ),
            (ReadPhase::Waiting { range, wait }, ReadEvent::HavePiece(there)) => head.wait_on(
                now,
                range,
                wait,
                WaitAnswer::Have(there),
            ),
            (ReadPhase::Gathering { .. }, ReadEvent::Bytes(Err(e))) => (
                ReadPhase::Over,
                ReadAction::Failed(e),
            ),
            (ReadPhase::Gathering { range, answer, piece }, ReadEvent::Bytes(Ok(data))) =>
                head.gather(range, answer, piece, &data),
            (phase, _) => go(phase),
        };
        (FileRead { timeout, offset, size, phase }, action)
    }
}

impl DownloadManager {
    /// Whether `read` and `action` are how a read of `size` bytes at `offset` begins.
    pub open spec fn begins(
        &self,
        valid: bool,
        offset: u64,
        size: u32,
        read: FileRead,
        action: ReadAction,
    ) -> bool {
        &&& read.timeout == self.read_timeout_secs
        &&& read.offset == offset
        &&& read.size == size
        &&& if valid {
            read.phase is Settling && action is AskStatus
        } else {
            &&& read.phase is Over
            &&& action matches ReadAction::Failed(TorrentError::InvalidFile(m)) && m@
                == "Torrent handle is invalid"@
        }
    }

    /// Begins a read of `size` bytes at `offset` of a file, where `valid` tells whether the
    /// session still knows the torrent.
    pub fn read_file_range(&self, valid: bool, offset: u64, size: u32) -> (r: (
        FileRead,
        ReadAction,
    ))
        ensures
            self.begins(valid, offset, size, r.0, r.1),
    {
        let timeout: u64 = self.read_timeout_secs;
        if valid {
            (
                FileRead { timeout, offset, size, phase: ReadPhase::Settling },
                ReadAction::AskStatus,
            )
        } else {
            (
                FileRead { timeout, offset, size, phase: ReadPhase::Over },
                ReadAction::Failed(
                    TorrentError::InvalidFile("Torrent handle is invalid".to_owned()),
                ),
            )
        }
    }
}

/// A read from its start on: what came of each question, when, and what was asked for then.
pub open spec fn is_run(
    reads: Seq<FileRead>,
    times: Seq<u64>,
    events: Seq<ReadEvent>,
    actions: Seq<ReadAction>,
) -> bool {
    &&& reads.len() == events.len() + 1
    &&& times.len() == events.len()
    &&& actions.len() == events.len()
    &&& reads[0].phase is Settling
    &&& forall|i: int|
        0 <= i < events.len() ==> reads[i].leads_to(
            times[i],
            #[trigger] events[i],
            reads[i + 1],
            actions[i],
        )
}

/// What a read is told is true of a torrent that holds `content`: where the file lies, and the
/// bytes of the pieces.
pub open spec fn is_true(
    read: FileRead,
    event: ReadEvent,
    content: Seq<u8>,
    places: Places,
) -> bool {
    match event {
        ReadEvent::Places(Ok(told)) => told == places,
        ReadEvent::Bytes(Ok(data)) => match read.phase {
            ReadPhase::Gathering { piece, .. } => data@ == range::piece_of(
                content,
                places.piece_length as int,
                piece as int,
            ),
            _ => true,
        },
        _ => true,
    }
}

/// The first `n` pieces of a range.
spec fn first_pieces(content: Seq<u8>, range: PieceRange, n: int) -> Seq<Seq<u8>> {
    Seq::new(
        n as nat,
        |i: int| range::piece_of(content, range.piece_length as int, range.start_piece + i),
    )
}

/// The range is that of the read, which is not refused.
spec fn is_planned(read: FileRead, range: PieceRange, places: Places) -> bool {
    &&& range == read.range(places)
    &&& range.start_piece < places.num_pieces as i32
    &&& 0 < places.num_pieces as i32
}

/// The range of a phase is that of the read, and the answer holds the pieces so far.
spec fn is_on_track(read: FileRead, content: Seq<u8>, places: Places) -> bool {
    match read.phase {
        ReadPhase::Settling | ReadPhase::Placing { .. } | ReadPhase::Over => true,
        ReadPhase::Seeking { range, .. } => is_planned(read, range, places),
        ReadPhase::Weighing { range, .. } => is_planned(read, range, places),
        ReadPhase::Refreshing { range, .. } => is_planned(read, range, places),
        ReadPhase::Checking { range, .. } => is_planned(read, range, places),
        ReadPhase::Surveying { range, .. } => is_planned(read, range, places),
        ReadPhase::Probing { range, .. } => is_planned(read, range, places),
        ReadPhase::Waiting { range, .. } => is_planned(read, range, places),
        ReadPhase::Gathering { range, answer, piece } => is_planned(read, range, places) && answer@
            == range.gathered(first_pieces(content, range, piece - range.start_piece)),
    }
}

/// More pieces add nothing to a complete answer.
proof fn complete_answer_stays(range: PieceRange, pieces: Seq<Seq<u8>>, n: int)
    requires
        0 <= n <= pieces.len(),
        range.complete(range.gathered(pieces.take(n))),
    ensures
        range.gathered(pieces) == range.gathered(pieces.take(n)),
    decreases pieces.len(),
{
    if n == pieces.len() {
        assert(pieces.take(n) =~= pieces);
    } else {
        let rest = pieces.drop_last();
        assert(rest.take(n) =~= pieces.take(n));
        complete_answer_stays(range, rest, n);
    }
}

/// The places are those of a torrent that holds `content`, and counting pieces in 32 bits does the
/// read no harm: it is refused, it is planned beyond the torrent's end as nothing, or its pieces
/// are counted right.
pub open spec fn can_be_read(content: Seq<u8>, places: Places, offset: u64, size: u32) -> bool {
    let total = content.len() as int;
    let from = range::place(places.file, offset);
    let count = places.num_pieces as i32;
    let planned = range::range_of(
        places.file,
        places.piece_length,
        places.num_pieces,
        offset,
        size,
    );
    &&& places.piece_length > 0
    &&& places.num_pieces == range::piece_total(total, places.piece_length as int)
    &&& from + size <= u64::MAX
    &&& {
        ||| count <= 0
        ||| planned.start_piece >= count
        ||| from >= total && planned.start_piece > planned.end_piece
        ||| range::counts_right(
            total,
            places.file,
            places.piece_length,
            places.num_pieces,
            offset,
            size,
        )
    }
}

proof fn step_stays_on_track(
    before: FileRead,
    now: u64,
    event: ReadEvent,
    after: FileRead,
    action: ReadAction,
    content: Seq<u8>,
    places: Places,
)
    requires
        before.phase.wf(),
        before.leads_to(now, event, after, action),
        can_be_read(content, places, before.offset, before.size),
        is_true(before, event, content, places),
        is_on_track(before, content, places),
    ensures
        is_on_track(after, content, places),
        action matches ReadAction::Done(bytes) ==> bytes@ == range::asked_bytes(
            content,
            range::place(places.file, before.offset),
            before.size as int,
        ),
{
    let planned = before.range(places);
    assert(first_pieces(content, planned, 0) =~= Seq::empty());
    match (before.phase, event) {
        (ReadPhase::Gathering { range, answer, piece }, ReadEvent::Bytes(Ok(data))) => {
            let all = first_pieces(content, range, range.end_piece - range.start_piece + 1);
            range::range_gives_the_bytes(
                content,
                places.file,
                places.piece_length,
                places.num_pieces,
                before.offset,
                before.size,
                all,
            );
            let n = piece - range.start_piece;
            let held = first_pieces(content, range, n);
            let more = first_pieces(content, range, n + 1);
            assert(more.drop_last() =~= held);
            assert(more.last() == data@);
            assert(range.gathered(more) == answer@ + range.chunk(piece as int, data@));
            assert(all.take(n + 1) =~= more);
            if range.complete(range.gathered(more)) {
                complete_answer_stays(range, all, n + 1);
            } else if piece == range.end_piece {
                assert(all =~= more);
            }
        },
        (ReadPhase::Placing { .. }, ReadEvent::Places(Ok(_))) => {
            let total = content.len() as int;
            let from = range::place(places.file, before.offset);
            let length = places.piece_length as int;
            let last = (from + before.size - 1) / length;
            if from < total && planned.start_piece > planned.end_piece && before.size > 0 {
                assert(last >= from / length) by (nonlinear_arith)
                    requires
                        length > 0,
                        last == (from + before.size - 1) / length,
                        before.size > 0,
                ;
                assert((planned.end_piece + 1) * length >= total ==> planned.end_piece >= from
                    / length) by (nonlinear_arith)
                    requires
                        length > 0,
                        from < total,
                ;
            }
        },
        _ => {},
    }
}

proof fn run_stays_on_track(
    reads: Seq<FileRead>,
    times: Seq<u64>,
    events: Seq<ReadEvent>,
    actions: Seq<ReadAction>,
    content: Seq<u8>,
    places: Places,
    n: int,
)
    requires
        is_run(reads, times, events, actions),
        can_be_read(content, places, reads[0].offset, reads[0].size),
        forall|i: int|
            0 <= i < events.len() ==> is_true(reads[i], #[trigger] events[i], content, places),
        0 <= n < reads.len(),
    ensures
        is_on_track(reads[n], content, places),
        reads[n].phase.wf(),
        reads[n].offset == reads[0].offset,
        reads[n].size == reads[0].size,
    decreases n,
{
    if n > 0 {
        run_stays_on_track(reads, times, events, actions, content, places, n - 1);
        assert(reads[n - 1].leads_to(times[n - 1], events[n - 1], reads[n - 1 + 1], actions[n - 1]));
        step_stays_on_track(
            reads[n - 1],
            times[n - 1],
            events[n - 1],
            reads[n],
            actions[n - 1],
            content,
            places,
        );
    }
}

/// Whatever happens on the way, a read that succeeds gives the torrent's own bytes: all that were
/// asked for, as far as the torrent has them.
pub proof fn successful_read_gives_the_bytes(
    reads: Seq<FileRead>,
    times: Seq<u64>,
    events: Seq<ReadEvent>,
    actions: Seq<ReadAction>,
    content: Seq<u8>,
    places: Places,
    n: int,
)
    requires
        is_run(reads, times, events, actions),
        can_be_read(content, places, reads[0].offset, reads[0].size),
        forall|i: int|
            0 <= i < events.len() ==> is_true(reads[i], #[trigger] events[i], content, places),
        0 <= n < actions.len(),
    ensures
        actions[n] matches ReadAction::Done(bytes) ==> bytes@ == range::asked_bytes(
            content,
            range::place(places.file, reads[0].offset),
            reads[0].size as int,
        ),
{
    run_stays_on_track(reads, times, events, actions, content, places, n);
    assert(reads[n].leads_to(times[n], events[n], reads[n + 1], actions[n]));
    step_stays_on_track(
        reads[n],
        times[n],
        events[n],
        reads[n + 1],
        actions[n],
        content,
        places,
    );
}

/// The piece that a read looks for, where it looks for one.
pub open spec fn looked_for(phase: ReadPhase) -> Option<i32> {
    match phase {
        ReadPhase::Probing { piece, .. } => Some(piece),
        ReadPhase::Waiting { wait, .. } => Some(wait.piece),
        _ => None,
    }
}

/// A read leaves the piece that it looks for only with the word that the session, the cache or
/// the disk has it, or with a failure. So no piece is fetched before all of them are there.
pub proof fn read_goes_on_only_with_the_piece(
    before: FileRead,
    now: u64,
    event: ReadEvent,
    after: FileRead,
    action: ReadAction,
)
    requires
        before.leads_to(now, event, after, action),
        looked_for(before.phase) is Some,
        looked_for(after.phase) != looked_for(before.phase),
    ensures
        event == ReadEvent::HavePiece(true) || event == ReadEvent::Cached(true)
            || action is Failed,
{
}

/// Nobody else has the torrent, and not all pieces are there.
pub open spec fn is_hopeless(event: ReadEvent) -> bool {
    match event {
        ReadEvent::Status(Ok(report)) => report.alone(),
        ReadEvent::AllCached(there) => !there,
        _ => true,
    }
}

/// A phase in which pieces are not looked for yet, or not any more.
spec fn is_early(phase: ReadPhase) -> bool {
    match phase {
        ReadPhase::Settling | ReadPhase::Over => true,
        ReadPhase::Placing { report } => report.alone(),
        ReadPhase::Seeking { report, .. } => report.alone(),
        ReadPhase::Weighing { report, .. } => report.alone(),
        ReadPhase::Refreshing { report, .. } => report.alone(),
        ReadPhase::Checking { report, .. } => report.alone(),
        _ => false,
    }
}

proof fn hopeless_run_stays_early(
    reads: Seq<FileRead>,
    times: Seq<u64>,
    events: Seq<ReadEvent>,
    actions: Seq<ReadAction>,
    n: int,
)
    requires
        is_run(reads, times, events, actions),
        forall|i: int| 0 <= i < events.len() ==> is_hopeless(#[trigger] events[i]),
        0 <= n < reads.len(),
    ensures
        is_early(reads[n].phase),
    decreases n,
{
    if n > 0 {
        hopeless_run_stays_early(reads, times, events, actions, n - 1);
        assert(reads[n - 1].leads_to(times[n - 1], events[n - 1], reads[n - 1 + 1], actions[n - 1]));
        assert(is_hopeless(events[n - 1]));
    }
}

/// As long as nobody else has the torrent and not all pieces are there, a read fetches nothing,
/// has no piece fetched, and gives no bytes.
pub proof fn hopeless_read_gives_nothing(
    reads: Seq<FileRead>,
    times: Seq<u64>,
    events: Seq<ReadEvent>,
    actions: Seq<ReadAction>,
    n: int,
)
    requires
        is_run(reads, times, events, actions),
        forall|i: int| 0 <= i < events.len() ==> is_hopeless(#[trigger] events[i]),
        0 <= n < actions.len(),
    ensures
        !(actions[n] is Fetch),
        !(actions[n] is Urge),
        actions[n] matches ReadAction::Done(bytes) ==> bytes@.len() == 0,
{
    hopeless_run_stays_early(reads, times, events, actions, n);
    assert(reads[n].leads_to(times[n], events[n], reads[n + 1], actions[n]));
    assert(is_hopeless(events[n]));
}

/// Everything that a read can be told is well: the torrent is settled and others have it, the file
/// lies in the torrent, the session has the pieces, and their bytes can be got.
pub open spec fn is_well(read: FileRead, event: ReadEvent) -> bool {
    match (read.phase, event) {
        (ReadPhase::Settling, ReadEvent::Status(Ok(p))) => !p.state.unsettled(),
        (ReadPhase::Placing { .. }, ReadEvent::Places(Ok(places))) => {
            let from = range::place(places.file, read.offset);
            &&& places.piece_length > 0
            &&& 0 < places.num_pieces <= i32::MAX
            &&& from < places.num_pieces * places.piece_length
            &&& from + read.size <= places.num_pieces * places.piece_length
            &&& from + read.size <= u64::MAX
        },
        (ReadPhase::Seeking { .. }, ReadEvent::Status(Ok(p))) => p.num_peers > 1 || p.num_seeds > 0,
        (ReadPhase::Weighing { .. }, ReadEvent::AllCached(there)) => !there,
        (ReadPhase::Refreshing { .. }, ReadEvent::Status(Ok(p))) => p.num_peers > 1 || p.num_seeds
            > 0,
        (ReadPhase::Checking { .. }, ReadEvent::AllCached(there)) => there,
        (ReadPhase::Surveying { range, .. }, ReadEvent::Have(have)) => have@.len()
            == range.end_piece - range.start_piece + 1,
        (ReadPhase::Probing { .. }, ReadEvent::HavePiece(there)) => there,
        (ReadPhase::Waiting { wait, .. }, ReadEvent::Cached(there)) => there && (wait.phase is Cache
            || wait.phase is Recheck),
        (ReadPhase::Waiting { wait, .. }, ReadEvent::HavePiece(there)) => there && wait.phase
            is Nap,
        (ReadPhase::Gathering { .. }, ReadEvent::Bytes(Ok(_))) => true,
        _ => false,
    }
}

/// How far a read is from its answer: what it still has to find out, and how many of its pieces it
/// still has to find or to gather.
pub open spec fn still_to_go(phase: ReadPhase) -> (int, int) {
    match phase {
        ReadPhase::Settling => (9, 0),
        ReadPhase::Placing { .. } => (8, 0),
        ReadPhase::Weighing { .. } => (7, 0),
        ReadPhase::Seeking { .. } => (6, 0),
        ReadPhase::Refreshing { .. } => (5, 0),
        ReadPhase::Checking { .. } => (4, 0),
        ReadPhase::Surveying { .. } => (3, 0),
        ReadPhase::Probing { range, piece, .. } => (2, range.end_piece - piece),
        ReadPhase::Waiting { range, wait } => (2, range.end_piece - wait.piece),
        ReadPhase::Gathering { range, piece, .. } => (1, range.end_piece - piece),
        ReadPhase::Over => (0, 0),
    }
}

/// Where all is well a read does not fail: each answer takes it nearer to the bytes, and what ends it
/// are the bytes.
pub proof fn well_told_read_comes_to_its_answer(
    before: FileRead,
    now: u64,
    event: ReadEvent,
    after: FileRead,
    action: ReadAction,
)
    requires
        before.phase.wf(),
        before.leads_to(now, event, after, action),
        is_well(before, event),
    ensures
        !(action is Failed),
        after.phase is Over <==> action is Done,
        still_to_go(after.phase).0 < still_to_go(before.phase).0 || (still_to_go(after.phase).0
            == still_to_go(before.phase).0 && 0 <= still_to_go(after.phase).1 < still_to_go(
            before.phase,
        ).1),
        before.phase is Placing ==> !(action is Done),
{
    if let (ReadPhase::Placing { .. }, ReadEvent::Places(Ok(places))) = (before.phase, event) {
        let from = range::place(places.file, before.offset);
        let length = places.piece_length as int;
        let count = places.num_pieces as int;
        assert(0 <= from / length < count) by (nonlinear_arith)
            requires
                0 <= from < count * length,
                length > 0,
        ;
        if before.size > 0 {
            let last = (from + before.size - 1) / length;
            assert(from / length <= last) by (nonlinear_arith)
                requires
                    length > 0,
                    before.size > 0,
                    last == (from + before.size - 1) / length,
            ;
            assert(last < count) by (nonlinear_arith)
                requires
                    length > 0,
                    from + before.size <= count * length,
                    last == (from + before.size - 1) / length,
            ;
        }
    }
}

/// A read that was begun for `size` bytes at `offset` of a file gives, if it succeeds, the bytes that
/// stand there: byte for byte those of the torrent from the file's start and the offset on, as many as
/// were asked for or as the torrent has.
pub proof fn file_is_read_at_the_offset(
    m: DownloadManager,
    offset: u64,
    size: u32,
    first: ReadAction,
    reads: Seq<FileRead>,
    times: Seq<u64>,
    events: Seq<ReadEvent>,
    actions: Seq<ReadAction>,
    content: Seq<u8>,
    places: Places,
    n: int,
)
    requires
        reads.len() > 0,
        m.begins(true, offset, size, reads[0], first),
        is_run(reads, times, events, actions),
        places.file.file_offset >= 0,
        can_be_read(content, places, offset, size),
        forall|i: int|
            0 <= i < events.len() ==> is_true(reads[i], #[trigger] events[i], content, places),
        0 <= n < actions.len(),
    ensures
        actions[n] matches ReadAction::Done(bytes) ==> {
            let from = places.file.file_offset + offset;
            &&& bytes@.len() <= size
            &&& bytes@.len() == size || from + bytes@.len() == content.len() || (from
                >= content.len() && bytes@.len() == 0)
            &&& forall|i: int|
                0 <= i < bytes@.len() ==> from + i < content.len() && #[trigger] bytes@[i]
                    == content[from + i]
        },
{
    successful_read_gives_the_bytes(reads, times, events, actions, content, places, n);
}

} // verus!

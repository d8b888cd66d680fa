//! How long a read waits for its torrent, for peers and for each of its pieces.
//!
//! Times are in nanoseconds, counted from the start of the read.

use vstd::prelude::*;

use super::types::TorrentState;
use crate::domain::error::TorrentError;
use crate::domain::piece_key;
use crate::infrastructure::cache::CacheManager;
use crate::text;

verus! {

pub const SECOND: u64 = 1_000_000_000;

/// How long a read may wait, in seconds, where nothing usable is configured.
pub const DEFAULT_READ_TIMEOUT: u64 = 30;

/// How long peers may take to be found, in seconds.
pub const PEER_GRACE: u64 = 10;

/// How often the session is asked before the cache decides whether waiting for peers is worth it.
pub const POLLS_BEFORE_CACHE: u32 = 3;

pub open spec fn timeout_of(configured: Option<i64>) -> int {
    match configured {
        Some(v) => if v > 0 {
            v as int
        } else {
            DEFAULT_READ_TIMEOUT as int
        },
        None => DEFAULT_READ_TIMEOUT as int,
    }
}

/// The time that a read may wait, in seconds.
pub fn read_timeout(configured: Option<i64>) -> (r: u64)
    ensures
        r == timeout_of(configured),
        r > 0,
{
    match configured {
        Some(v) => if v > 0 {
            v as u64
        } else {
            DEFAULT_READ_TIMEOUT
        },
        None => DEFAULT_READ_TIMEOUT,
    }
}

/// The time that peers may take to be found, in seconds.
pub open spec fn grace_of(timeout: u64) -> u64 {
    if timeout <= PEER_GRACE {
        timeout
    } else {
        PEER_GRACE
    }
}

pub fn peer_grace(timeout: u64) -> (r: u64)
    ensures
        r == grace_of(timeout),
{
    if timeout <= PEER_GRACE {
        timeout
    } else {
        PEER_GRACE
    }
}

/// What the session says of a torrent. The progress is a percentage with its decimals.
#[derive(Debug)]
pub struct PeerReport {
    pub state: TorrentState,
    pub num_peers: i32,
    pub num_seeds: i32,
    pub progress: String,
}

impl PeerReport {
    /// Nobody has the torrent.
    pub open spec fn deserted(&self) -> bool {
        self.num_peers == 0 && self.num_seeds == 0
    }

    /// Nobody else has the torrent: a single peer without seeds is mostly the session itself.
    pub open spec fn alone(&self) -> bool {
        self.num_peers <= 1 && self.num_seeds == 0
    }

    pub fn is_deserted(&self) -> (r: bool)
        ensures
            r == self.deserted(),
    {
        self.num_peers == 0 && self.num_seeds == 0
    }

    pub fn is_alone(&self) -> (r: bool)
        ensures
            r == self.alone(),
    {
        self.num_peers <= 1 && self.num_seeds == 0
    }
}

/// What to do about a torrent's state.
#[derive(Debug)]
pub enum StateStep {
    Ready,
    Wait,
    Stuck(TorrentError),
}

pub open spec fn stuck_text(state: TorrentState, timeout: u64) -> Seq<char> {
    "Torrent stuck in state "@ + state.spelled() + " for "@ + text::dec(timeout as int)
        + " seconds"@
}

/// Decides whether a read can go on, `elapsed` seconds after it began.
pub fn state_step(state: TorrentState, elapsed: u64, timeout: u64) -> (r: StateStep)
    ensures
        if !state.unsettled() {
            r is Ready
        } else if elapsed > timeout {
            r matches StateStep::Stuck(TorrentError::InvalidFile(m)) && m@ == stuck_text(
                state,
                timeout,
            )
        } else {
            r is Wait
        },
{
    if !state.is_unsettled() {
        return StateStep::Ready;
    }
    if elapsed > timeout {
        let mut m = "Torrent stuck in state ".to_owned();
        m.append(state.name());
        m.append(" for ");
        m.append(text::decimal(timeout).as_str());
        m.append(" seconds");
        return StateStep::Stuck(TorrentError::InvalidFile(m));
    }
    StateStep::Wait
}

/// The pieces from `start` to `end`.
pub open spec fn piece_numbers(start: i32, end: i32) -> Seq<i32> {
    Seq::new((end - start + 1) as nat, |i: int| (start + i) as i32)
}

/// The pieces from `start` to `end` that the cache's index does not hold.
pub open spec fn lacking(
    cache: CacheManager,
    info_hash: Seq<char>,
    start: i32,
    end: i32,
) -> Seq<i32> {
    piece_numbers(start, end).filter(
        |index: i32| !cache.pieces().contains_key(piece_key::piece_key(info_hash, index as int)),
    )
}

/// The pieces of a range that have to be looked for outside the cache's index.
pub fn unregistered_pieces(
    cache: &CacheManager,
    info_hash: &str,
    start: i32,
    end: i32,
) -> (r: Vec<i32>)
    requires
        start <= end,
    ensures
        r@ == lacking(*cache, info_hash@, start, end),
{
    let ghost all = piece_numbers(start, end);
    let ghost missing = |index: i32|
        !cache.pieces().contains_key(piece_key::piece_key(info_hash@, index as int));
    let mut found: Vec<i32> = Vec::new();
    let mut i: i64 = start as i64;
    proof {
        reveal(Seq::filter);
    }
    while i <= end as i64
        invariant
            start <= i <= end + 1,
            all == piece_numbers(start, end),
            missing == (|index: i32|
                !cache.pieces().contains_key(piece_key::piece_key(info_hash@, index as int))),
            found@ == all.take(i - start).filter(missing),
        decreases end + 1 - i,
    {
        proof {
            reveal(Seq::filter);
            assert(all.take(i - start + 1).drop_last() =~= all.take(i - start));
        }
        if !cache.has_piece(piece_key::make_piece_key(info_hash, i as i32).as_str()) {
            found.push(i as i32);
        }
        i = i + 1;
    }
    proof {
        assert(all.take(all.len() as int) =~= all);
    }
    found
}

/// As many seconds have passed.
pub open spec fn passed(since: u64, now: u64, seconds: u64) -> bool {
    (if now > since {
        now - since
    } else {
        0
    }) / SECOND as int >= seconds
}

fn has_passed(since: u64, now: u64, seconds: u64) -> (r: bool)
    ensures
        r == passed(since, now, seconds),
{
    if now > since {
        (now - since) / SECOND >= seconds
    } else {
        0 >= seconds
    }
}

/// The wait for peers that a read without any goes through.
#[derive(Debug, Clone, Copy, PartialEq, Eq, Structural)]
pub struct PeerWait {
    pub started: u64,
    pub grace: u64,
    /// How often the session was asked.
    pub polls: u32,
}

#[derive(Debug, Clone, Copy, PartialEq, Eq, Structural)]
pub enum PeerStep {
    /// Sleep half a second, then ask the session.
    Poll,
    /// Ask whether all pieces are in the cache or on disk.
    AskCache,
    Over,
}

impl PeerWait {
    /// Where the next round begins.
    pub open spec fn round(&self, now: u64) -> PeerStep {
        if passed(self.started, now, self.grace) {
            PeerStep::Over
        } else {
            PeerStep::Poll
        }
    }

    pub fn new(now: u64, timeout: u64) -> (r: PeerWait)
        ensures
            r == (PeerWait { started: now, grace: grace_of(timeout), polls: 0 }),
    {
        PeerWait { started: now, grace: peer_grace(timeout), polls: 0 }
    }

    /// Begins a round of the wait.
    pub fn next_round(&self, now: u64) -> (r: PeerStep)
        ensures
            r == self.round(now),
    {
        if has_passed(self.started, now, self.grace) {
            PeerStep::Over
        } else {
            PeerStep::Poll
        }
    }

    /// Takes the session's answer. Without one the wait is over, as with peers; after a few
    /// polls the cache decides whether the wait goes on.
    pub fn polled(&mut self, now: u64, report: &Option<PeerReport>) -> (r: PeerStep)
        requires
            old(self).polls < u32::MAX,
        ensures
            final(self).polls == old(self).polls + 1,
            final(self).started == old(self).started,
            final(self).grace == old(self).grace,
            r == match *report {
                None => PeerStep::Over,
                Some(p) => if p.num_peers > 1 || p.num_seeds > 0 {
                    PeerStep::Over
                } else if final(self).polls >= POLLS_BEFORE_CACHE {
                    PeerStep::AskCache
                } else {
                    final(self).round(now)
                },
            },
    {
        self.polls = self.polls + 1;
        match report {
            None => PeerStep::Over,
            Some(p) => if p.num_peers > 1 || p.num_seeds > 0 {
                PeerStep::Over
            } else if self.polls >= POLLS_BEFORE_CACHE {
                PeerStep::AskCache
            } else {
                self.next_round(now)
            },
        }
    }

    /// Takes the answer on the cache: where a piece is missing, the wait is over.
    pub fn cache_checked(&self, now: u64, all_cached: bool) -> (r: PeerStep)
        ensures
            r == if all_cached {
                self.round(now)
            } else {
                PeerStep::Over
            },
    {
        if all_cached {
            self.next_round(now)
        } else {
            PeerStep::Over
        }
    }
}

pub open spec fn no_peers_text(p: PeerReport) -> Seq<char> {
    "Torrent has "@ + text::dec_signed(p.num_peers as int) + " peers and "@ + text::dec_signed(
        p.num_seeds as int,
    ) + " seeds (progress: "@ + p.progress@ + "%, state: "@ + p.state.spelled()
        + "). The tracker may be unreachable or the torrent has no active peers."@
}

/// Lets a read go on where somebody has the torrent, or where all its pieces are there.
pub fn check_peers(report: &PeerReport, all_cached: bool) -> (r: Result<(), TorrentError>)
    ensures
        if report.alone() && !all_cached {
            r matches Err(TorrentError::NoPeers(m)) && m@ == no_peers_text(*report)
        } else {
            r is Ok
        },
{
    if report.is_alone() && !all_cached {
        let mut m = "Torrent has ".to_owned();
        m.append(text::decimal_signed(report.num_peers as i64).as_str());
        m.append(" peers and ");
        m.append(text::decimal_signed(report.num_seeds as i64).as_str());
        m.append(" seeds (progress: ");
        m.append(report.progress.as_str());
        m.append("%, state: ");
        m.append(report.state.name());
        m.append("). The tracker may be unreachable or the torrent has no active peers.");
        return Err(TorrentError::NoPeers(m));
    }
    Ok(())
}

/// The pieces that the session should fetch at once: those that it does not have.
pub open spec fn urgent(start: i32, have: Seq<bool>) -> Seq<i32> {
    piece_numbers(start, (start + have.len() - 1) as i32).filter(
        |index: i32| !have[index - start],
    )
}

/// The pieces of a range to fetch at once, where `have` tells for each whether it is there.
pub fn urgent_pieces(start: i32, have: &Vec<bool>) -> (r: Vec<i32>)
    requires
        have@.len() > 0,
        start + have@.len() - 1 <= i32::MAX,
    ensures
        r@ == urgent(start, have@),
{
    let ghost all = piece_numbers(start, (start + have@.len() - 1) as i32);
    let ghost missing = |index: i32| !have@[index - start];
    let mut found: Vec<i32> = Vec::new();
    let mut i: usize = 0;
    proof {
        reveal(Seq::filter);
    }
    while i < have.len()
        invariant
            i <= have@.len(),
            start + have@.len() - 1 <= i32::MAX,
            all == piece_numbers(start, (start + have@.len() - 1) as i32),
            missing == (|index: i32| !have@[index - start]),
            found@ == all.take(i as int).filter(missing),
        decreases have@.len() - i,
    {
        proof {
            reveal(Seq::filter);
            assert(all.take(i + 1).drop_last() =~= all.take(i as int));
        }
        if !have[i] {
            found.push((start as i64 + i as i64) as i32);
        }
        i = i + 1;
    }
    proof {
        assert(all.take(all.len() as int) =~= all);
    }
    found
}

/// What the wait for a piece has asked for last.
#[derive(Debug, Clone, Copy, PartialEq, Eq, Structural)]
pub enum WaitPhase {
    /// Whether the piece is in the cache or on disk, before any waiting.
    Cache,
    /// The torrent's peers, before any waiting.
    Peers,
    /// A nap, and whether the session has the piece after it.
    Nap,
    /// The torrent's peers, while waiting.
    Refresh,
    /// Whether the piece has come into the cache or on disk.
    Recheck,
    /// The torrent's peers, after the time is up.
    Last,
}

/// What the wait for a piece asks for.
#[derive(Debug)]
pub enum WaitStep {
    AskCache,
    AskPeers,
    /// Sleep for 200 milliseconds, then ask the session whether it has the piece.
    Nap,
    /// The piece can be read.
    Done,
    Fail(TorrentError),
}

/// An answer to what the wait for a piece asked.
#[derive(Debug)]
pub enum WaitAnswer {
    Cache(bool),
    Peers(Result<PeerReport, TorrentError>),
    Have(bool),
}

/// The wait for one piece.
#[derive(Debug)]
pub struct PieceWait {
    pub piece: i32,
    pub timeout: u64,
    pub started: u64,
    /// When the session last told of the torrent's peers.
    pub checked: u64,
    pub report: PeerReport,
    pub phase: WaitPhase,
}

pub open spec fn uncached_text(w: PieceWait) -> Seq<char> {
    "No peers available and piece "@ + text::dec_signed(w.piece as int)
        + " is not in cache. Torrent progress: "@ + w.report.progress@ + "%, state: "@
        + w.report.state.spelled()
}

pub open spec fn dropped_text(w: PieceWait) -> Seq<char> {
    "Peers dropped to 0 while waiting for piece "@ + text::dec_signed(w.piece as int)
        + ". Torrent progress: "@ + w.report.progress@ + "%, state: "@ + w.report.state.spelled()
}

pub open spec fn timed_out_text(w: PieceWait, p: PeerReport) -> Seq<char> {
    "Timed out waiting for piece "@ + text::dec_signed(w.piece as int) + " after "@ + text::dec(
        w.timeout as int,
    ) + "s. Torrent progress: "@ + p.progress@ + "%, peers: "@ + text::dec_signed(
        p.num_peers as int,
    ) + ", seeds: "@ + text::dec_signed(p.num_seeds as int)
}

impl PieceWait {
    /// The wait differs from `w` in its phase alone.
    pub open spec fn moved(&self, w: PieceWait, phase: WaitPhase) -> bool {
        &&& self.phase == phase
        &&& self.piece == w.piece
        &&& self.timeout == w.timeout
        &&& self.started == w.started
        &&& self.checked == w.checked
        &&& self.report == w.report
    }

    /// A new turn of the wait: until the time is up, a nap.
    pub open spec fn turned(&self, w: PieceWait, now: u64, step: WaitStep) -> bool {
        if passed(w.started, now, w.timeout) {
            step is AskPeers && self.moved(w, WaitPhase::Last)
        } else {
            step is Nap && self.moved(w, WaitPhase::Nap)
        }
    }

    /// The wait `w`, with the time at which waiting begins.
    pub open spec fn begun(w: PieceWait, now: u64) -> PieceWait {
        PieceWait { started: now, checked: now, ..w }
    }

    /// What follows on an answer.
    pub open spec fn follows(
        &self,
        w: PieceWait,
        now: u64,
        answer: WaitAnswer,
        step: WaitStep,
    ) -> bool {
        match (w.phase, answer) {
            (WaitPhase::Cache, WaitAnswer::Cache(there)) => if there {
                step is Done && self.moved(w, w.phase)
            } else {
                step is AskPeers && self.moved(w, WaitPhase::Peers)
            },
            (WaitPhase::Peers, WaitAnswer::Peers(answer)) => {
                let told = match answer {
                    Ok(p) => PieceWait { report: p, ..w },
                    Err(_) => w,
                };
                if told.report.alone() {
                    &&& step matches WaitStep::Fail(TorrentError::NoPeers(m)) && m@
                        == uncached_text(told)
                    &&& self.moved(told, w.phase)
                } else {
                    self.turned(PieceWait::begun(told, now), now, step)
                }
            },
            (WaitPhase::Nap, WaitAnswer::Have(there)) => if there {
                step is Done && self.moved(w, w.phase)
            } else if passed(w.checked, now, 2) {
                step is AskPeers && self.moved(w, WaitPhase::Refresh)
            } else {
                step is AskCache && self.moved(w, WaitPhase::Recheck)
            },
            (WaitPhase::Refresh, WaitAnswer::Peers(Ok(p))) => {
                let told = PieceWait { report: p, checked: now, ..w };
                if p.deserted() && passed(w.started, now, grace_of(w.timeout)) {
                    &&& step matches WaitStep::Fail(TorrentError::NoPeers(m)) && m@
                        == dropped_text(told)
                    &&& self.moved(told, w.phase)
                } else {
                    step is AskCache && self.moved(told, WaitPhase::Recheck)
                }
            },
            (WaitPhase::Refresh, WaitAnswer::Peers(Err(_))) => step is AskCache && self.moved(
                w,
                WaitPhase::Recheck,
            ),
            (WaitPhase::Recheck, WaitAnswer::Cache(there)) => if there {
                step is Done && self.moved(w, w.phase)
            } else {
                self.turned(w, now, step)
            },
            (WaitPhase::Last, WaitAnswer::Peers(Ok(p))) => {
                &&& step matches WaitStep::Fail(TorrentError::InvalidFile(m)) && m@
                    == timed_out_text(w, p)
                &&& self.moved(PieceWait { report: p, ..w }, w.phase)
            },
            (WaitPhase::Last, WaitAnswer::Peers(Err(e))) => step == WaitStep::Fail(e)
                && self.moved(w, w.phase),
            _ => {
                &&& self.moved(w, w.phase)
                &&& step == match w.phase {
                    WaitPhase::Cache | WaitPhase::Recheck => WaitStep::AskCache,
                    WaitPhase::Peers | WaitPhase::Refresh | WaitPhase::Last => WaitStep::AskPeers,
                    WaitPhase::Nap => WaitStep::Nap,
                }
            },
        }
    }

    /// The wait for a piece that the session does not have. Its first question is for the cache.
    pub fn new(piece: i32, timeout: u64, report: PeerReport) -> (r: PieceWait)
        ensures
            r == (PieceWait {
                piece,
                timeout,
                started: 0,
                checked: 0,
                report,
                phase: WaitPhase::Cache,
            }),
    {
        PieceWait { piece, timeout, started: 0, checked: 0, report, phase: WaitPhase::Cache }
    }

    fn turn(&mut self, now: u64) -> (step: WaitStep)
        ensures
            final(self).turned(*old(self), now, step),
    {
        if has_passed(self.started, now, self.timeout) {
            self.phase = WaitPhase::Last;
            WaitStep::AskPeers
        } else {
            self.phase = WaitPhase::Nap;
            WaitStep::Nap
        }
    }

    fn peers_told(&mut self, now: u64, answer: Result<PeerReport, TorrentError>) -> (step: WaitStep)
        requires
            old(self).phase is Peers,
        ensures
            final(self).follows(*old(self), now, WaitAnswer::Peers(answer), step),
    {
        if let Ok(p) = answer {
            self.report = p;
        }
        if self.report.is_alone() {
            let mut m = "No peers available and piece ".to_owned();
            m.append(text::decimal_signed(self.piece as i64).as_str());
            m.append(" is not in cache. Torrent progress: ");
            m.append(self.report.progress.as_str());
            m.append("%, state: ");
            m.append(self.report.state.name());
            return WaitStep::Fail(TorrentError::NoPeers(m));
        }
        self.started = now;
        self.checked = now;
        self.turn(now)
    }

    fn peers_refreshed(&mut self, now: u64, p: PeerReport) -> (step: WaitStep)
        requires
            old(self).phase is Refresh,
        ensures
            final(self).follows(
                *old(self),
                now,
                WaitAnswer::Peers(Ok::<PeerReport, TorrentError>(p)),
                step,
            ),
    {
        self.report = p;
        self.checked = now;
        if self.report.is_deserted() && has_passed(self.started, now, peer_grace(self.timeout)) {
            let mut m = "Peers dropped to 0 while waiting for piece ".to_owned();
            m.append(text::decimal_signed(self.piece as i64).as_str());
            m.append(". Torrent progress: ");
            m.append(self.report.progress.as_str());
            m.append("%, state: ");
            m.append(self.report.state.name());
            return WaitStep::Fail(TorrentError::NoPeers(m));
        }
        self.phase = WaitPhase::Recheck;
        WaitStep::AskCache
    }

    fn timed_out(&mut self, p: PeerReport) -> (step: WaitStep)
        requires
            old(self).phase is Last,
        ensures
            forall|now: u64| #[trigger]
                final(self).follows(
                    *old(self),
                    now,
                    WaitAnswer::Peers(Ok::<PeerReport, TorrentError>(p)),
                    step,
                ),
    {
        let mut m = "Timed out waiting for piece ".to_owned();
        m.append(text::decimal_signed(self.piece as i64).as_str());
        m.append(" after ");
        m.append(text::decimal(self.timeout).as_str());
        m.append("s. Torrent progress: ");
        m.append(p.progress.as_str());
        m.append("%, peers: ");
        m.append(text::decimal_signed(p.num_peers as i64).as_str());
        m.append(", seeds: ");
        m.append(text::decimal_signed(p.num_seeds as i64).as_str());
        self.report = p;
        WaitStep::Fail(TorrentError::InvalidFile(m))
    }

    /// Takes the answer to what was asked last. An answer to another question is passed over,
    /// and the question is asked again.
    pub fn answer(&mut self, now: u64, answer: WaitAnswer) -> (step: WaitStep)
        ensures
            final(self).follows(*old(self), now, answer, step),
    {
        match (self.phase, answer) {
            (WaitPhase::Cache, WaitAnswer::Cache(there)) => {
                if there {
                    return WaitStep::Done;
                }
                self.phase = WaitPhase::Peers;
                WaitStep::AskPeers
            },
            (WaitPhase::Peers, WaitAnswer::Peers(told)) => self.peers_told(now, told),
            (WaitPhase::Nap, WaitAnswer::Have(there)) => {
                if there {
                    return WaitStep::Done;
                }
                if has_passed(self.checked, now, 2) {
                    self.phase = WaitPhase::Refresh;
                    return WaitStep::AskPeers;
                }
                self.phase = WaitPhase::Recheck;
                WaitStep::AskCache
            },
            (WaitPhase::Refresh, WaitAnswer::Peers(Ok(p))) => self.peers_refreshed(now, p),
            (WaitPhase::Refresh, WaitAnswer::Peers(Err(_))) => {
                self.phase = WaitPhase::Recheck;
                WaitStep::AskCache
            },
            (WaitPhase::Recheck, WaitAnswer::Cache(there)) => {
                if there {
                    return WaitStep::Done;
                }
                self.turn(now)
            },
            (WaitPhase::Last, WaitAnswer::Peers(Ok(p))) => self.timed_out(p),
            (WaitPhase::Last, WaitAnswer::Peers(Err(e))) => WaitStep::Fail(e),
            (WaitPhase::Cache, _) | (WaitPhase::Recheck, _) => WaitStep::AskCache,
            (WaitPhase::Nap, _) => WaitStep::Nap,
            _ => WaitStep::AskPeers,
        }
    }
}

/// A piece that is in the cache or on disk is never waited for, whoever has the torrent.
pub proof fn cached_piece_is_not_waited_for(w: PieceWait, after: PieceWait, now: u64, step: WaitStep)
    requires
        w.phase is Cache || w.phase is Recheck,
        after.follows(w, now, WaitAnswer::Cache(true), step),
    ensures
        step is Done,
{
}

/// Once the time is up, a piece that has not come fails with the next word from the session.
pub proof fn waiting_comes_to_an_end(
    w: PieceWait,
    next: PieceWait,
    after: PieceWait,
    now: u64,
    later: u64,
    told: Result<PeerReport, TorrentError>,
    first: WaitStep,
    second: WaitStep,
)
    requires
        w.phase is Recheck,
        passed(w.started, now, w.timeout),
        next.follows(w, now, WaitAnswer::Cache(false), first),
        after.follows(next, later, WaitAnswer::Peers(told), second),
    ensures
        first is AskPeers,
        second is Fail,
{
}

/// Without peers, a read that needs a missing piece fails before it waits for the piece.
pub proof fn missing_piece_without_peers_fails_at_once(
    w: PieceWait,
    next: PieceWait,
    after: PieceWait,
    now: u64,
    later: u64,
    p: PeerReport,
    first: WaitStep,
    second: WaitStep,
)
    requires
        w.phase is Cache,
        p.alone(),
        next.follows(w, now, WaitAnswer::Cache(false), first),
        after.follows(next, later, WaitAnswer::Peers(Ok::<PeerReport, TorrentError>(p)), second),
    ensures
        second is Fail,
        second->Fail_0 is NoPeers,
{
}

/// A missing piece that others have is waited for until the time is up: as long as it has not come,
/// the wait sleeps, asks after the peers and looks again, and it does not fail.
pub proof fn missing_piece_with_peers_is_waited_for(
    w: PieceWait,
    after: PieceWait,
    now: u64,
    answer: WaitAnswer,
    step: WaitStep,
)
    requires
        after.follows(w, now, answer, step),
        w.timeout > 0,
        !(w.phase is Last),
        w.phase is Peers || now - w.started < w.timeout * 1_000_000_000,
        answer matches WaitAnswer::Peers(told) ==> told matches Ok(p) && p.num_peers > 1,
        answer != WaitAnswer::Cache(true),
        answer != WaitAnswer::Have(true),
    ensures
        !(step is Fail),
        !(step is Done),
        w.phase is Peers && answer is Peers ==> step is Nap && after.started == now,
        w.phase is Recheck && answer is Cache ==> step is Nap,
        w.phase is Refresh && answer is Peers ==> step is AskCache,
        w.phase is Nap && answer is Have ==> step is AskCache || step is AskPeers,
        after.piece == w.piece,
{
    let elapsed = if now > w.started {
        now - w.started
    } else {
        0
    };
    assert(elapsed < w.timeout * 1_000_000_000 ==> elapsed / 1_000_000_000 < w.timeout);
}

/// A read asks for exactly those pieces of its range that are missing, in their order.
pub proof fn missing_pieces_are_asked_for(start: i32, have: Seq<bool>, i: int)
    requires
        0 <= i < have.len(),
        start + have.len() - 1 <= i32::MAX,
    ensures
        urgent(start, have).contains((start + i) as i32) <==> !have[i],
{
    let all = piece_numbers(start, (start + have.len() - 1) as i32);
    let missing = |index: i32| !have[index - start];
    assert(all[i] == (start + i) as i32);
    if !have[i] {
        all.lemma_filter_contains(missing, i);
    } else if urgent(start, have).contains((start + i) as i32) {
        assert(all.filter(missing) =~= urgent(start, have));
        let k = choose|k: int|
            0 <= k < all.filter(missing).len() && all.filter(missing)[k] == (start + i) as i32;
        all.lemma_filter_pred(missing, k);
    }
}

/// A read waits as long as is configured, and half a minute where nothing usable is; peers may take no
/// longer than the read, and ten seconds at most.
pub proof fn waits_are_as_configured(configured: Option<i64>, timeout: u64)
    ensures
        configured matches Some(v) && v > 0 ==> timeout_of(configured) == configured->0,
        !(configured matches Some(v) && v > 0) ==> timeout_of(configured) == 30,
        grace_of(timeout) <= timeout,
        grace_of(timeout) <= 10,
        grace_of(timeout) == timeout || grace_of(timeout) == 10,
{
}

} // verus!

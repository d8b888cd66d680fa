//! What the session's alerts change, and when the thread that takes them sleeps.

use vstd::prelude::*;

use crate::download::types::SessionStats;

verus! {

/// The last that the session told of itself.
#[derive(Debug, Clone, Copy, PartialEq, Eq, Structural)]
pub struct SharedSessionStats {
    pub inner: SessionStats,
}

impl SharedSessionStats {
    pub fn new() -> (r: Self)
        ensures
            r.inner == SessionStats::idle(),
    {
        SharedSessionStats { inner: SessionStats::default() }
    }

    pub fn snapshot(&self) -> (r: SessionStats)
        ensures
            r == self.inner,
    {
        self.inner
    }
}

impl Default for SharedSessionStats {
    fn default() -> (r: Self)
        ensures
            r.inner == SessionStats::idle(),
    {
        SharedSessionStats::new()
    }
}

#[derive(Debug, Clone, Copy, PartialEq, Eq, Structural)]
pub enum AlertType {
    ReadPiece,
    SessionStats,
    TorrentFinished,
    TorrentRemoved,
    Other(i32),
}

impl AlertType {
    /// The type that a number of the session stands for.
    pub open spec fn of_number(value: i32) -> AlertType {
        if value == 0 {
            AlertType::ReadPiece
        } else if value == 1 {
            AlertType::SessionStats
        } else if value == 2 {
            AlertType::TorrentFinished
        } else if value == 3 {
            AlertType::TorrentRemoved
        } else {
            AlertType::Other(value)
        }
    }
}

impl vstd::std_specs::convert::FromSpecImpl<i32> for AlertType {
    open spec fn obeys_from_spec() -> bool {
        true
    }

    open spec fn from_spec(value: i32) -> AlertType {
        AlertType::of_number(value)
    }
}

impl From<i32> for AlertType {
    fn from(value: i32) -> AlertType {
        match value {
            0 => AlertType::ReadPiece,
            1 => AlertType::SessionStats,
            2 => AlertType::TorrentFinished,
            3 => AlertType::TorrentRemoved,
            other => AlertType::Other(other),
        }
    }
}

/// Takes an alert: only one on the session's statistics, which come with it, changes what is
/// known.
pub fn dispatch(alert: AlertType, told: SessionStats, stats: &mut SharedSessionStats)
    ensures
        final(stats).inner == if alert == AlertType::SessionStats {
            told
        } else {
            old(stats).inner
        },
{
    if alert == AlertType::SessionStats {
        stats.inner = told;
    }
}

/// Takes a list of alerts in turn, each a type as the session counts it and the statistics that
/// came with it; the last on statistics holds. Tells whether at least one alert was there.
pub fn drain_alerts(
    list: &Option<Vec<(i32, SessionStats)>>,
    stats: &mut SharedSessionStats,
) -> (r: bool)
    ensures
        match *list {
            None => !r && final(stats).inner == old(stats).inner,
            Some(alerts) => r == (alerts@.len() > 0) && final(stats).inner == last_told(
                alerts@,
                old(stats).inner,
            ),
        },
{
    let alerts = match list {
        None => {
            return false;
        },
        Some(alerts) => alerts,
    };
    let mut i: usize = 0;
    let ghost before = stats.inner;
    while i < alerts.len()
        invariant
            i <= alerts@.len(),
            stats.inner == last_told(alerts@.take(i as int), before),
        decreases alerts@.len() - i,
    {
        let (number, told) = alerts[i];
        dispatch(AlertType::from(number), told, stats);
        proof {
            assert(alerts@.take(i as int + 1).drop_last() =~= alerts@.take(i as int));
        }
        i = i + 1;
    }
    proof {
        assert(alerts@.take(alerts@.len() as int) =~= alerts@);
    }
    alerts.len() > 0
}

/// The statistics after some alerts.
pub open spec fn last_told(alerts: Seq<(i32, SessionStats)>, before: SessionStats) -> SessionStats
    decreases alerts.len(),
{
    if alerts.len() == 0 {
        before
    } else if AlertType::of_number(alerts.last().0) == AlertType::SessionStats {
        alerts.last().1
    } else {
        last_told(alerts.drop_last(), before)
    }
}

/// Whether alerts came in that nobody has taken. The session raises the flag before it wakes the
/// thread that takes them, so that no wake-up is lost.
#[derive(Debug, Clone, Copy, PartialEq, Eq, Structural)]
pub struct NotifyState {
    pub flag: bool,
}

/// What to do about the wait for alerts.
#[derive(Debug, Clone, Copy, PartialEq, Eq, Structural)]
pub enum NotifyWait {
    /// Alerts are there.
    Notified,
    /// Sleep until a wake-up, or until the time is up.
    Block,
}

impl NotifyState {
    pub fn new() -> (r: Self)
        ensures
            !r.flag,
    {
        NotifyState { flag: false }
    }

    /// Alerts came in.
    pub fn notify(&mut self)
        ensures
            final(self).flag,
    {
        self.flag = true;
    }

    /// Begins a wait. A flag that was raised before is taken down, and nothing is waited for.
    pub fn wait(&mut self) -> (r: NotifyWait)
        ensures
            r == if old(self).flag {
                NotifyWait::Notified
            } else {
                NotifyWait::Block
            },
            !final(self).flag,
    {
        if self.flag {
            self.flag = false;
            NotifyWait::Notified
        } else {
            NotifyWait::Block
        }
    }

    /// Ends a sleep, and tells whether it was a wake-up that ended it.
    pub fn woken(&mut self, timed_out: bool) -> (r: bool)
        ensures
            r == !timed_out,
            !final(self).flag,
    {
        self.flag = false;
        !timed_out
    }
}

/// After some alerts the session's figures are those of the last alert that came with figures, and
/// what they were before where none did.
pub proof fn last_figures_hold(alerts: Seq<(i32, SessionStats)>, before: SessionStats)
    ensures
        forall|i: int|
            {
                &&& 0 <= i < alerts.len()
                &&& (#[trigger] alerts[i]).0 == 1
                &&& forall|j: int| i < j < alerts.len() ==> (#[trigger] alerts[j]).0 != 1
            } ==> last_told(alerts, before) == alerts[i].1,
        (forall|i: int| 0 <= i < alerts.len() ==> (#[trigger] alerts[i]).0 != 1) ==> last_told(
            alerts,
            before,
        ) == before,
    decreases alerts.len(),
{
    if alerts.len() > 0 {
        let earlier = alerts.drop_last();
        last_figures_hold(earlier, before);
        assert(alerts.last() == alerts[alerts.len() - 1]);
        assert forall|i: int| 0 <= i < earlier.len() implies earlier[i] == #[trigger] alerts[i] by {}
        if alerts.last().0 != 1 {
            assert forall|i: int|
                {
                    &&& 0 <= i < alerts.len()
                    &&& (#[trigger] alerts[i]).0 == 1
                    &&& forall|j: int| i < j < alerts.len() ==> (#[trigger] alerts[j]).0 != 1
                } implies last_told(alerts, before) == alerts[i].1 by {
                assert(earlier[i].0 == 1);
                assert forall|j: int| i < j < earlier.len() implies (#[trigger] earlier[j]).0
                    != 1 by {
                    assert(earlier[j] == alerts[j]);
                }
            }
            if forall|i: int| 0 <= i < alerts.len() ==> (#[trigger] alerts[i]).0 != 1 {
                assert forall|i: int| 0 <= i < earlier.len() implies (#[trigger] earlier[i]).0
                    != 1 by {
                    assert(earlier[i] == alerts[i]);
                }
            }
        } else {
            assert forall|i: int|
                {
                    &&& 0 <= i < alerts.len()
                    &&& (#[trigger] alerts[i]).0 == 1
                    &&& forall|j: int| i < j < alerts.len() ==> (#[trigger] alerts[j]).0 != 1
                } implies last_told(alerts, before) == alerts[i].1 by {
                if i < alerts.len() - 1 {
                    assert(alerts[alerts.len() - 1].0 != 1);
                }
            }
        }
    }
}

} // verus!

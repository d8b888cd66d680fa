//! How many torrents there are of each status.

use vstd::prelude::*;

use crate::domain::types::TorrentStatus;
use crate::text;

verus! {

/// How many torrents have a status, as the catalogue spells it.
#[derive(Debug)]
pub struct StatusCount {
    pub status: String,
    pub count: i64,
}

/// The count that the rows give for a word; the last of them holds.
pub open spec fn count_of(rows: Seq<StatusCount>, word: Seq<char>) -> i64
    decreases rows.len(),
{
    if rows.len() == 0 {
        0
    } else if rows.last().status@ == word {
        rows.last().count
    } else {
        count_of(rows.drop_last(), word)
    }
}

pub open spec fn count_of_status(rows: Seq<StatusCount>, status: TorrentStatus) -> i64 {
    count_of(rows, status.word())
}

fn count_for(rows: &Vec<StatusCount>, word: &str) -> (r: i64)
    ensures
        r == count_of(rows@, word@),
{
    let mut n: usize = rows.len();
    proof {
        assert(rows@.take(n as int) =~= rows@);
    }
    while n > 0
        invariant
            n <= rows@.len(),
            count_of(rows@, word@) == count_of(rows@.take(n as int), word@),
        decreases n,
    {
        proof {
            assert(rows@.take(n as int).drop_last() =~= rows@.take(n - 1));
        }
        if text::same(rows[n - 1].status.as_str(), word) {
            return rows[n - 1].count;
        }
        n = n - 1;
    }
    0
}

/// The torrents that are pending, downloading, seeding and in error, and all of these. Other
/// statuses are not counted.
pub fn get_torrent_counts_by_status(rows: &Vec<StatusCount>) -> (r: (i64, i64, i64, i64, i64))
    requires
        ({
            let p = count_of_status(rows@, TorrentStatus::Pending);
            let d = count_of_status(rows@, TorrentStatus::Downloading);
            let s = count_of_status(rows@, TorrentStatus::Seeding);
            let e = count_of_status(rows@, TorrentStatus::Error);
            &&& i64::MIN <= p + d <= i64::MAX
            &&& i64::MIN <= p + d + s <= i64::MAX
            &&& i64::MIN <= p + d + s + e <= i64::MAX
        }),
    ensures
        r.0 == count_of_status(rows@, TorrentStatus::Pending),
        r.1 == count_of_status(rows@, TorrentStatus::Downloading),
        r.2 == count_of_status(rows@, TorrentStatus::Seeding),
        r.3 == count_of_status(rows@, TorrentStatus::Error),
        r.4 == r.0 + r.1 + r.2 + r.3,
{
    let pending: i64 = count_for(rows, TorrentStatus::Pending.as_str());
    let downloading: i64 = count_for(rows, TorrentStatus::Downloading.as_str());
    let seeding: i64 = count_for(rows, TorrentStatus::Seeding.as_str());
    let error: i64 = count_for(rows, TorrentStatus::Error.as_str());
    (pending, downloading, seeding, error, pending + downloading + seeding + error)
}

/// Where the catalogue has one row for a status, that row's count is the status's, and a status
/// without a row counts nothing.
pub proof fn status_is_counted_by_its_row(rows: Seq<StatusCount>, status: TorrentStatus, i: int)
    requires
        0 <= i < rows.len(),
        rows[i].status@ == (match status {
            TorrentStatus::Pending => "pending"@,
            TorrentStatus::Downloading => "downloading"@,
            TorrentStatus::Seeding => "seeding"@,
            TorrentStatus::Error => "error"@,
        }),
        forall|j: int| 0 <= j < rows.len() && j != i ==> (#[trigger] rows[j]).status@
            != rows[i].status@,
    ensures
        count_of_status(rows, status) == rows[i].count,
{
    row_counts(rows, i);
}

proof fn row_counts(rows: Seq<StatusCount>, i: int)
    requires
        0 <= i < rows.len(),
        forall|j: int| i < j < rows.len() ==> (#[trigger] rows[j]).status@ != rows[i].status@,
    ensures
        count_of(rows, rows[i].status@) == rows[i].count,
    decreases rows.len(),
{
    if i < rows.len() - 1 {
        let earlier = rows.drop_last();
        assert(rows.last() == rows[rows.len() - 1]);
        assert forall|j: int| i < j < earlier.len() implies (#[trigger] earlier[j]).status@
            != earlier[i].status@ by {
            assert(earlier[j] == rows[j]);
        }
        row_counts(earlier, i);
    }
}

/// A status without a row counts nothing.
pub proof fn status_without_row_counts_nothing(rows: Seq<StatusCount>, status: TorrentStatus)
    requires
        forall|j: int| 0 <= j < rows.len() ==> (#[trigger] rows[j]).status@ != status.word(),
    ensures
        count_of_status(rows, status) == 0,
    decreases rows.len(),
{
    if rows.len() > 0 {
        let earlier = rows.drop_last();
        assert(rows.last() == rows[rows.len() - 1]);
        assert forall|j: int| 0 <= j < earlier.len() implies (#[trigger] earlier[j]).status@
            != status.word() by {
            assert(earlier[j] == rows[j]);
        }
        status_without_row_counts_nothing(earlier, status);
    }
}

} // verus!

//! Which changes bring a catalogue up to date.

use vstd::prelude::*;

verus! {

/// The version of a catalogue that is up to date.
pub const CURRENT_VERSION: i64 = 5;

/// One change to a catalogue.
#[derive(Debug, Clone, Copy, PartialEq, Eq, Structural)]
pub enum Migration {
    /// Make the tables of torrents, directories and files.
    CreateTables,
    /// Add the columns that the first tables did not have.
    AddColumns,
    /// Make the tables of directories under which torrents are filed.
    CreateMetadataDirectories,
    /// Add the names of the torrent files.
    AddFilename,
    /// Note the version.
    SetVersion(i64),
    /// End the transaction.
    Commit,
    /// Let rows go without taking along what refers to them.
    ForeignKeysOff,
    /// Keep one torrent for each place and file name: the newest.
    UniqueByFilename,
    ForeignKeysOn,
    /// Make the directories for all places of torrents.
    RebuildMetadataDirectories,
}

/// The changes of the transaction.
pub open spec fn table_changes(version: i64) -> Seq<Migration> {
    (if version < 1 {
        seq![Migration::CreateTables, Migration::SetVersion(2)]
    } else if version == 1 {
        seq![Migration::AddColumns, Migration::SetVersion(2)]
    } else {
        Seq::empty()
    }) + (if version < 3 {
        seq![Migration::CreateMetadataDirectories, Migration::SetVersion(3)]
    } else {
        Seq::empty()
    }) + (if version < 4 {
        seq![Migration::AddFilename, Migration::SetVersion(4)]
    } else {
        Seq::empty()
    }) + seq![Migration::Commit]
}

/// All changes to a catalogue of some version, in their order.
///
/// Foreign keys can be switched off only outside a transaction.
pub open spec fn changes(version: i64) -> Seq<Migration> {
    table_changes(version) + (if version < 5 {
        seq![
            Migration::ForeignKeysOff,
            Migration::UniqueByFilename,
            Migration::ForeignKeysOn,
            Migration::SetVersion(5),
        ]
    } else {
        Seq::empty()
    }) + (if version < 3 {
        seq![Migration::RebuildMetadataDirectories]
    } else {
        Seq::empty()
    })
}

/// The changes that bring a catalogue of some version up to date.
pub fn run_migrations(version: i64) -> (r: Vec<Migration>)
    ensures
        r@ == changes(version),
{
    let mut steps: Vec<Migration> = Vec::new();
    if version < 1 {
        steps.push(Migration::CreateTables);
        steps.push(Migration::SetVersion(2));
    } else if version == 1 {
        steps.push(Migration::AddColumns);
        steps.push(Migration::SetVersion(2));
    }
    if version < 3 {
        steps.push(Migration::CreateMetadataDirectories);
        steps.push(Migration::SetVersion(3));
    }
    if version < 4 {
        steps.push(Migration::AddFilename);
        steps.push(Migration::SetVersion(4));
    }
    steps.push(Migration::Commit);
    proof {
        assert(steps@ =~= table_changes(version));
    }
    if version < 5 {
        steps.push(Migration::ForeignKeysOff);
        steps.push(Migration::UniqueByFilename);
        steps.push(Migration::ForeignKeysOn);
        steps.push(Migration::SetVersion(5));
    }
    if version < 3 {
        steps.push(Migration::RebuildMetadataDirectories);
    }
    proof {
        assert(steps@ =~= changes(version));
    }
    steps
}

/// The version after some changes.
pub open spec fn version_after(version: i64, steps: Seq<Migration>) -> i64
    decreases steps.len(),
{
    if steps.len() == 0 {
        version
    } else {
        match steps.last() {
            Migration::SetVersion(v) => v,
            _ => version_after(version, steps.drop_last()),
        }
    }
}

/// Afterwards every catalogue is up to date, and one that was so before is left as it is.
pub proof fn catalogue_comes_up_to_date(version: i64)
    ensures
        version < CURRENT_VERSION ==> version_after(version, changes(version)) == CURRENT_VERSION,
        version >= CURRENT_VERSION ==> changes(version) == seq![Migration::Commit]
            && version_after(version, changes(version)) == version,
{
    reveal_with_fuel(version_after, 3);
    let steps = changes(version);
    if version < 3 {
        assert(steps.drop_last().last() == Migration::SetVersion(5));
    } else if version < 5 {
        assert(steps.last() == Migration::SetVersion(5));
    } else {
        assert(steps =~= seq![Migration::Commit]);
    }
}

/// No row is dropped while foreign keys are on: the tables are made over only between the
/// switch off and the switch on.
pub proof fn rows_are_dropped_without_foreign_keys(version: i64, i: int)
    requires
        0 <= i < changes(version).len(),
        changes(version)[i] == Migration::UniqueByFilename,
    ensures
        i > 0,
        changes(version)[i - 1] == Migration::ForeignKeysOff,
        i + 1 < changes(version).len(),
        changes(version)[i + 1] == Migration::ForeignKeysOn,
        changes(version).take(i).contains(Migration::Commit),
{
    let head = table_changes(version);
    let n = head.len() as int;
    assert(head[n - 1] == Migration::Commit);
    assert forall|k: int| 0 <= k < n implies head[k] != Migration::UniqueByFilename by {}
    assert(i == n + 1);
    assert(changes(version).take(i)[n - 1] == Migration::Commit);
}

/// A catalogue gets what came after its version, and nothing that it has: all tables where it is new,
/// the columns of the second version, the directories of the third with their rows, the file names of
/// the fourth and the order of the fifth.
pub proof fn catalogue_gets_what_it_lacks(version: i64)
    ensures
        changes(version).contains(Migration::CreateTables) <==> version < 1,
        changes(version).contains(Migration::AddColumns) <==> version == 1,
        changes(version).contains(Migration::CreateMetadataDirectories) <==> version < 3,
        changes(version).contains(Migration::RebuildMetadataDirectories) <==> version < 3,
        changes(version).contains(Migration::AddFilename) <==> version < 4,
        changes(version).contains(Migration::UniqueByFilename) <==> version < 5,
        changes(version).contains(Migration::Commit),
{
    let steps = changes(version);
    let n = table_changes(version).len() as int;
    assert(steps[n - 1] == Migration::Commit);
    if version < 1 {
        assert(steps[0] == Migration::CreateTables);
        assert(steps[2] == Migration::CreateMetadataDirectories);
        assert(steps[4] == Migration::AddFilename);
    } else if version == 1 {
        assert(steps[0] == Migration::AddColumns);
        assert(steps[2] == Migration::CreateMetadataDirectories);
        assert(steps[4] == Migration::AddFilename);
    } else if version == 2 {
        assert(steps[0] == Migration::CreateMetadataDirectories);
        assert(steps[2] == Migration::AddFilename);
    } else if version == 3 {
        assert(steps[0] == Migration::AddFilename);
    }
    if version < 5 {
        assert(steps[n + 1] == Migration::UniqueByFilename);
    }
    if version < 3 {
        assert(steps[n + 4] == Migration::RebuildMetadataDirectories);
    }
}

} // verus!

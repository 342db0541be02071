//! lorri's data storage: the decisions around the gc roots table.

use crate::error::ExitError;
use crate::path::NixFile;
use crate::path::{file_name_of, is_absolute, lemma_parent_of_sibling, plain_name};
use crate::project::{ListRootsMigration, project_file_of_link, project_nix_file, row_project_file, unknown_installable};
use vstd::prelude::*;

verus! {

/// Whether we had to migrate from the old gcroots to the sqlite database
#[derive(Debug, Clone, Copy, PartialEq, Eq, Structural)]
pub enum MigrateGCState {
    /// No GCRoots exist, so we assume this is a new lorri setup
    LorriIsFresh,
    /// We had already migrated to sqlite
    AlreadyMigrated,
    /// We hadn’t migrated and the migration was finished
    MigrationFinished,
}

/// What the migration to the database does next.
#[derive(Debug, Clone, Copy, PartialEq, Eq, Structural)]
pub enum MigrationStep {
    /// Nothing to do, with the state to report
    Done(MigrateGCState),
    /// Read the old gc root directories and move them into the table
    Migrate,
}

/// The migration is needed only when there are gc root directories and the table is still
/// empty: with no directories lorri is fresh, with rows in the table it already happened.
pub open spec fn migration_step(has_gc_roots: bool, row_count: i64) -> MigrationStep {
    if !has_gc_roots {
        MigrationStep::Done(MigrateGCState::LorriIsFresh)
    } else if row_count != 0 {
        MigrationStep::Done(MigrateGCState::AlreadyMigrated)
    } else {
        MigrationStep::Migrate
    }
}

/// Decide whether to migrate (see `migration_step`); `row_count` is only looked at when
/// there are gc root directories.
pub fn decide_migration(has_gc_roots: bool, row_count: i64) -> (r: MigrationStep)
    ensures
        r == migration_step(has_gc_roots, row_count),
{
    if !has_gc_roots {
        MigrationStep::Done(MigrateGCState::LorriIsFresh)
    } else if row_count != 0 {
        MigrationStep::Done(MigrateGCState::AlreadyMigrated)
    } else {
        MigrationStep::Migrate
    }
}

/// A row to insert when migrating: the nix file, when it was last built in whole seconds
/// since the epoch, whether it is a flake, and the flake's installable (the old directories
/// did not keep it, so it is the one assumed for unknown installables).
pub struct MigrationRow {
    /// The project's nix file
    pub nix_file: NixFile,
    /// When it was last built, in seconds since the epoch
    pub last_updated: Option<u64>,
    /// Whether it is a `flake.nix`
    pub is_flake: bool,
    /// The installable of a flake
    pub flake_installable: Option<String>,
}

/// Nanoseconds in a second.
pub const NANOS_PER_SEC: u128 = 1_000_000_000;

impl MigrationRow {
    /// The row for a project found in the old directories: its time is cut to whole seconds.
    pub fn of(info: &ListRootsMigration) -> (r: MigrationRow)
        requires
            info.timestamp matches Some(t) ==> t / NANOS_PER_SEC <= u64::MAX,
        ensures
            r.nix_file@ == info.nix_file@,
            r.is_flake == info.is_flake,
            info.is_flake ==> (r.flake_installable matches Some(i) && i@ == unknown_installable()),
            !info.is_flake ==> r.flake_installable is None,
            match info.timestamp {
                Some(t) => r.last_updated matches Some(s) && s == t / NANOS_PER_SEC,
                None => r.last_updated is None,
            },
    {
        let last_updated = match info.timestamp {
            Some(t) => Some((t / NANOS_PER_SEC) as u64),
            None => None,
        };
        let flake_installable = if info.is_flake {
            proof {
                reveal_strlit("#.");
            }
            Some(String::from_str("#."))
        } else {
            None
        };
        MigrationRow { nix_file: info.nix_file.clone(), last_updated, is_flake: info.is_flake, flake_installable }
    }
}

/// The rows to insert for the projects found in the old directories, one per project, in
/// order (see `MigrationRow::of`).
pub fn migration_rows_of(infos: &Vec<ListRootsMigration>) -> (r: Vec<MigrationRow>)
    requires
        forall|i: int| 0 <= i < infos@.len() ==> ((#[trigger] infos@[i]).timestamp matches Some(t) ==> t / NANOS_PER_SEC <= u64::MAX),
    ensures
        r@.len() == infos@.len(),
        forall|i: int| 0 <= i < r@.len() ==> row_of_info(#[trigger] r@[i], infos@[i]),
{
    let mut r: Vec<MigrationRow> = Vec::new();
    let mut i: usize = 0;
    while i < infos.len()
        invariant
            i <= infos@.len(),
            r@.len() == i,
            forall|k: int| 0 <= k < infos@.len() ==> ((#[trigger] infos@[k]).timestamp matches Some(t) ==> t / NANOS_PER_SEC <= u64::MAX),
            forall|k: int| 0 <= k < i ==> row_of_info(#[trigger] r@[k], infos@[k]),
        decreases infos@.len() - i,
    {
        let row = MigrationRow::of(&infos[i]);
        r.push(row);
        i = i + 1;
    }
    r
}

/// The row `r` is the one written for the project `info` (see `MigrationRow::of`).
pub open spec fn row_of_info(r: MigrationRow, info: ListRootsMigration) -> bool {
    &&& r.nix_file@ == info.nix_file@
    &&& r.is_flake == info.is_flake
    &&& (info.is_flake ==> (r.flake_installable matches Some(i) && i@ == unknown_installable()))
    &&& (!info.is_flake ==> r.flake_installable is None)
    &&& match info.timestamp {
        Some(t) => r.last_updated matches Some(s) && s == t / NANOS_PER_SEC,
        None => r.last_updated is None,
    }
}

/// The message when the rows could not be written.
pub open spec fn migration_failed_msg(cause: Seq<char>) -> Seq<char> {
    "Unable to migrate to the new sqlite database format: "@ + cause
}

/// How a migration ends, given whether writing the rows succeeded (or why it failed): the
/// migration is finished, or the failure is reported as a panic (exit 101). The old
/// backlinks are removed only after a finished migration.
pub fn migration_outcome(written: Result<(), String>) -> (r: Result<MigrateGCState, ExitError>)
    ensures
        match written {
            Ok(_) => r == Ok::<MigrateGCState, ExitError>(MigrateGCState::MigrationFinished),
            Err(cause) => r matches Err(e) && e.code() == 101 && e.msg() == migration_failed_msg(cause@),
        },
{
    match written {
        Ok(_) => Ok(MigrateGCState::MigrationFinished),
        Err(cause) => {
            let mut m = String::from_str("Unable to migrate to the new sqlite database format: ");
            m.append(cause.as_str());
            proof {
                reveal_strlit("Unable to migrate to the new sqlite database format: ");
            }
            Err(ExitError::panic(m))
        },
    }
}

/// Migrating happens once: when the table holds rows, whether or not gc root directories are
/// left, the next decision migrates nothing (and reports that the migration already happened
/// when there are directories).
pub proof fn lemma_migration_happens_once(has_gc_roots: bool, row_count: i64)
    requires
        row_count > 0,
    ensures
        migration_step(has_gc_roots, row_count) is Done,
        has_gc_roots ==> migration_step(has_gc_roots, row_count) == MigrationStep::Done(MigrateGCState::AlreadyMigrated),
{
}

/// What the migration writes, the listing of gc roots reads back: the row written for a
/// project found through its backlink (its nix file, whether it is a flake, and for a
/// flake the installable assumed) stands for the project file of the backlink.
pub proof fn lemma_migration_round_trip(link: Seq<char>)
    requires
        is_absolute(link),
        file_name_of(link) is Some,
    ensures
        ({
            let f = project_file_of_link(link);
            let is_flake = f is FlakeNix;
            row_project_file(
                project_nix_file(f),
                is_flake,
                if is_flake {
                    Some(unknown_installable())
                } else {
                    None
                },
            ) == Some(f)
        }),
{
    reveal_strlit("flake.nix");
    reveal_strlit("#.");
    let f = project_file_of_link(link);
    if f is FlakeNix {
        assert(plain_name("flake.nix"@));
        lemma_parent_of_sibling(link, "flake.nix"@);
        assert(unknown_installable() != Seq::<char>::empty()) by {
            assert(unknown_installable().len() == 2);
        }
    }
}

} // verus!

use lorri::error::{ExitAs, ExitError, ExitErrorType};
use lorri::path::{components_of, file_name, join, parent, path_eq, path_less, path_starts_with, AbsPathBuf};
use lorri::socket::communicate::{new, Client, CommunicationType, DaemonInfo, Error, InitError, Ping, StreamEvents};
use lorri::socket::path::SocketPath;
use lorri::socket::read_writer::Timeout;
use lorri::sqlite::{decide_migration, migration_outcome, migration_rows_of, MigrateGCState, MigrationRow, MigrationStep};
use lorri::project::{projects_of_rows, GcRootRow, ListRootsMigration, ProjectFile};
use lorri::text::{decimal_string, i32_string, lower_hex_string};

#[test]
fn exit_codes() {
    assert_eq!(ExitError::expected_error(String::from("a")).exitcode(), 1);
    assert_eq!(ExitError::user_error(String::from("a")).exitcode(), 100);
    assert_eq!(ExitError::panic(String::from("a")).exitcode(), 101);
    assert_eq!(ExitError::temporary(String::from("a")).exitcode(), 111);
    assert_eq!(ExitError::environment_problem(String::from("a")).exitcode(), 126);
    let e = ExitError::missing_executable(String::from("`direnv`: executable not found"));
    assert_eq!(e.exitcode(), 127);
    assert_eq!(e.message(), "`direnv`: executable not found");
    assert_eq!(Error::NotConnected.exit_as(), ExitErrorType::Panic);
    assert_eq!(InitError::ServerHandshake(String::from("x")).exit_as(), ExitErrorType::Temporary);
    assert_eq!(ExitError::from_exit_as(&Error::NotConnected, String::from("m")).exitcode(), 101);
}

#[test]
fn paths() {
    assert_eq!(join("/a", "b"), "/a/b");
    assert_eq!(join("/a/", "b"), "/a/b");
    assert_eq!(join("/a", "/b"), "/b");
    assert_eq!(components_of("/a//b/./c/"), vec!["/", "a", "b", "c"]);
    assert_eq!(components_of("./a/../b"), vec![".", "a", "..", "b"]);
    assert!(path_eq("/a/b/", "/a//b"));
    assert!(!path_eq("/a/b", "/a/c"));
    assert!(path_starts_with("/a/b/c", "/a/b"));
    assert!(!path_starts_with("/a/bc", "/a/b"));
    assert_eq!(file_name("/a/b.nix"), Some(String::from("b.nix")));
    assert_eq!(file_name("/a/.."), None);
    assert_eq!(parent("/a/b"), Some(String::from("/a")));
    assert_eq!(parent("/"), None);
    assert!(path_less("/a/b", "/a-b"));
    assert!(!path_less("/a", "/a"));
    assert!(path_less("/a", "/a/b"));
    assert!(AbsPathBuf::new(String::from("relative")).is_err());
    let p = AbsPathBuf::new(String::from("/x/y")).unwrap();
    assert_eq!(p.parent().unwrap().as_str(), "/x");
    assert!(AbsPathBuf::new(String::from("/")).unwrap().parent().is_none());
}

#[test]
fn socket_lockfile_and_timeouts() {
    let s = SocketPath::from(AbsPathBuf::new(String::from("/run/user/1/daemon.socket")).unwrap());
    assert_eq!(s.lockfile(), "/run/user/1/daemon.socket.lock");
    assert_eq!(s.display(), "/run/user/1/daemon.socket");
    assert_eq!(Timeout::from_millis(50), Timeout::D(50_000_000));
    assert_eq!(Timeout::D(10).remaining(3, false), Ok(Timeout::D(7)));
    assert_eq!(Timeout::D(10).remaining(10, false), Err(10));
    assert_eq!(Timeout::D(10).remaining(1, true), Err(10));
    assert_eq!(Timeout::Infinite.remaining(1000, false), Ok(Timeout::Infinite));
    match s.lock_error(true, String::from("EAGAIN")) {
        lorri::socket::path::BindError::OtherProcessListening(l) => assert_eq!(l, "/run/user/1/daemon.socket.lock"),
        other => panic!("unexpected {:?}", other),
    }
    assert!(matches!(s.lock_error(false, String::from("EPERM")), lorri::socket::path::BindError::Unix(m) if m == "EPERM"));
}

#[test]
fn clients_announce_their_kind() {
    let c: Client<(), DaemonInfo> = new::<DaemonInfo>(Timeout::Infinite);
    assert_eq!(c.comm_type(), CommunicationType::DaemonInfo);
    assert!(matches!(c.into_socket(), Err(Error::NotConnected)));
    assert_eq!(new::<Ping>(Timeout::Infinite).comm_type(), CommunicationType::Ping);
    assert_eq!(new::<StreamEvents>(Timeout::Infinite).comm_type(), CommunicationType::StreamEvents);
}

#[test]
fn migration_decisions() {
    assert_eq!(decide_migration(false, 5), MigrationStep::Done(MigrateGCState::LorriIsFresh));
    assert_eq!(decide_migration(true, 5), MigrationStep::Done(MigrateGCState::AlreadyMigrated));
    assert_eq!(decide_migration(true, 0), MigrationStep::Migrate);
    let info = ListRootsMigration::from_backlink(
        AbsPathBuf::new(String::from("/p/shell.nix")).unwrap(),
        Some(5_999_999_999),
    );
    let row = MigrationRow::of(&info);
    assert_eq!(row.last_updated, Some(5));
    assert!(!row.is_flake);
    assert_eq!(row.nix_file.as_absolute_path(), "/p/shell.nix");
}

#[test]
fn numbers_as_text() {
    assert_eq!(decimal_string(0), "0");
    assert_eq!(decimal_string(1234567890123), "1234567890123");
    assert_eq!(i32_string(-2147483648), "-2147483648");
    assert_eq!(i32_string(42), "42");
    assert_eq!(lower_hex_string(&[0x00, 0x0f, 0xa5, 0xff]), "000fa5ff");
}

#[test]
fn migration_rows_read_back() {
    let flake = ListRootsMigration::from_backlink(AbsPathBuf::new(String::from("/p/flake_project/flake.nix")).unwrap(), None);
    let shell = ListRootsMigration::from_backlink(
        AbsPathBuf::new(String::from("/p/nix_shell_project/shell.nix")).unwrap(),
        Some(1_700_000_000_123_456_789),
    );
    let rows: Vec<GcRootRow> = [flake, shell]
        .iter()
        .map(|info| {
            let row = MigrationRow::of(info);
            GcRootRow {
                nix_file: AbsPathBuf::new(row.nix_file.as_absolute_path().to_string()).unwrap(),
                last_updated: row.last_updated,
                is_flake: row.is_flake,
                flake_installable: row.flake_installable,
            }
        })
        .collect();
    let projects = projects_of_rows(&rows, &AbsPathBuf::new(String::from("/cache")).unwrap());
    assert_eq!(projects.len(), 2);
    match &projects[0].1.project_file {
        ProjectFile::FlakeNix(f) => {
            assert_eq!(f.context.as_str(), "/p/flake_project");
            assert_eq!(f.installable, "#.");
        }
        other => panic!("is not a flake! {:?}", other),
    }
    assert!(projects[0].0.is_none());
    assert!(matches!(projects[1].1.project_file, ProjectFile::ShellNix(_)));
    assert_eq!(projects[1].0, Some(1_700_000_000_000_000_000));
}

#[test]
fn io_and_usage_errors() {
    let e = ExitError::from_io_error(String::from("broken pipe"));
    assert_eq!(e.exitcode(), 111);
    assert_eq!(e.message(), "broken pipe");
    let e = ExitError::from_usage_error(String::from("unexpected argument"));
    assert_eq!(e.exitcode(), 100);
    assert_eq!(e.message(), "unexpected argument");
}

#[test]
fn migration_writes_one_row_per_project_and_finishes() {
    let infos = vec![
        ListRootsMigration::from_backlink(AbsPathBuf::new(String::from("/h/a/shell.nix")).unwrap(), Some(3_500_000_000)),
        ListRootsMigration::from_backlink(AbsPathBuf::new(String::from("/h/b/flake.nix")).unwrap(), None),
    ];
    let rows = migration_rows_of(&infos);
    assert_eq!(rows.len(), 2);
    assert_eq!(rows[0].nix_file.display(), "/h/a/shell.nix");
    assert_eq!(rows[0].last_updated, Some(3));
    assert_eq!(rows[0].flake_installable, None);
    assert!(rows[1].is_flake);
    assert_eq!(rows[1].flake_installable, Some(String::from("#.")));
    assert_eq!(migration_outcome(Ok(())).ok(), Some(MigrateGCState::MigrationFinished));
    let e = migration_outcome(Err(String::from("disk full"))).err().unwrap();
    assert_eq!(e.exitcode(), 101);
    assert_eq!(e.message(), "Unable to migrate to the new sqlite database format: disk full");
    assert_eq!(decide_migration(true, 2), MigrationStep::Done(MigrateGCState::AlreadyMigrated));
}

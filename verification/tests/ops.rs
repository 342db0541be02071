use lorri::builder::BuildError;
use lorri::cli::EventKind;
use lorri::ops::{age_string, build_failure_exit, get_paths, GcRemoval, GcRootInfo, Paths, StreamAction, StreamState};
use lorri::ops::{direnv_notice, direnv_script, DirenvNotice};
use lorri::ops::{bash_init_script, cached_root, command_start_error, shell_build_failure, shell_exit_failure, shell_kind, start_user_shell_args, ShellKind};
use lorri::path::AbsPathBuf;
use lorri::socket::path::SocketPath;

const DAY: u128 = 86_400_000_000_000;

fn abs_path(p: &str) -> AbsPathBuf {
    AbsPathBuf::new(p.to_string()).unwrap()
}

fn root(dir: &str, nix: Option<&str>, timestamp: u128, alive: bool) -> GcRootInfo {
    GcRootInfo { gc_dir: abs_path(dir), nix_file: nix.map(|s| s.to_string()), timestamp, alive }
}

#[test]
fn gc_info_lines() {
    let r = root("/c/1", Some("/p/shell.nix"), 0, true);
    assert_eq!(r.format_pretty_oneline(2 * DAY), "/c/1 -> /p/shell.nix  (2 days ago)");
    let r = root("/c/2", None, 5 * DAY, false);
    assert_eq!(r.format_pretty_oneline(DAY), "/c/2 -> (?) [dead] (future)");
    assert_eq!(age_string(DAY, DAY + DAY - 1), "0 days ago");
    assert_eq!(age_string(0, 400 * DAY), "400 days ago");
}

#[test]
fn gc_rm_selects_roots() {
    let now = 100 * DAY;
    let roots = vec![
        root("/c/alive", Some("/p/shell.nix"), 99 * DAY, true),
        root("/c/dead", Some("/q/shell.nix"), 99 * DAY, false),
        root("/c/named", Some("/r//shell.nix"), 99 * DAY, true),
        root("/c/old", Some("/s/shell.nix"), 10 * DAY, true),
        root("/c/future", Some("/t/shell.nix"), 200 * DAY, true),
    ];
    let removal = GcRemoval {
        all: false,
        shell_files: vec![String::from("/r/shell.nix")],
        older_than: Some(30 * DAY),
    };
    let removed = removal.roots_to_remove(roots, now);
    let dirs: Vec<&str> = removed.iter().map(|r| r.gc_dir.as_str()).collect();
    assert_eq!(dirs, vec!["/c/dead", "/c/named", "/c/old"]);

    let all = GcRemoval { all: true, shell_files: vec![], older_than: None };
    assert!(all.should_remove(&root("/c/x", None, 0, true), now));
    let none = GcRemoval { all: false, shell_files: vec![], older_than: None };
    assert!(!none.should_remove(&root("/c/x", Some("/x"), 0, true), now));
}

#[test]
fn stream_kinds() {
    // events: a, b, end of snapshot, c
    let events = [false, false, true, false];
    let run = |kind: EventKind| {
        let mut s = StreamState::new(kind);
        let mut printed = vec![];
        for (i, is_end) in events.iter().enumerate() {
            match s.on_event(*is_end) {
                StreamAction::Emit => printed.push(i),
                StreamAction::Skip => {}
                StreamAction::Stop => break,
            }
        }
        printed
    };
    assert_eq!(run(EventKind::All), vec![0, 1, 3]);
    assert_eq!(run(EventKind::Live), vec![3]);
    assert_eq!(run(EventKind::Snapshot), vec![0, 1]);
}

#[test]
fn failed_single_build_exit_codes() {
    let e = BuildError::output(String::from("no output"));
    let exit = build_failure_exit(&e, String::from("Output { msg: \"no output\" }"));
    assert_eq!(exit.exitcode(), 1);
    assert_eq!(exit.message(), "Output { msg: \"no output\" }");
    let e = BuildError::io(String::from("broken pipe"));
    let exit = build_failure_exit(&e, String::from("ignored"));
    assert_eq!(exit.exitcode(), 111);
    assert_eq!(exit.message(), "I/O error: broken pipe");
}

#[test]
fn paths_setup() {
    let paths = Paths {
        gc_root_dir: abs_path("/c/gc_roots"),
        daemon_socket_file: SocketPath::from(abs_path("/r/daemon.socket")),
        cas_store: abs_path("/c/cas"),
        sqlite_db: abs_path("/c/db.sqlite"),
    };
    let ok = get_paths(Ok(paths)).unwrap();
    assert_eq!(ok.gc_root_dir.as_str(), "/c/gc_roots");
    let err = get_paths(Err(String::from("no home directory"))).unwrap_err();
    assert_eq!(err.exitcode(), 100);
    assert_eq!(err.message(), "Cannot initialize the lorri paths: no home directory");
}

#[test]
fn direnv_output() {
    assert_eq!(direnv_notice(true, true), DirenvNotice::Nothing);
    assert_eq!(direnv_notice(true, false).message(), "lorri has not completed an evaluation for this project yet");
    assert_eq!(direnv_notice(false, true).message(), "lorri daemon is not running, loading a cached environment");
    assert_eq!(direnv_notice(false, false), DirenvNotice::NothingToLoad);
    assert_eq!(
        direnv_script("/c/root", "/run/sock", "load_env"),
        "\nEVALUATION_ROOT=\"/c/root\"\n\nwatch_file \"/run/sock\"\nwatch_file \"$EVALUATION_ROOT\"\n\nload_env\n"
    );
}

#[test]
fn shell_pieces() {
    assert_eq!(bash_init_script("/c/root", "env"), "\nEVALUATION_ROOT=\"/c/root\"\n\nenv");
    assert_eq!(cached_root(true, "/c/root").unwrap(), "/c/root");
    let e = cached_root(false, "/c/root").unwrap_err();
    assert_eq!(e.exitcode(), 111);
    assert_eq!(e.message(), "project has not previously been built successfully");
    assert_eq!(
        shell_build_failure(false, "boom").message(),
        "Build failed. No cached environment available.\nBuild error: boom"
    );
    assert!(shell_build_failure(true, "boom").message().starts_with("Build failed. Hint: try running `lorri shell --cached`"));
    assert_eq!(shell_exit_failure("exit status: 2").exitcode(), 101);
    assert_eq!(shell_kind("/bin/bash"), ShellKind::Bash);
    assert_eq!(shell_kind("/usr/bin/zsh"), ShellKind::Zsh);
    assert_eq!(shell_kind("/usr/bin/fish"), ShellKind::Other);
    assert_eq!(
        start_user_shell_args("/bin/lorri", "/bin/zsh", "/p/shell.nix"),
        vec!["-c", "exec \"$1\" internal start-user-shell --shell-path=\"$2\" --shell-file=\"$3\"", "--", "/bin/lorri", "/bin/zsh", "/p/shell.nix"]
    );
    let e = command_start_error("direnv", true, "");
    assert_eq!(e.exitcode(), 127);
    assert_eq!(e.message(), "`direnv`: executable not found");
    let e = command_start_error("direnv", false, "permission denied");
    assert_eq!(e.message(), "Could not start `direnv`: permission denied");
}

use lorri::build_loop::EventI;
use lorri::builder::BuildError;
use lorri::daemon::{loop_start_failure, ActivityAction, BuildLoops, Listeners, ProjectStates};
use lorri::path::{AbsPathBuf, NixFile};
use lorri::socket::communicate::Rebuild;

fn nix(p: &str) -> NixFile {
    NixFile(AbsPathBuf::new(p.to_string()).unwrap())
}

#[test]
fn one_build_loop_per_project() {
    let mut loops = BuildLoops::new();
    let a = nix("/p/shell.nix");
    assert_eq!(loops.indicate_activity(&a, Rebuild::OnlyIfNotYetWatching), ActivityAction::StartBuildLoop);
    assert!(loops.is_watched(&nix("/p//shell.nix")));
    assert_eq!(loops.indicate_activity(&a, Rebuild::OnlyIfNotYetWatching), ActivityAction::Skip);
    assert_eq!(loops.indicate_activity(&a, Rebuild::Always), ActivityAction::PingBuildLoop);
    assert_eq!(
        loops.indicate_activity(&nix("/q/shell.nix"), Rebuild::Always),
        ActivityAction::StartBuildLoop
    );
}

#[test]
fn latest_event_per_project() {
    let mut states = ProjectStates::new();
    states.record(EventI::SectionEnd);
    assert!(states.snapshot().is_empty());
    states.record(EventI::Started { nix_file: nix("/p/shell.nix"), reason: lorri::build_loop::ReasonI::PingReceived });
    states.record(EventI::Started { nix_file: nix("/q/shell.nix"), reason: lorri::build_loop::ReasonI::PingReceived });
    states.record(EventI::Failure {
        nix_file: nix("/p/./shell.nix"),
        failure: lorri::builder::BuildError::output(String::from("bad")),
    });
    let snap = states.snapshot();
    assert_eq!(snap.len(), 2);
    assert!(matches!(snap[0], EventI::Failure { .. }));
    assert!(matches!(snap[1], EventI::Started { .. }));
}

#[test]
fn failing_build_loop_reports_one_failure() {
    let n = nix("/p/shell.nix");
    assert!(loop_start_failure(&n, Ok(())).is_none());
    match loop_start_failure(&n, Err(String::from("inotify limit reached"))) {
        Some(EventI::Failure { nix_file, failure: BuildError::Io { msg } }) => {
            assert_eq!(nix_file.display(), "/p/shell.nix");
            assert_eq!(msg, "could not start the watcher for /p/shell.nix");
        }
        other => panic!("unexpected {:?}", other),
    }
}

#[test]
fn listeners_get_events_in_order_and_closed_ones_go() {
    let mut l = Listeners::new();
    l.register(7);
    l.register(3);
    l.register(9);
    assert_eq!(l.recipients(), vec![7, 3, 9]);
    l.drop_closed(&vec![true, false, true]);
    assert_eq!(l.recipients(), vec![7, 9]);
    l.register(4);
    assert_eq!(l.recipients(), vec![7, 9, 4]);
    l.drop_closed(&vec![true, true, true]);
    assert_eq!(l.recipients(), vec![7, 9, 4]);
}

#[test]
fn snapshot_lists_each_project_once() {
    let mut s = ProjectStates::new();
    let started = |p: &str| EventI::Started { nix_file: nix(p), reason: lorri::build_loop::ReasonI::PingReceived };
    s.record(started("/a/shell.nix"));
    s.record(started("/b/shell.nix"));
    s.record(started("/a/shell.nix"));
    let snap = s.snapshot();
    assert_eq!(snap.len(), 2);
    let mut files: Vec<String> = snap
        .iter()
        .map(|e| match e {
            EventI::Started { nix_file, .. } => nix_file.display().to_string(),
            _ => panic!("unexpected event"),
        })
        .collect();
    files.sort();
    assert_eq!(files, vec![String::from("/a/shell.nix"), String::from("/b/shell.nix")]);
}

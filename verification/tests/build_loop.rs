use lorri::watch::WatchPathBuf;
use lorri::build_loop::{outcome_reaction, BuildLoopState, Event, EventI, LoopAction, LoopInput, LoopReaction, ReasonI};
use lorri::builder::{BuildError, OutputPath};
use lorri::internal_proto::{event_from_proto, event_to_proto};
use lorri::path::{AbsPathBuf, NixFile};
use lorri::project::RootPath;
use lorri::proto;

fn nix_file_at(p: &str) -> NixFile {
    NixFile(AbsPathBuf::new(p.to_string()).unwrap())
}

#[test]
fn one_build_at_a_time_and_requests_coalesce() {
    let n = nix_file_at("/p/shell.nix");
    let mut s = BuildLoopState::new();
    let a = s.step(&n, LoopInput::Pinged);
    assert_eq!(a.len(), 2);
    assert!(matches!(a[1], LoopAction::StartBuild));
    assert!(s.is_building && !s.scheduled);
    // two changes while building: one build scheduled
    let a = s.step(&n, LoopInput::FilesChanged(vec![String::from("/p/a.nix")]));
    assert_eq!(a.len(), 1);
    match &a[0] {
        LoopAction::SendEvent(EventI::Started { reason: ReasonI::FilesChanged(f), .. }) => {
            assert_eq!(f, &vec![String::from("/p/a.nix")])
        }
        other => panic!("unexpected {:?}", other),
    }
    let a = s.step(&n, LoopInput::Pinged);
    assert_eq!(a.len(), 1);
    assert!(s.scheduled);
    let a = s.step(&n, LoopInput::BuildFinished);
    assert_eq!(a.len(), 1);
    assert!(matches!(a[0], LoopAction::StartBuild));
    let a = s.step(&n, LoopInput::BuildFinished);
    assert!(a.is_empty());
    assert!(!s.is_building && !s.scheduled);
}

#[test]
fn outcomes_of_builds() {
    let n = nix_file_at("/p/shell.nix");
    let root = OutputPath { shell_gc_root: RootPath(AbsPathBuf::new(String::from("/c/root")).unwrap()) };
    let none: Vec<WatchPathBuf> = vec![];
    let (watch, reaction) = outcome_reaction(&n, &none, &vec![], Ok(root));
    assert!(watch.is_empty());
    assert!(matches!(reaction, LoopReaction::SendEvent(EventI::Completed { .. })));
    let (_, reaction) = outcome_reaction(&n, &none, &vec![], Err(BuildError::output(String::from("x"))));
    assert!(matches!(reaction, LoopReaction::SendEvent(EventI::Failure { .. })));
    let (_, reaction) = outcome_reaction(&n, &none, &vec![], Err(BuildError::io(String::from("x"))));
    assert!(matches!(reaction, LoopReaction::Unrecoverable(BuildError::Io { .. })));
}

#[test]
fn finished_builds_watch_their_reduced_inputs() {
    let n = nix_file_at("/p/shell.nix");
    let referenced = vec![
        WatchPathBuf::Normal(String::from("/p/shell.nix")),
        WatchPathBuf::Recursive(String::from("/nix/store/abc-src")),
        WatchPathBuf::Normal(String::from("/nix/store/def-link")),
        WatchPathBuf::Normal(String::from("/nix/var/nix/profiles/per-user/root/channels/nixos/default.nix")),
        WatchPathBuf::Normal(String::from("/p/shell.nix")),
        WatchPathBuf::Recursive(String::from("/p/src")),
    ];
    let links = vec![None, None, Some(String::from("/home/u/checkout")), None, None, None];
    let (watch, reaction) = outcome_reaction(&n, &referenced, &links, Err(BuildError::output(String::from("x"))));
    assert_eq!(
        watch,
        vec![
            WatchPathBuf::Normal(String::from("/p/shell.nix")),
            WatchPathBuf::Normal(String::from("/home/u/checkout")),
            WatchPathBuf::Normal(String::from("/nix/var/nix/profiles/per-user/root/")),
            WatchPathBuf::Recursive(String::from("/p/src")),
        ]
    );
    assert!(matches!(reaction, LoopReaction::SendEvent(EventI::Failure { .. })));
}

fn round_trip(e: Event) -> Event {
    event_from_proto(event_to_proto(&e)).unwrap()
}

#[test]
fn events_survive_the_wire() {
    let n = nix_file_at("/p/shell.nix");
    let events = vec![
        EventI::SectionEnd,
        EventI::Started { nix_file: nix_file_at("/p/shell.nix"), reason: ReasonI::ProjectAdded(nix_file_at("/p/shell.nix")) },
        EventI::Completed {
            nix_file: n.clone(),
            rooted_output_paths: OutputPath { shell_gc_root: RootPath(AbsPathBuf::new(String::from("/c/root")).unwrap()) },
        },
        EventI::Failure {
            nix_file: n.clone(),
            failure: BuildError::exit(String::from("nix"), Some(1), vec![lorri::builder::LogLine(b"oops".to_vec())]),
        },
        EventI::Failure { nix_file: n.clone(), failure: BuildError::spawn(String::from("nix"), String::from("nope")) },
    ];
    for e in events {
        let text = format!("{:?}", e);
        assert_eq!(format!("{:?}", round_trip(e)), text);
    }
}

#[test]
fn wire_errors() {
    let w = proto::Event {
        kind: proto::EventKind::Completed,
        section: None,
        reason: None,
        result: None,
        failure: None,
    };
    assert_eq!(event_from_proto(w).unwrap_err(), "missing result");
    let w = proto::Event {
        kind: proto::EventKind::Completed,
        section: None,
        reason: None,
        result: Some(proto::Outcome { nix_file: String::from("relative.nix"), project_root: String::from("/r") }),
        failure: None,
    };
    assert_eq!(event_from_proto(w).unwrap_err(), "path is not absolute");
}

fn wire_event(kind: proto::EventKind, reason: Option<proto::Reason>, failure: Option<proto::Failure>) -> proto::Event {
    proto::Event { kind, section: None, reason, result: None, failure }
}

#[test]
fn wire_error_for_each_missing_part() {
    assert_eq!(event_from_proto(wire_event(proto::EventKind::Started, None, None)).unwrap_err(), "missing reason");
    let no_project = proto::Reason { kind: proto::ReasonKind::ProjectAdded, project: None, files: None };
    assert_eq!(
        event_from_proto(wire_event(proto::EventKind::Started, Some(no_project), None)).unwrap_err(),
        "missing nix file!"
    );
    let no_files = proto::Reason {
        kind: proto::ReasonKind::FilesChanged,
        project: Some(String::from("/p/shell.nix")),
        files: None,
    };
    assert_eq!(
        event_from_proto(wire_event(proto::EventKind::Started, Some(no_files), None)).unwrap_err(),
        "missing files!"
    );
    assert_eq!(event_from_proto(wire_event(proto::EventKind::Failure, None, None)).unwrap_err(), "missing failure log");
    let mismatched = proto::Failure {
        kind: proto::FailureKind::Exit,
        nix_file: String::from("/p/shell.nix"),
        io: Some(proto::IOFail { message: String::from("x") }),
        spawn: None,
        exit: None,
        output: None,
    };
    assert_eq!(
        event_from_proto(wire_event(proto::EventKind::Failure, None, Some(mismatched))).unwrap_err(),
        "unexpected form of proto::Failure"
    );
}

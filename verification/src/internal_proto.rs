//! Conversion of build events to and from their wire format.

use crate::build_loop::{Event, EventI, EventView, Reason, ReasonI, ReasonView, strings_view};
use crate::builder::{BuildError, BuildErrorView, LogLine, OutputPath, logs_view};
use crate::path::{AbsPathBuf, NixFile, is_absolute};
use crate::project::RootPath;
use crate::proto;
use crate::proto::{EventKind, EventV, ExitFailV, FailureKind, FailureV, OutcomeV, ReasonKind, ReasonV};
use vstd::prelude::*;
use vstd::utf8::{decode_utf8, encode_utf8, valid_utf8};

verus! {

/// What lossy UTF-8 decoding makes of bytes that are not valid UTF-8.
pub uninterp spec fn utf8_lossy(bytes: Seq<u8>) -> Seq<char>;

/// The text of a log line: its decoding when it is valid UTF-8, and otherwise the lossy
/// decoding (which replaces invalid sequences).
pub open spec fn log_text(bytes: Seq<u8>) -> Seq<char> {
    if valid_utf8(bytes) {
        decode_utf8(bytes)
    } else {
        utf8_lossy(bytes)
    }
}

/// Decode bytes as UTF-8, replacing invalid sequences (`String::from_utf8_lossy`).
/// Its documentation: valid UTF-8 is decoded as it is; the result for other bytes is only named.
#[verifier::external_body]
fn from_utf8_lossy(bytes: &[u8]) -> (r: String)
    ensures
        r@ == utf8_lossy(bytes@),
        valid_utf8(bytes@) ==> r@ == decode_utf8(bytes@),
{
    String::from_utf8_lossy(bytes).into_owned()
}

/// The text of a log line, as the wire format transmits it.
pub fn log_line_to_string(ll: &LogLine) -> (r: String)
    ensures
        r@ == log_text(ll@),
{
    from_utf8_lossy(ll.0.as_slice())
}

/// A log line from its text: the UTF-8 encoding of the text.
pub fn log_line_from_string(s: String) -> (r: LogLine)
    ensures
        r@ == encode_utf8(s@),
{
    LogLine(s.as_str().as_bytes_vec())
}

/// The wire form of a reason.
pub open spec fn reason_to_wire(r: ReasonView<Seq<char>>) -> ReasonV {
    match r {
        ReasonView::PingReceived => ReasonV { kind: ReasonKind::PingReceived, project: None, files: None },
        ReasonView::ProjectAdded(n) => ReasonV {
            kind: ReasonKind::ProjectAdded,
            project: Some(n),
            files: None,
        },
        ReasonView::FilesChanged(v) => ReasonV {
            kind: ReasonKind::FilesChanged,
            project: None,
            files: Some(v),
        },
    }
}

/// The exit status as the wire format transmits it.
pub open spec fn status_to_wire(status: Option<i32>) -> Option<i64> {
    match status {
        Some(i) => Some(i as i64),
        None => None,
    }
}

/// The wire form of a failure of the project with nix file `nix_file`.
pub open spec fn failure_to_wire(nix_file: Seq<char>, e: BuildErrorView) -> FailureV {
    match e {
        BuildErrorView::Io { msg } => FailureV {
            kind: FailureKind::Io,
            nix_file,
            io: Some(msg),
            spawn: None,
            exit: None,
            output: None,
        },
        BuildErrorView::Spawn { cmd, msg } => FailureV {
            kind: FailureKind::Spawn,
            nix_file,
            io: None,
            spawn: Some((cmd, msg)),
            exit: None,
            output: None,
        },
        BuildErrorView::Exit { cmd, status, logs } => FailureV {
            kind: FailureKind::Exit,
            nix_file,
            io: None,
            spawn: None,
            exit: Some(
                ExitFailV {
                    command: cmd,
                    status: status_to_wire(status),
                    logs: logs.map_values(|l: Seq<u8>| log_text(l)),
                },
            ),
            output: None,
        },
        BuildErrorView::Output { msg } => FailureV {
            kind: FailureKind::Output,
            nix_file,
            io: None,
            spawn: None,
            exit: None,
            output: Some(msg),
        },
    }
}

/// The wire form of an event. Note that a `Started` event transmits only its reason.
pub open spec fn event_to_wire(e: EventView) -> EventV {
    match e {
        EventI::SectionEnd => EventV {
            kind: EventKind::SectionEnd,
            section: Some(proto::SectionMarker {  }),
            reason: None,
            result: None,
            failure: None,
        },
        EventI::Started { nix_file, reason } => EventV {
            kind: EventKind::Started,
            section: None,
            reason: Some(reason_to_wire(reason)),
            result: None,
            failure: None,
        },
        EventI::Completed { nix_file, rooted_output_paths } => EventV {
            kind: EventKind::Completed,
            section: None,
            reason: None,
            result: Some(OutcomeV { nix_file, project_root: rooted_output_paths.shell_gc_root }),
            failure: None,
        },
        EventI::Failure { nix_file, failure } => EventV {
            kind: EventKind::Failure,
            section: None,
            reason: None,
            result: None,
            failure: Some(failure_to_wire(nix_file, failure)),
        },
    }
}

/// The wire form of a reason.
pub fn reason_to_proto(r: &Reason) -> (w: proto::Reason)
    ensures
        w@ == reason_to_wire(r@),
{
    match r {
        ReasonI::PingReceived => proto::Reason { kind: ReasonKind::PingReceived, project: None, files: None },
        ReasonI::ProjectAdded(nix_file) => proto::Reason {
            kind: ReasonKind::ProjectAdded,
            project: Some(nix_file.display().to_string()),
            files: None,
        },
        ReasonI::FilesChanged(changed) => {
            let files = crate::build_loop::clone_strings(changed);
            proof {
                assert(proto::texts(files@) == strings_view(files@));
            }
            proto::Reason { kind: ReasonKind::FilesChanged, project: None, files: Some(files) }
        },
    }
}

/// The wire form of a failure of the project with nix file `nix_file`.
pub fn failure_to_proto(nix_file: &NixFile, failure: &BuildError) -> (w: proto::Failure)
    ensures
        w@ == failure_to_wire(nix_file@, failure@),
{
    let nix = nix_file.display().to_string();
    match failure {
        BuildError::Io { msg } => proto::Failure {
            kind: FailureKind::Io,
            nix_file: nix,
            io: Some(proto::IOFail { message: msg.clone() }),
            spawn: None,
            exit: None,
            output: None,
        },
        BuildError::Spawn { cmd, msg } => proto::Failure {
            kind: FailureKind::Spawn,
            nix_file: nix,
            io: None,
            spawn: Some(proto::SpawnFail { command: cmd.clone(), message: msg.clone() }),
            exit: None,
            output: None,
        },
        BuildError::Exit { cmd, status, logs } => {
            let mut lines: Vec<String> = Vec::new();
            let mut i: usize = 0;
            while i < logs.len()
                invariant
                    i <= logs@.len(),
                    lines@.len() == i,
                    forall|k: int| 0 <= k < i ==> (#[trigger] lines@[k])@ == log_text(logs@[k]@),
                decreases logs@.len() - i,
            {
                lines.push(log_line_to_string(&logs[i]));
                i = i + 1;
            }
            let st = match status {
                Some(c) => Some(*c as i64),
                None => None,
            };
            proof {
                assert(proto::texts(lines@) =~= logs_view(logs@).map_values(|l: Seq<u8>| log_text(l)));
            }
            proto::Failure {
                kind: FailureKind::Exit,
                nix_file: nix,
                io: None,
                spawn: None,
                exit: Some(proto::ExitFail { command: cmd.clone(), status: st, logs: lines }),
                output: None,
            }
        },
        BuildError::Output { msg } => proto::Failure {
            kind: FailureKind::Output,
            nix_file: nix,
            io: None,
            spawn: None,
            exit: None,
            output: Some(proto::OutputFail { message: msg.clone() }),
        },
    }
}

/// The wire form of an event.
pub fn event_to_proto(ev: &Event) -> (w: proto::Event)
    ensures
        w@ == event_to_wire(ev@),
{
    match ev {
        EventI::SectionEnd => proto::Event {
            kind: EventKind::SectionEnd,
            section: Some(proto::SectionMarker {  }),
            reason: None,
            result: None,
            failure: None,
        },
        EventI::Started { reason, .. } => proto::Event {
            kind: EventKind::Started,
            section: None,
            reason: Some(reason_to_proto(reason)),
            result: None,
            failure: None,
        },
        EventI::Completed { nix_file, rooted_output_paths } => proto::Event {
            kind: EventKind::Completed,
            section: None,
            reason: None,
            result: Some(
                proto::Outcome {
                    nix_file: nix_file.display().to_string(),
                    project_root: rooted_output_paths.shell_gc_root.display().to_string(),
                },
            ),
            failure: None,
        },
        EventI::Failure { nix_file, failure } => proto::Event {
            kind: EventKind::Failure,
            section: None,
            reason: None,
            result: None,
            failure: Some(failure_to_proto(nix_file, failure)),
        },
    }
}

/// The error for a path on the wire that is not absolute.
pub open spec fn not_absolute_msg() -> Seq<char> {
    "path is not absolute"@
}

/// A path from the wire, which has to be absolute.
pub open spec fn abs_from_wire(p: Seq<char>) -> Result<Seq<char>, Seq<char>> {
    if is_absolute(p) {
        Ok(p)
    } else {
        Err(not_absolute_msg())
    }
}

/// A reason from its wire form.
pub open spec fn reason_from_wire(r: ReasonV) -> Result<ReasonView<Seq<char>>, Seq<char>> {
    match r.kind {
        ReasonKind::PingReceived => Ok(ReasonView::PingReceived),
        ReasonKind::ProjectAdded => match r.project {
            None => Err("missing nix file!"@),
            Some(p) => match abs_from_wire(p) {
                Ok(n) => Ok(ReasonView::ProjectAdded(n)),
                Err(e) => Err(e),
            },
        },
        ReasonKind::FilesChanged => match r.files {
            None => Err("missing files!"@),
            Some(v) => Ok(ReasonView::FilesChanged(v)),
        },
    }
}

/// The exit status from its wire form.
pub open spec fn status_from_wire(status: Option<i64>) -> Option<i32> {
    match status {
        Some(i) => Some(i as i32),
        None => None,
    }
}

/// The error for a failure whose details do not match its kind.
pub open spec fn unexpected_failure_msg() -> Seq<char> {
    "unexpected form of proto::Failure"@
}

/// A build error from the wire form of a failure.
pub open spec fn build_error_from_wire(f: FailureV) -> Result<BuildErrorView, Seq<char>> {
    match f.kind {
        FailureKind::Io => match f.io {
            Some(m) => Ok(BuildErrorView::Io { msg: m }),
            None => Err(unexpected_failure_msg()),
        },
        FailureKind::Spawn => match f.spawn {
            Some(cm) => Ok(BuildErrorView::Spawn { cmd: cm.0, msg: cm.1 }),
            None => Err(unexpected_failure_msg()),
        },
        FailureKind::Exit => match f.exit {
            Some(x) => Ok(
                BuildErrorView::Exit {
                    cmd: x.command,
                    status: status_from_wire(x.status),
                    logs: x.logs.map_values(|l: Seq<char>| encode_utf8(l)),
                },
            ),
            None => Err(unexpected_failure_msg()),
        },
        FailureKind::Output => match f.output {
            Some(m) => Ok(BuildErrorView::Output { msg: m }),
            None => Err(unexpected_failure_msg()),
        },
    }
}

/// An event from its wire form. A `Started` event takes its nix file from the project of
/// its reason, so only reasons that name a project can be read back.
pub open spec fn event_from_wire(w: EventV) -> Result<EventView, Seq<char>> {
    match w.kind {
        EventKind::SectionEnd => Ok(EventI::SectionEnd),
        EventKind::Started => match w.reason {
            None => Err("missing reason"@),
            Some(r) => match r.project {
                None => Err("missing nix file!"@),
                Some(p) => match abs_from_wire(p) {
                    Err(e) => Err(e),
                    Ok(n) => match reason_from_wire(r) {
                        Err(e) => Err(e),
                        Ok(reason) => Ok(EventI::Started { nix_file: n, reason }),
                    },
                },
            },
        },
        EventKind::Completed => match w.result {
            None => Err("missing result"@),
            Some(o) => match abs_from_wire(o.nix_file) {
                Err(e) => Err(e),
                Ok(n) => match abs_from_wire(o.project_root) {
                    Err(e) => Err(e),
                    Ok(root) => Ok(
                        EventI::Completed {
                            nix_file: n,
                            rooted_output_paths: OutputPath { shell_gc_root: root },
                        },
                    ),
                },
            },
        },
        EventKind::Failure => match w.failure {
            None => Err("missing failure log"@),
            Some(f) => match abs_from_wire(f.nix_file) {
                Err(e) => Err(e),
                Ok(n) => match build_error_from_wire(f) {
                    Err(e) => Err(e),
                    Ok(b) => Ok(EventI::Failure { nix_file: n, failure: b }),
                },
            },
        },
    }
}

/// Whether `r` holds the value (or the error) of `spec`.
pub open spec fn result_is<T: View, U>(r: Result<T, String>, spec: Result<U, Seq<char>>) -> bool
    where T: View<V = U>
{
    match r {
        Ok(v) => spec == Ok::<U, Seq<char>>(v@),
        Err(m) => spec == Err::<U, Seq<char>>(m@),
    }
}

fn abs_path_from_proto(p: String) -> (r: Result<AbsPathBuf, String>)
    ensures
        match r {
            Ok(a) => abs_from_wire(p@) == Ok::<Seq<char>, Seq<char>>(a@),
            Err(m) => abs_from_wire(p@) == Err::<Seq<char>, Seq<char>>(m@),
        },
{
    match AbsPathBuf::new(p) {
        Ok(a) => Ok(a),
        Err(_) => Err(String::from_str("path is not absolute")),
    }
}

/// A reason from its wire form.
pub fn reason_from_proto(r: proto::Reason) -> (res: Result<Reason, String>)
    ensures
        result_is(res, reason_from_wire(r@)),
{
    match r.kind {
        ReasonKind::PingReceived => Ok(ReasonI::PingReceived),
        ReasonKind::ProjectAdded => match r.project {
            None => Err(String::from_str("missing nix file!")),
            Some(p) => match abs_path_from_proto(p) {
                Ok(a) => Ok(ReasonI::ProjectAdded(NixFile(a))),
                Err(e) => Err(e),
            },
        },
        ReasonKind::FilesChanged => match r.files {
            None => Err(String::from_str("missing files!")),
            Some(v) => {
                proof {
                    assert(strings_view(v@) == proto::texts(v@));
                }
                Ok(ReasonI::FilesChanged(v))
            },
        },
    }
}

/// A build error from the wire form of a failure.
pub fn build_error_from_proto(f: proto::Failure) -> (res: Result<BuildError, String>)
    ensures
        result_is(res, build_error_from_wire(f@)),
{
    match f.kind {
        FailureKind::Io => match f.io {
            Some(i) => Ok(BuildError::Io { msg: i.message }),
            None => Err(String::from_str("unexpected form of proto::Failure")),
        },
        FailureKind::Spawn => match f.spawn {
            Some(sp) => Ok(BuildError::Spawn { cmd: sp.command, msg: sp.message }),
            None => Err(String::from_str("unexpected form of proto::Failure")),
        },
        FailureKind::Exit => match f.exit {
            Some(x) => {
                let ghost lines = proto::texts(x.logs@);
                let mut logs: Vec<LogLine> = Vec::new();
                let rest = &x.logs;
                let mut i: usize = 0;
                let n = rest.len();
                while i < n
                    invariant
                        n == lines.len(),
                        i <= n,
                        lines == proto::texts(rest@),
                        logs@.len() == i,
                        forall|k: int| 0 <= k < i ==> (#[trigger] logs@[k])@ == encode_utf8(lines[k]),
                    decreases n - i,
                {
                    let line = rest[i].clone();
                    logs.push(log_line_from_string(line));
                    i = i + 1;
                }
                let status = match x.status {
                    Some(c) => Some(c as i32),
                    None => None,
                };
                proof {
                    assert(logs_view(logs@) =~= lines.map_values(|l: Seq<char>| encode_utf8(l)));
                }
                Ok(BuildError::Exit { cmd: x.command, status, logs })
            },
            None => Err(String::from_str("unexpected form of proto::Failure")),
        },
        FailureKind::Output => match f.output {
            Some(o) => Ok(BuildError::Output { msg: o.message }),
            None => Err(String::from_str("unexpected form of proto::Failure")),
        },
    }
}

/// An event from its wire form.
pub fn event_from_proto(w: proto::Event) -> (res: Result<Event, String>)
    ensures
        result_is(res, event_from_wire(w@)),
{
    match w.kind {
        EventKind::SectionEnd => Ok(EventI::SectionEnd),
        EventKind::Started => match w.reason {
            None => Err(String::from_str("missing reason")),
            Some(r) => {
                let ghost rv = r@;
                match &r.project {
                    None => Err(String::from_str("missing nix file!")),
                    Some(p) => match abs_path_from_proto(p.clone()) {
                        Err(e) => Err(e),
                        Ok(a) => match reason_from_proto(r) {
                            Err(e) => Err(e),
                            Ok(reason) => Ok(EventI::Started { nix_file: NixFile(a), reason }),
                        },
                    },
                }
            },
        },
        EventKind::Completed => match w.result {
            None => Err(String::from_str("missing result")),
            Some(o) => match abs_path_from_proto(o.nix_file) {
                Err(e) => Err(e),
                Ok(n) => match abs_path_from_proto(o.project_root) {
                    Err(e) => Err(e),
                    Ok(root) => Ok(
                        EventI::Completed {
                            nix_file: NixFile(n),
                            rooted_output_paths: OutputPath { shell_gc_root: RootPath(root) },
                        },
                    ),
                },
            },
        },
        EventKind::Failure => match w.failure {
            None => Err(String::from_str("missing failure log")),
            Some(f) => match abs_path_from_proto(f.nix_file.clone()) {
                Err(e) => Err(e),
                Ok(n) => match build_error_from_proto(f) {
                    Err(e) => Err(e),
                    Ok(b) => Ok(EventI::Failure { nix_file: NixFile(n), failure: b }),
                },
            },
        },
    }
}

/// The paths that an event holds are absolute (as every `NixFile` and `RootPath` is).
pub open spec fn event_paths_absolute(e: EventView) -> bool {
    match e {
        EventI::SectionEnd => true,
        EventI::Started { nix_file, reason } => is_absolute(nix_file) && (reason matches ReasonView::ProjectAdded(n) ==> is_absolute(n)),
        EventI::Completed { nix_file, rooted_output_paths } => is_absolute(nix_file) && is_absolute(rooted_output_paths.shell_gc_root),
        EventI::Failure { nix_file, .. } => is_absolute(nix_file),
    }
}

/// The events that the wire format carries without loss: a `Started` event only when its
/// reason is the addition of its own project, and an exit failure only when its logs are
/// valid UTF-8.
pub open spec fn wire_preserves(e: EventView) -> bool {
    match e {
        EventI::Started { nix_file, reason } => reason == ReasonView::ProjectAdded(nix_file),
        EventI::Failure { failure, .. } => match failure {
            BuildErrorView::Exit { logs, .. } => forall|k: int| 0 <= k < logs.len() ==> valid_utf8(#[trigger] logs[k]),
            _ => true,
        },
        _ => true,
    }
}

/// Reading back what was written: an event sent over the wire is received as the same event.
pub proof fn lemma_wire_round_trip(e: EventView)
    requires
        event_paths_absolute(e),
        wire_preserves(e),
    ensures
        event_from_wire(event_to_wire(e)) == Ok::<EventView, Seq<char>>(e),
{
    match e {
        EventI::Failure { nix_file, failure } => {
            match failure {
                BuildErrorView::Exit { cmd, status, logs } => {
                    let text = logs.map_values(|l: Seq<u8>| log_text(l));
                    let back = text.map_values(|l: Seq<char>| encode_utf8(l));
                    assert forall|k: int| 0 <= k < logs.len() implies back[k] == logs[k] by {
                        assert(valid_utf8(logs[k]));
                        vstd::utf8::decode_utf8_encode_utf8(logs[k]);
                    }
                    assert(back =~= logs);
                    match status {
                        Some(c) => {
                            assert((c as i64) as i32 == c) by (bit_vector);
                        },
                        None => {},
                    }
                },
                _ => {},
            }
        },
        _ => {},
    }
}

} // verus!

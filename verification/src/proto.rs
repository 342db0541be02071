//! The wire format of build events, as the daemon's RPC interface transmits them.

use vstd::prelude::*;

verus! {

/// Marks the end of a section of events.
#[derive(Debug, Clone, Copy, PartialEq, Eq)]
pub struct SectionMarker {}

/// The kind of an event.
#[derive(Debug, Clone, Copy, PartialEq, Eq)]
pub enum EventKind {
    /// The end of the events from recent history
    SectionEnd,
    /// A build started
    Started,
    /// A build completed
    Completed,
    /// A build failed
    Failure,
}

/// The kind of a reason for a build.
#[derive(Debug, Clone, Copy, PartialEq, Eq)]
pub enum ReasonKind {
    /// A ping was received
    PingReceived,
    /// A project was added
    ProjectAdded,
    /// Files changed
    FilesChanged,
}

/// The kind of a build failure.
#[derive(Debug, Clone, Copy, PartialEq, Eq)]
pub enum FailureKind {
    /// An I/O error
    Io,
    /// Nix could not be spawned
    Spawn,
    /// Nix exited with an error
    Exit,
    /// Nix produced unexpected output
    Output,
}

/// Why a build started.
#[derive(Debug)]
pub struct Reason {
    /// The kind of reason
    pub kind: ReasonKind,
    /// The project that was added, for `ProjectAdded`
    pub project: Option<String>,
    /// The files that changed, for `FilesChanged`
    pub files: Option<Vec<String>>,
}

/// The result of a successful build.
#[derive(Debug)]
pub struct Outcome {
    /// The nix file of the project
    pub nix_file: String,
    /// The GC root of the built environment
    pub project_root: String,
}

/// Details of an I/O failure.
#[derive(Debug)]
pub struct IOFail {
    /// The error message
    pub message: String,
}

/// Details of a failure to spawn Nix.
#[derive(Debug)]
pub struct SpawnFail {
    /// The command that could not be spawned
    pub command: String,
    /// The error message
    pub message: String,
}

/// Details of a Nix process that exited with an error.
#[derive(Debug)]
pub struct ExitFail {
    /// The command that failed
    pub command: String,
    /// Its exit status, if it exited normally
    pub status: Option<i64>,
    /// Its error log, line by line
    pub logs: Vec<String>,
}

/// Details of unexpected output of Nix.
#[derive(Debug)]
pub struct OutputFail {
    /// The error message
    pub message: String,
}

/// A failed build.
#[derive(Debug)]
pub struct Failure {
    /// The kind of failure
    pub kind: FailureKind,
    /// The nix file of the project
    pub nix_file: String,
    /// Details for `Io`
    pub io: Option<IOFail>,
    /// Details for `Spawn`
    pub spawn: Option<SpawnFail>,
    /// Details for `Exit`
    pub exit: Option<ExitFail>,
    /// Details for `Output`
    pub output: Option<OutputFail>,
}

/// A build event.
#[derive(Debug)]
pub struct Event {
    /// The kind of event
    pub kind: EventKind,
    /// Present for `SectionEnd`
    pub section: Option<SectionMarker>,
    /// Present for `Started`
    pub reason: Option<Reason>,
    /// Present for `Completed`
    pub result: Option<Outcome>,
    /// Present for `Failure`
    pub failure: Option<Failure>,
}

/// The content of a `Reason`.
pub struct ReasonV {
    pub kind: ReasonKind,
    pub project: Option<Seq<char>>,
    pub files: Option<Seq<Seq<char>>>,
}

/// The content of an `Outcome`.
pub struct OutcomeV {
    pub nix_file: Seq<char>,
    pub project_root: Seq<char>,
}

/// The content of an `ExitFail`.
pub struct ExitFailV {
    pub command: Seq<char>,
    pub status: Option<i64>,
    pub logs: Seq<Seq<char>>,
}

/// The content of a `Failure`.
pub struct FailureV {
    pub kind: FailureKind,
    pub nix_file: Seq<char>,
    pub io: Option<Seq<char>>,
    pub spawn: Option<(Seq<char>, Seq<char>)>,
    pub exit: Option<ExitFailV>,
    pub output: Option<Seq<char>>,
}

/// The content of an `Event`.
pub struct EventV {
    pub kind: EventKind,
    pub section: Option<SectionMarker>,
    pub reason: Option<ReasonV>,
    pub result: Option<OutcomeV>,
    pub failure: Option<FailureV>,
}

/// The texts of a list of strings.
pub open spec fn texts(v: Seq<String>) -> Seq<Seq<char>> {
    v.map_values(|s: String| s@)
}

impl View for Reason {
    type V = ReasonV;

    open spec fn view(&self) -> ReasonV {
        ReasonV {
            kind: self.kind,
            project: match self.project {
                Some(p) => Some(p@),
                None => None,
            },
            files: match self.files {
                Some(f) => Some(texts(f@)),
                None => None,
            },
        }
    }
}

impl View for Outcome {
    type V = OutcomeV;

    open spec fn view(&self) -> OutcomeV {
        OutcomeV { nix_file: self.nix_file@, project_root: self.project_root@ }
    }
}

impl View for Failure {
    type V = FailureV;

    open spec fn view(&self) -> FailureV {
        FailureV {
            kind: self.kind,
            nix_file: self.nix_file@,
            io: match self.io {
                Some(i) => Some(i.message@),
                None => None,
            },
            spawn: match self.spawn {
                Some(s) => Some((s.command@, s.message@)),
                None => None,
            },
            exit: match self.exit {
                Some(e) => Some(ExitFailV { command: e.command@, status: e.status, logs: texts(e.logs@) }),
                None => None,
            },
            output: match self.output {
                Some(o) => Some(o.message@),
                None => None,
            },
        }
    }
}

impl View for Event {
    type V = EventV;

    open spec fn view(&self) -> EventV {
        EventV {
            kind: self.kind,
            section: self.section,
            reason: match self.reason {
                Some(r) => Some(r@),
                None => None,
            },
            result: match self.result {
                Some(r) => Some(r@),
                None => None,
            },
            failure: match self.failure {
                Some(f) => Some(f@),
                None => None,
            },
        }
    }
}

} // verus!

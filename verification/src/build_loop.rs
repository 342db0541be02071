//! Uses `builder` and filesystem watch code to repeatedly
//! evaluate and build a given Nix file.
//!
//! The loop itself (waiting for file changes, pings and finished builds) runs outside of this
//! module; here are the decisions it takes: when to start a build, when to schedule one, and
//! which events to report.

use crate::builder::{BuildError, OutputPath};
use crate::path::NixFile;
use crate::project::RootPath;
use crate::watch::{WatchPathBuf, opt_texts_view, reduce_paths, reduced_paths, watch_paths_view};
use vstd::prelude::*;

verus! {

/// Build events that can happen.
/// Abstracting over its internal to make different serialize instances possible.
#[derive(Debug)]
pub enum EventI<NixFile, Reason, OutputPath, BuildError> {
    /// Demarks a stream of events from recent history becoming live
    SectionEnd,
    /// A build has started
    Started {
        /// The shell.nix file for the building project
        nix_file: NixFile,
        /// The reason the build started
        reason: Reason,
    },
    /// A build completed successfully
    Completed {
        /// The shell.nix file for the building project
        nix_file: NixFile,
        /// the output paths of the build
        rooted_output_paths: OutputPath,
    },
    /// A build command returned a failing exit status
    Failure {
        /// The shell.nix file for the building project
        nix_file: NixFile,
        /// The error that exited the build
        failure: BuildError,
    },
}

impl<A: View, B: View, C: View, D: View> View for EventI<A, B, C, D> {
    type V = EventI<A::V, B::V, C::V, D::V>;

    open spec fn view(&self) -> EventI<A::V, B::V, C::V, D::V> {
        match self {
            EventI::SectionEnd => EventI::SectionEnd,
            EventI::Started { nix_file, reason } => EventI::Started {
                nix_file: nix_file@,
                reason: reason@,
            },
            EventI::Completed { nix_file, rooted_output_paths } => EventI::Completed {
                nix_file: nix_file@,
                rooted_output_paths: rooted_output_paths@,
            },
            EventI::Failure { nix_file, failure } => EventI::Failure {
                nix_file: nix_file@,
                failure: failure@,
            },
        }
    }
}

/// Whether `r` is `e` with each of its parts mapped by the corresponding function.
pub open spec fn event_mapped<A, B, C, D, A2, B2, C2, D2, F, G, H, I>(
    e: EventI<A, B, C, D>,
    r: EventI<A2, B2, C2, D2>,
    f: F,
    g: G,
    h: H,
    i: I,
) -> bool where F: Fn(A) -> A2, G: Fn(B) -> B2, H: Fn(C) -> C2, I: Fn(D) -> D2 {
    match (e, r) {
        (EventI::SectionEnd, EventI::SectionEnd) => true,
        (EventI::Started { nix_file, reason }, EventI::Started { nix_file: n2, reason: r2 }) => {
            call_ensures(f, (nix_file,), n2) && call_ensures(g, (reason,), r2)
        },
        (
            EventI::Completed { nix_file, rooted_output_paths },
            EventI::Completed { nix_file: n2, rooted_output_paths: o2 },
        ) => call_ensures(f, (nix_file,), n2) && call_ensures(h, (rooted_output_paths,), o2),
        (EventI::Failure { nix_file, failure }, EventI::Failure { nix_file: n2, failure: b2 }) => {
            call_ensures(f, (nix_file,), n2) && call_ensures(i, (failure,), b2)
        },
        _ => false,
    }
}

/// Whether each function accepts the corresponding part of `e`.
pub open spec fn event_map_accepted<A, B, C, D, A2, B2, C2, D2, F, G, H, I>(
    e: EventI<A, B, C, D>,
    f: F,
    g: G,
    h: H,
    i: I,
) -> bool where F: Fn(A) -> A2, G: Fn(B) -> B2, H: Fn(C) -> C2, I: Fn(D) -> D2 {
    match e {
        EventI::SectionEnd => true,
        EventI::Started { nix_file, reason } => call_requires(f, (nix_file,)) && call_requires(
            g,
            (reason,),
        ),
        EventI::Completed { nix_file, rooted_output_paths } => call_requires(f, (nix_file,))
            && call_requires(h, (rooted_output_paths,)),
        EventI::Failure { nix_file, failure } => call_requires(f, (nix_file,)) && call_requires(
            i,
            (failure,),
        ),
    }
}

impl<NixFile, Reason, OutputPath, BuildError> EventI<NixFile, Reason, OutputPath, BuildError> {
    /// Map over the inner types.
    pub fn map<F, G, H, I, NixFile2, Reason2, OutputPaths2, BuildError2>(
        self,
        nix_file_f: F,
        reason_f: G,
        output_paths_f: H,
        build_error_f: I,
    ) -> (r: EventI<NixFile2, Reason2, OutputPaths2, BuildError2>) where
        F: Fn(NixFile) -> NixFile2,
        G: Fn(Reason) -> Reason2,
        H: Fn(OutputPath) -> OutputPaths2,
        I: Fn(BuildError) -> BuildError2,

        requires
            event_map_accepted(self, nix_file_f, reason_f, output_paths_f, build_error_f),
        ensures
            event_mapped(self, r, nix_file_f, reason_f, output_paths_f, build_error_f),
    {
        match self {
            EventI::SectionEnd => EventI::SectionEnd,
            EventI::Started { nix_file, reason } => EventI::Started {
                nix_file: nix_file_f(nix_file),
                reason: reason_f(reason),
            },
            EventI::Completed { nix_file, rooted_output_paths } => EventI::Completed {
                nix_file: nix_file_f(nix_file),
                rooted_output_paths: output_paths_f(rooted_output_paths),
            },
            EventI::Failure { nix_file, failure } => EventI::Failure {
                nix_file: nix_file_f(nix_file),
                failure: build_error_f(failure),
            },
        }
    }
}

/// Description of the project change that triggered a build.
#[derive(Debug)]
pub enum ReasonI<NixFile> {
    /// When a project is presented to Lorri to track, it's built for this reason.
    ProjectAdded(NixFile),
    /// When a ping is received.
    PingReceived,
    /// When there is a filesystem change, the changed files are recorded.
    FilesChanged(Vec<String>),
}

/// The content of a `ReasonI`.
pub enum ReasonView<N> {
    /// See `ReasonI::ProjectAdded`
    ProjectAdded(N),
    /// See `ReasonI::PingReceived`
    PingReceived,
    /// See `ReasonI::FilesChanged`
    FilesChanged(Seq<Seq<char>>),
}

/// The texts of a list of strings.
pub open spec fn strings_view(v: Seq<String>) -> Seq<Seq<char>> {
    v.map_values(|s: String| s@)
}

impl<N: View> View for ReasonI<N> {
    type V = ReasonView<N::V>;

    open spec fn view(&self) -> ReasonView<N::V> {
        match self {
            ReasonI::ProjectAdded(n) => ReasonView::ProjectAdded(n@),
            ReasonI::PingReceived => ReasonView::PingReceived,
            ReasonI::FilesChanged(v) => ReasonView::FilesChanged(strings_view(v@)),
        }
    }
}

impl<NixFile> ReasonI<NixFile> {
    /// Map over the inner types.
    pub fn map<F, NixFile2>(self, nix_file_f: F) -> (r: ReasonI<NixFile2>) where
        F: Fn(NixFile) -> NixFile2,

        requires
            self matches ReasonI::ProjectAdded(n) ==> call_requires(nix_file_f, (n,)),
        ensures
            match self {
                ReasonI::ProjectAdded(n) => r matches ReasonI::ProjectAdded(n2) && call_ensures(
                    nix_file_f,
                    (n,),
                    n2,
                ),
                ReasonI::PingReceived => r is PingReceived,
                ReasonI::FilesChanged(v) => r matches ReasonI::FilesChanged(v2) && v2 == v,
            },
    {
        match self {
            ReasonI::ProjectAdded(nix_file) => ReasonI::ProjectAdded(nix_file_f(nix_file)),
            ReasonI::PingReceived => ReasonI::PingReceived,
            ReasonI::FilesChanged(vec) => ReasonI::FilesChanged(vec),
        }
    }
}

/// The reason a build started, for a project's nix file.
pub type Reason = ReasonI<NixFile>;

/// Builder events sent back from a build loop.
pub type Event = EventI<NixFile, Reason, OutputPath<RootPath>, BuildError>;

/// The content of an `Event`.
pub type EventView = EventI<Seq<char>, ReasonView<Seq<char>>, OutputPath<Seq<char>>, crate::builder::BuildErrorView>;

/// Clone a list of strings.
pub fn clone_strings(v: &Vec<String>) -> (r: Vec<String>)
    ensures
        strings_view(r@) == strings_view(v@),
{
    let mut r: Vec<String> = Vec::new();
    let mut i: usize = 0;
    while i < v.len()
        invariant
            i <= v@.len(),
            r@.len() == i,
            forall|k: int| 0 <= k < i ==> (#[trigger] r@[k])@ == v@[k]@,
        decreases v@.len() - i,
    {
        r.push(v[i].clone());
        i = i + 1;
    }
    proof {
        assert(strings_view(r@) =~= strings_view(v@));
    }
    r
}

impl Clone for Reason {
    fn clone(&self) -> (r: Self)
        ensures
            r@ == self@,
    {
        match self {
            ReasonI::ProjectAdded(n) => ReasonI::ProjectAdded(n.clone()),
            ReasonI::PingReceived => ReasonI::PingReceived,
            ReasonI::FilesChanged(v) => ReasonI::FilesChanged(clone_strings(v)),
        }
    }
}

impl Clone for Event {
    fn clone(&self) -> (r: Self)
        ensures
            r@ == self@,
    {
        match self {
            EventI::SectionEnd => EventI::SectionEnd,
            EventI::Started { nix_file, reason } => EventI::Started {
                nix_file: nix_file.clone(),
                reason: reason.clone(),
            },
            EventI::Completed { nix_file, rooted_output_paths } => EventI::Completed {
                nix_file: nix_file.clone(),
                rooted_output_paths: rooted_output_paths.clone(),
            },
            EventI::Failure { nix_file, failure } => EventI::Failure {
                nix_file: nix_file.clone(),
                failure: failure.clone(),
            },
        }
    }
}


/// What the build loop knows about its builds: whether a build is running, and whether
/// another one was requested while it was running.
#[derive(Debug, Clone, Copy, PartialEq, Eq)]
pub struct BuildLoopState {
    /// A build is currently running.
    pub is_building: bool,
    /// Another build should start as soon as the current one finishes.
    pub scheduled: bool,
}

/// Something the build loop waited for has happened.
#[derive(Debug)]
pub enum LoopInput {
    /// The running build finished (successfully or not).
    BuildFinished,
    /// The watcher found changes to these input files.
    FilesChanged(Vec<String>),
    /// The loop was pinged.
    Pinged,
}

/// What the build loop has to do in reaction to an input, in order.
#[derive(Debug)]
pub enum LoopAction {
    /// Start a build of the project.
    StartBuild,
    /// Report this event.
    SendEvent(Event),
}

/// What the build loop reports about the result of a finished build.
#[derive(Debug)]
pub enum LoopReaction {
    /// Report this event.
    SendEvent(Event),
    /// The error cannot be acted upon by the user: the loop has to stop with it.
    Unrecoverable(BuildError),
}

/// A build is only scheduled while one is running.
pub open spec fn loop_state_wf(s: BuildLoopState) -> bool {
    s.scheduled ==> s.is_building
}

/// The state after an input: `finished` for a finished build, otherwise a change or a ping.
pub open spec fn next_loop_state(s: BuildLoopState, finished: bool) -> BuildLoopState {
    if finished {
        BuildLoopState { is_building: s.scheduled, scheduled: false }
    } else if s.is_building {
        BuildLoopState { is_building: true, scheduled: true }
    } else {
        BuildLoopState { is_building: true, scheduled: s.scheduled }
    }
}

/// Whether the input makes the loop start a build right away.
pub open spec fn starts_build(s: BuildLoopState, finished: bool) -> bool {
    if finished {
        s.scheduled
    } else {
        !s.is_building
    }
}

/// The `Started` event that a change or a ping causes.
pub open spec fn started_event_view(
    nix_file: Seq<char>,
    input: LoopInput,
) -> EventI<Seq<char>, ReasonView<Seq<char>>, OutputPath<Seq<char>>, crate::builder::BuildErrorView> {
    EventI::Started {
        nix_file,
        reason: match input {
            LoopInput::FilesChanged(v) => ReasonView::FilesChanged(strings_view(v@)),
            _ => ReasonView::PingReceived,
        },
    }
}

impl BuildLoopState {
    /// The state of a fresh build loop: nothing running, nothing scheduled.
    pub fn new() -> (s: BuildLoopState)
        ensures
            !s.is_building,
            !s.scheduled,
            loop_state_wf(s),
    {
        BuildLoopState { is_building: false, scheduled: false }
    }

    /// React to an input of the loop for the project of `nix_file`.
    ///
    /// A change or a ping is reported as a `Started` event; it starts a build when none is
    /// running, and otherwise schedules one to run right after the current build.
    /// A finished build starts the scheduled build, if any.
    pub fn step(&mut self, nix_file: &NixFile, input: LoopInput) -> (actions: Vec<LoopAction>)
        requires
            loop_state_wf(*old(self)),
            input is BuildFinished ==> old(self).is_building,
        ensures
            loop_state_wf(*final(self)),
            *final(self) == next_loop_state(*old(self), input is BuildFinished),
            input is BuildFinished ==> actions@.len() == (if starts_build(*old(self), true) {
                1int
            } else {
                0int
            }) && (actions@.len() == 1 ==> actions@[0] is StartBuild),
            !(input is BuildFinished) ==> actions@.len() == (if starts_build(*old(self), false) {
                2int
            } else {
                1int
            }) && (actions@[0] matches LoopAction::SendEvent(e) && e@ == started_event_view(
                nix_file@,
                input,
            )) && (actions@.len() == 2 ==> actions@[1] is StartBuild),
    {
        let ghost old_self = *self;
        let ghost input_copy = input;
        let mut actions: Vec<LoopAction> = Vec::new();
        match input {
            LoopInput::BuildFinished => {
                // if there’s another build scheduled, start it.
                if self.scheduled {
                    self.scheduled = false;
                    self.is_building = true;
                    actions.push(LoopAction::StartBuild);
                } else {
                    self.is_building = false;
                }
            },
            LoopInput::FilesChanged(changed) => {
                let ghost v = strings_view(changed@);
                actions.push(
                    LoopAction::SendEvent(
                        EventI::Started {
                            nix_file: nix_file.clone(),
                            reason: ReasonI::FilesChanged(changed),
                        },
                    ),
                );
                // start a build, or if one is already running, schedule it.
                if self.is_building {
                    self.scheduled = true;
                } else {
                    self.is_building = true;
                    actions.push(LoopAction::StartBuild);
                }
            },
            LoopInput::Pinged => {
                actions.push(
                    LoopAction::SendEvent(
                        EventI::Started { nix_file: nix_file.clone(), reason: ReasonI::PingReceived },
                    ),
                );
                // start a build, or if one is already running, schedule it.
                if self.is_building {
                    self.scheduled = true;
                } else {
                    self.is_building = true;
                    actions.push(LoopAction::StartBuild);
                }
            },
        }
        actions
    }
}

/// The event (or the stop) that the result of a finished build leads to.
pub open spec fn reaction_for(nix_file: Seq<char>, outcome: Result<OutputPath<RootPath>, BuildError>, r: LoopReaction) -> bool {
    match outcome {
        Ok(paths) => r matches LoopReaction::SendEvent(e) && e@ == EventI::<
            Seq<char>,
            ReasonView<Seq<char>>,
            OutputPath<Seq<char>>,
            crate::builder::BuildErrorView,
        >::Completed { nix_file, rooted_output_paths: paths@ },
        Err(err) => if crate::builder::actionable(err) {
            r matches LoopReaction::SendEvent(e) && e@ == EventI::<
                Seq<char>,
                ReasonView<Seq<char>>,
                OutputPath<Seq<char>>,
                crate::builder::BuildErrorView,
            >::Failure { nix_file, failure: err@ }
        } else {
            r matches LoopReaction::Unrecoverable(e2) && e2@ == err@
        },
    }
}

/// Turn the result of a finished build into what the loop does next: first the paths to add to
/// the watch list, then the event to report.
///
/// `referenced` are the paths the build's evaluation referenced (none when the evaluation
/// failed), with `store_links[i]` where `referenced[i]` links to when it is a symlink inside
/// the nix store; they are watched after reduction (see `reduced_paths`), whether or not
/// rooting the output then succeeded. `outcome` is the result after rooting the output:
/// `Completed` on success, `Failure` for an error the user can act upon, and otherwise an
/// unrecoverable error that stops the loop.
pub fn outcome_reaction(
    nix_file: &NixFile,
    referenced: &Vec<WatchPathBuf>,
    store_links: &Vec<Option<String>>,
    outcome: Result<OutputPath<RootPath>, BuildError>,
) -> (r: (Vec<WatchPathBuf>, LoopReaction))
    requires
        store_links@.len() == referenced@.len(),
    ensures
        watch_paths_view(r.0@) == reduced_paths(watch_paths_view(referenced@), opt_texts_view(store_links@)),
        reaction_for(nix_file@, outcome, r.1),
{
    // add all new (reduced) nix sources to the input source watchlist
    let watch = reduce_paths(referenced, store_links);
    let reaction = match outcome {
        Ok(rooted_output_paths) => LoopReaction::SendEvent(
            EventI::Completed { nix_file: nix_file.clone(), rooted_output_paths },
        ),
        Err(e) => {
            if e.is_actionable() {
                LoopReaction::SendEvent(EventI::Failure { nix_file: nix_file.clone(), failure: e })
            } else {
                LoopReaction::Unrecoverable(e)
            }
        },
    };
    (watch, reaction)
}

/// The state after a run of inputs (`true` for a finished build, `false` for a change or
/// a ping), and the number of builds that were started along the way.
pub open spec fn run_inputs(s: BuildLoopState, inputs: Seq<bool>) -> (BuildLoopState, nat)
    decreases inputs.len(),
{
    if inputs.len() == 0 {
        (s, 0)
    } else {
        let (s2, n) = run_inputs(next_loop_state(s, inputs[0]), inputs.drop_first());
        (s2, if starts_build(s, inputs[0]) {
            n + 1
        } else {
            n
        })
    }
}

/// Never two builds at once: a build only starts when no build is running, or when the
/// running build has just finished.
pub proof fn lemma_one_build_at_a_time(s: BuildLoopState, finished: bool)
    requires
        loop_state_wf(s),
    ensures
        starts_build(s, finished) ==> (!s.is_building || finished),
        starts_build(s, finished) ==> next_loop_state(s, finished).is_building,
        loop_state_wf(next_loop_state(s, finished)),
{
}

/// A change or ping is never lost: afterwards a build is running, and if one was already
/// running, another one is scheduled to follow it.
pub proof fn lemma_trigger_not_lost(s: BuildLoopState)
    requires
        loop_state_wf(s),
    ensures
        next_loop_state(s, false).is_building,
        s.is_building ==> next_loop_state(s, false).scheduled,
        !s.is_building ==> starts_build(s, false),
{
}

/// Requests coalesce: while a build is running, any number `n` of changes and pings followed
/// by the end of that build start exactly one more build when `n > 0` (or when one was
/// already scheduled), and none otherwise. Afterwards nothing is scheduled.
pub proof fn lemma_requests_coalesce(s: BuildLoopState, n: nat)
    requires
        loop_state_wf(s),
        s.is_building,
    ensures
        ({
            let (s2, started) = run_inputs(s, Seq::new(n, |i: int| false).push(true));
            &&& started == (if n > 0 || s.scheduled {
                1nat
            } else {
                0nat
            })
            &&& s2.is_building == (n > 0 || s.scheduled)
            &&& !s2.scheduled
        }),
    decreases n,
{
    let inputs = Seq::new(n, |i: int| false).push(true);
    if n == 0 {
        assert(inputs.drop_first() =~= Seq::<bool>::empty());
        assert(inputs[0]);
        assert(run_inputs(next_loop_state(s, true), inputs.drop_first()) == (
        next_loop_state(s, true), 0nat));
    } else {
        let s1 = next_loop_state(s, false);
        assert(!inputs[0]);
        assert(inputs.drop_first() =~= Seq::new((n - 1) as nat, |i: int| false).push(true));
        lemma_requests_coalesce(s1, (n - 1) as nat);
    }
}

} // verus!

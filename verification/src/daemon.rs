//! The lorri daemon, watches multiple projects in the background.
//!
//! Here are the daemon's decisions: which build loop a request for a project goes to, and
//! what the daemon remembers of the builds of each project. Channels and tasks run outside.

use crate::build_loop::{Event, EventI, EventView};
use crate::builder::{BuildError, BuildErrorView};
use crate::path::{NixFile, components, path_eq};
use crate::project::ProjectFile;
use crate::socket::communicate::Rebuild;
use vstd::prelude::*;

verus! {

/// Indicate that the user is interested in a specific nix file.
/// Usually a nix file describes the environment of a project,
/// so the user editor would send this message when a file
/// in the project is opened, through `lorri direnv` for example.
///
/// `lorri internal ping` is the internal command which triggers this signal
/// and forces a rebuild.
#[derive(Debug)]
pub struct IndicateActivity {
    /// This nix file should be build/watched by the daemon.
    pub project_file: ProjectFile,
    /// Determines when this activity will cause a rebuild.
    pub rebuild: Rebuild,
}

/// What the daemon does for an indication of activity.
#[derive(Debug, Clone, Copy, PartialEq, Eq)]
pub enum ActivityAction {
    /// The project is watched already: ping its build loop to rebuild it.
    PingBuildLoop,
    /// The project is watched already and needs no rebuild.
    Skip,
    /// The project is new: start a build loop for it, and ping that loop to build it.
    StartBuildLoop,
}

/// The decision for an indication of activity, given whether the project is watched.
pub open spec fn activity_action(watched: bool, rebuild: Rebuild) -> ActivityAction {
    if !watched {
        ActivityAction::StartBuildLoop
    } else if rebuild == Rebuild::Always {
        ActivityAction::PingBuildLoop
    } else {
        ActivityAction::Skip
    }
}

/// The projects the daemon runs a build loop for, by nix file.
#[derive(Debug)]
pub struct BuildLoops {
    nix_files: Vec<NixFile>,
}

impl View for BuildLoops {
    type V = Set<Seq<Seq<char>>>;

    closed spec fn view(&self) -> Set<Seq<Seq<char>>> {
        Set::new(|c: Seq<Seq<char>>| exists|i: int| 0 <= i < self.nix_files@.len() && #[trigger] components(self.nix_files@[i]@) == c)
    }
}

impl BuildLoops {
    /// No project has two build loops.
    pub closed spec fn wf(self) -> bool {
        forall|i: int, j: int|
            0 <= i < j < self.nix_files@.len() ==> components(#[trigger] self.nix_files@[i]@) != components(
                #[trigger] self.nix_files@[j]@,
            )
    }

    /// The number of build loops.
    pub closed spec fn count(self) -> nat {
        self.nix_files@.len()
    }

    /// No build loops yet.
    pub fn new() -> (r: BuildLoops)
        ensures
            r.wf(),
            r@ == Set::<Seq<Seq<char>>>::empty(),
            r.count() == 0,
    {
        let r = BuildLoops { nix_files: Vec::new() };
        proof {
            assert(r@ =~= Set::<Seq<Seq<char>>>::empty());
        }
        r
    }

    /// Whether a build loop runs for this nix file.
    pub fn is_watched(&self, nix_file: &NixFile) -> (r: bool)
        ensures
            r == self@.contains(components(nix_file@)),
    {
        let mut i: usize = 0;
        while i < self.nix_files.len()
            invariant
                i <= self.nix_files@.len(),
                forall|k: int| 0 <= k < i ==> components(self.nix_files@[k]@) != components(nix_file@),
            decreases self.nix_files@.len() - i,
        {
            if path_eq(self.nix_files[i].as_absolute_path(), nix_file.as_absolute_path()) {
                proof {
                    assert(components(self.nix_files@[i as int]@) == components(nix_file@));
                }
                return true;
            }
            i = i + 1;
        }
        false
    }

    /// Decide what to do for an indication of activity of the project with this nix file
    /// (see `activity_action`). A new project is recorded as watched.
    pub fn indicate_activity(&mut self, nix_file: &NixFile, rebuild: Rebuild) -> (r: ActivityAction)
        requires
            old(self).wf(),
        ensures
            final(self).wf(),
            r == activity_action(old(self)@.contains(components(nix_file@)), rebuild),
            final(self)@ == old(self)@.insert(components(nix_file@)),
            final(self).count() == if r == ActivityAction::StartBuildLoop {
                old(self).count() + 1
            } else {
                old(self).count()
            },
    {
        let watched = self.is_watched(nix_file);
        if watched {
            proof {
                assert(self@ =~= old(self)@.insert(components(nix_file@)));
            }
            match rebuild {
                Rebuild::Always => ActivityAction::PingBuildLoop,
                Rebuild::OnlyIfNotYetWatching => ActivityAction::Skip,
            }
        } else {
            let ghost old_files = self.nix_files@;
            self.nix_files.push(nix_file.clone());
            proof {
                assert forall|c: Seq<Seq<char>>| #[trigger] self@.contains(c) == old(self)@.insert(components(nix_file@)).contains(c) by {
                    if self@.contains(c) {
                        let i = choose|i: int| 0 <= i < self.nix_files@.len() && #[trigger] components(self.nix_files@[i]@) == c;
                        if i < old_files.len() {
                            assert(old_files[i] == self.nix_files@[i]);
                        }
                    }
                    if old(self)@.contains(c) {
                        let i = choose|i: int| 0 <= i < old_files.len() && #[trigger] components(old_files[i]@) == c;
                        assert(self.nix_files@[i] == old_files[i]);
                    }
                    if c == components(nix_file@) {
                        assert(components(self.nix_files@[old_files.len() as int]@) == c);
                    }
                }
                assert(self@ =~= old(self)@.insert(components(nix_file@)));
                assert forall|i: int| 0 <= i < old_files.len() implies components(old_files[i]@) != components(nix_file@) by {
                    if components(old_files[i]@) == components(nix_file@) {
                        assert(old(self)@.contains(components(nix_file@)));
                    }
                }
            }
            ActivityAction::StartBuildLoop
        }
    }
}

/// The message of the failure reported when no build loop can be started for a project.
pub open spec fn watcher_failure_msg(nix_file: Seq<char>) -> Seq<char> {
    "could not start the watcher for "@ + nix_file
}

/// The failure event reported when no build loop can be started for a project.
pub open spec fn watcher_failure_event(nix_file: Seq<char>) -> EventView {
    EventI::Failure { nix_file: nix_file, failure: BuildErrorView::Io { msg: watcher_failure_msg(nix_file) } }
}

/// What follows an attempt to create the build loop of a newly watched project: nothing to
/// report when it was created (the loop runs and reports its own builds), else one failure
/// event for the project. The project stays recorded as watched either way. The message
/// names the nix file only (the cause is given as context to the caller's log, not shown).
pub fn loop_start_failure(nix_file: &NixFile, created: Result<(), String>) -> (r: Option<Event>)
    ensures
        match created {
            Ok(_) => r is None,
            Err(_) => r matches Some(e) && e@ == watcher_failure_event(nix_file@),
        },
{
    match created {
        Ok(_) => None,
        Err(_) => {
            let mut msg = String::from_str("could not start the watcher for ");
            msg.append(nix_file.display());
            proof {
                reveal_strlit("could not start the watcher for ");
            }
            Some(EventI::Failure { nix_file: nix_file.clone(), failure: BuildError::Io { msg } })
        },
    }
}

/// The listeners that remain after an event was sent to `ids`, where `delivered[i]` tells
/// whether the listener `ids[i]` took it: those that did, in order.
pub open spec fn kept_listeners(ids: Seq<u64>, delivered: Seq<bool>) -> Seq<u64>
    decreases ids.len(),
{
    if ids.len() == 0 || delivered.len() < ids.len() {
        Seq::empty()
    } else {
        let prev = kept_listeners(ids.drop_last(), delivered.subrange(0, ids.len() - 1));
        if delivered[ids.len() - 1] {
            prev.push(ids.last())
        } else {
            prev
        }
    }
}

/// The event stream listeners, each by an identifier its caller chose, in the order they
/// registered. Every build event goes to each of them, in that order; a listener that can no
/// longer take events is dropped.
#[derive(Debug)]
pub struct Listeners {
    ids: Vec<u64>,
}

impl View for Listeners {
    type V = Seq<u64>;

    closed spec fn view(&self) -> Seq<u64> {
        self.ids@
    }
}

impl Listeners {
    /// No listeners yet.
    pub fn new() -> (r: Listeners)
        ensures
            r@ == Seq::<u64>::empty(),
    {
        Listeners { ids: Vec::new() }
    }

    /// Add a listener: it gets every later event.
    pub fn register(&mut self, id: u64)
        ensures
            final(self)@ == old(self)@.push(id),
    {
        self.ids.push(id);
    }

    /// The listeners a build event is sent to, in order: all of them.
    pub fn recipients(&self) -> (r: Vec<u64>)
        ensures
            r@ == self@,
    {
        self.ids.clone()
    }

    /// After an event went out to `recipients()`, keep the listeners that took it (in order)
    /// and drop those that are closed.
    pub fn drop_closed(&mut self, delivered: &Vec<bool>)
        requires
            delivered@.len() == old(self)@.len(),
        ensures
            final(self)@ == kept_listeners(old(self)@, delivered@),
    {
        let mut kept: Vec<u64> = Vec::new();
        let mut i: usize = 0;
        while i < self.ids.len()
            invariant
                self.ids@ == old(self).ids@,
                delivered@.len() == self.ids@.len(),
                i <= self.ids@.len(),
                kept@ == kept_listeners(self.ids@.subrange(0, i as int), delivered@.subrange(0, i as int)),
            decreases self.ids@.len() - i,
        {
            proof {
                let ids = self.ids@.subrange(0, i + 1);
                assert(ids.drop_last() =~= self.ids@.subrange(0, i as int));
                assert(delivered@.subrange(0, i + 1).subrange(0, i as int) =~= delivered@.subrange(0, i as int));
            }
            if delivered[i] {
                kept.push(self.ids[i]);
            }
            i = i + 1;
        }
        proof {
            assert(self.ids@.subrange(0, self.ids@.len() as int) =~= self.ids@);
            assert(delivered@.subrange(0, delivered@.len() as int) =~= delivered@);
        }
        self.ids = kept;
    }
}

/// Listeners that take every event stay registered, in their order.
pub proof fn lemma_open_listeners_stay(ids: Seq<u64>, delivered: Seq<bool>)
    requires
        delivered.len() == ids.len(),
        forall|i: int| 0 <= i < delivered.len() ==> #[trigger] delivered[i],
    ensures
        kept_listeners(ids, delivered) == ids,
    decreases ids.len(),
{
    if ids.len() > 0 {
        let d = delivered.subrange(0, ids.len() - 1);
        assert forall|i: int| 0 <= i < d.len() implies #[trigger] d[i] by {
            assert(d[i] == delivered[i]);
        }
        lemma_open_listeners_stay(ids.drop_last(), d);
        assert(ids.drop_last().push(ids.last()) =~= ids);
    }
}

/// A project gets one build loop only: once it has one, no indication of activity starts
/// another, whichever rebuild it asks for.
pub proof fn lemma_one_build_loop_per_project(watched: Set<Seq<Seq<char>>>, nix_file: Seq<char>, first: Rebuild, second: Rebuild)
    ensures
        activity_action(watched.insert(components(nix_file)).contains(components(nix_file)), second) != ActivityAction::StartBuildLoop,
{
}

/// A ping that asks for a rebuild always leads to a build: either the project's loop is
/// pinged, or a new loop is started (and pinged).
pub proof fn lemma_always_rebuilds(watched: bool)
    ensures
        activity_action(watched, Rebuild::Always) != ActivityAction::Skip,
{
}

/// The nix file an event is about, if any.
pub open spec fn event_nix_file(e: EventView) -> Option<Seq<char>> {
    match e {
        EventI::SectionEnd => None,
        EventI::Started { nix_file, .. } => Some(nix_file),
        EventI::Completed { nix_file, .. } => Some(nix_file),
        EventI::Failure { nix_file, .. } => Some(nix_file),
    }
}

/// The latest event of each project, as the daemon reports it to new listeners.
#[derive(Debug)]
pub struct ProjectStates {
    states: Vec<Event>,
}

/// The map of project (by the components of its nix file) to its latest event.
pub open spec fn record_event(m: Map<Seq<Seq<char>>, EventView>, e: EventView) -> Map<Seq<Seq<char>>, EventView> {
    match event_nix_file(e) {
        Some(n) => m.insert(components(n), e),
        None => m,
    }
}

impl View for ProjectStates {
    type V = Map<Seq<Seq<char>>, EventView>;

    closed spec fn view(&self) -> Map<Seq<Seq<char>>, EventView> {
        Map::new(
            |c: Seq<Seq<char>>| exists|i: int| 0 <= i < self.states@.len() && #[trigger] components(event_nix_file(self.states@[i]@).unwrap()) == c,
            |c: Seq<Seq<char>>| self.states@[choose|i: int| 0 <= i < self.states@.len() && #[trigger] components(event_nix_file(self.states@[i]@).unwrap()) == c]@,
        )
    }
}

/// The nix file of an event that has one.
fn nix_file_of(e: &Event) -> (r: Option<&NixFile>)
    ensures
        match r {
            Some(n) => event_nix_file(e@) == Some(n@),
            None => event_nix_file(e@) is None,
        },
{
    match e {
        EventI::SectionEnd => None,
        EventI::Started { nix_file, .. } => Some(nix_file),
        EventI::Completed { nix_file, .. } => Some(nix_file),
        EventI::Failure { nix_file, .. } => Some(nix_file),
    }
}

impl ProjectStates {
    /// Every remembered event is about a project, and no project has two.
    pub closed spec fn wf(self) -> bool {
        &&& forall|i: int| 0 <= i < self.states@.len() ==> event_nix_file(#[trigger] self.states@[i]@) is Some
        &&& forall|i: int, j: int|
            0 <= i < j < self.states@.len() ==> components(event_nix_file(#[trigger] self.states@[i]@).unwrap())
                != components(event_nix_file(#[trigger] self.states@[j]@).unwrap())
    }

    /// Nothing known yet.
    pub fn new() -> (r: ProjectStates)
        ensures
            r.wf(),
            r@ == Map::<Seq<Seq<char>>, EventView>::empty(),
    {
        let r = ProjectStates { states: Vec::new() };
        proof {
            assert(r@ =~= Map::<Seq<Seq<char>>, EventView>::empty());
        }
        r
    }

    /// Remember `e` as the latest event of its project (events about no project are not
    /// remembered).
    pub fn record(&mut self, e: Event)
        requires
            old(self).wf(),
        ensures
            final(self).wf(),
            final(self)@ == record_event(old(self)@, e@),
    {
        let ghost ev = e@;
        let n = match nix_file_of(&e) {
            Some(n) => n.clone(),
            None => {
                return;
            },
        };
        let ghost old_states = self.states@;
        let mut i: usize = 0;
        while i < self.states.len()
            invariant
                self.states@ == old_states,
                old(self).states@ == old_states,
                ev == e@,
                self.wf(),
                i <= self.states@.len(),
                event_nix_file(ev) == Some(n@),
                forall|k: int| 0 <= k < i ==> components(event_nix_file(self.states@[k]@).unwrap()) != components(n@),
            decreases self.states@.len() - i,
        {
            let same = match nix_file_of(&self.states[i]) {
                Some(m) => path_eq(m.as_absolute_path(), n.as_absolute_path()),
                None => false,
            };
            assert(same ==> components(event_nix_file(old_states[i as int]@).unwrap()) == components(n@));
            if same {
                self.states.set(i, e);
                proof {
                    let c = components(n@);
                    assert(self.states@[i as int]@ == ev);
                    assert(self.wf()) by {
                        assert forall|a: int, b: int| 0 <= a < b < self.states@.len() implies components(event_nix_file(#[trigger] self.states@[a]@).unwrap())
                            != components(event_nix_file(#[trigger] self.states@[b]@).unwrap()) by {
                            assert(components(event_nix_file(old_states[a]@).unwrap()) != components(event_nix_file(old_states[b]@).unwrap()));
                            if a == i {
                                assert(components(event_nix_file(self.states@[a]@).unwrap()) == c);
                            } else {
                                assert(self.states@[a] == old_states[a]);
                            }
                            if b == i {
                                assert(components(event_nix_file(self.states@[b]@).unwrap()) == c);
                            } else {
                                assert(self.states@[b] == old_states[b]);
                            }
                        }
                        assert forall|a: int| 0 <= a < self.states@.len() implies event_nix_file(#[trigger] self.states@[a]@) is Some by {
                            if a != i {
                                assert(self.states@[a] == old_states[a]);
                            }
                        }
                    }
                    assert forall|d: Seq<Seq<char>>| #[trigger] self@.contains_key(d) == record_event(old(self)@, ev).contains_key(d) by {
                        if self@.contains_key(d) {
                            let k = choose|k: int| 0 <= k < self.states@.len() && #[trigger] components(event_nix_file(self.states@[k]@).unwrap()) == d;
                            if k != i {
                                assert(components(event_nix_file(old_states[k]@).unwrap()) == d);
                            }
                        }
                        if old(self)@.contains_key(d) {
                            let k = choose|k: int| 0 <= k < old_states.len() && #[trigger] components(event_nix_file(old_states[k]@).unwrap()) == d;
                            if k != i {
                                assert(components(event_nix_file(self.states@[k]@).unwrap()) == d);
                            } else {
                                assert(components(event_nix_file(self.states@[i as int]@).unwrap()) == d);
                            }
                        }
                        if d == c {
                            assert(components(event_nix_file(self.states@[i as int]@).unwrap()) == d);
                        }
                    }
                    assert forall|d: Seq<Seq<char>>| #[trigger] self@.contains_key(d) implies self@[d] == record_event(old(self)@, ev)[d] by {
                        let k = choose|k: int| 0 <= k < self.states@.len() && #[trigger] components(event_nix_file(self.states@[k]@).unwrap()) == d;
                        if k == i {
                            assert(d == c);
                        } else {
                            assert(components(event_nix_file(old_states[k]@).unwrap()) == d);
                            let k2 = choose|k2: int| 0 <= k2 < old_states.len() && #[trigger] components(event_nix_file(old_states[k2]@).unwrap()) == d;
                            assert(k2 == k);
                            assert(d != c);
                        }
                    }
                    assert(self@ =~= record_event(old(self)@, ev));
                }
                return;
            }
            i = i + 1;
        }
        self.states.push(e);
        proof {
            let c = components(n@);
            assert forall|d: Seq<Seq<char>>| #[trigger] self@.contains_key(d) == record_event(old(self)@, ev).contains_key(d) by {
                if self@.contains_key(d) {
                    let k = choose|k: int| 0 <= k < self.states@.len() && #[trigger] components(event_nix_file(self.states@[k]@).unwrap()) == d;
                    if k < old_states.len() {
                        assert(components(event_nix_file(old_states[k]@).unwrap()) == d);
                    }
                }
                if old(self)@.contains_key(d) {
                    let k = choose|k: int| 0 <= k < old_states.len() && #[trigger] components(event_nix_file(old_states[k]@).unwrap()) == d;
                    assert(components(event_nix_file(self.states@[k]@).unwrap()) == d);
                }
                if d == c {
                    assert(components(event_nix_file(self.states@[old_states.len() as int]@).unwrap()) == d);
                }
            }
            assert forall|d: Seq<Seq<char>>| #[trigger] self@.contains_key(d) implies self@[d] == record_event(old(self)@, ev)[d] by {
                let k = choose|k: int| 0 <= k < self.states@.len() && #[trigger] components(event_nix_file(self.states@[k]@).unwrap()) == d;
                if k == old_states.len() {
                    assert(d == c);
                } else {
                    assert(components(event_nix_file(old_states[k]@).unwrap()) == d);
                    let k2 = choose|k2: int| 0 <= k2 < old_states.len() && #[trigger] components(event_nix_file(old_states[k2]@).unwrap()) == d;
                    assert(k2 == k);
                    assert(d != c);
                }
            }
            assert(self@ =~= record_event(old(self)@, ev));
        }
    }

    /// The latest event of every project, one per project.
    pub fn snapshot(&self) -> (r: Vec<Event>)
        requires
            self.wf(),
        ensures
            r@.len() == self@.dom().len(),
            forall|i: int| 0 <= i < r@.len() ==> (#[trigger] event_nix_file(r@[i]@)) is Some && self@.contains_key(components(event_nix_file(r@[i]@).unwrap())) && self@[components(event_nix_file(r@[i]@).unwrap())] == r@[i]@,
            forall|i: int, j: int|
                0 <= i < j < r@.len() ==> components(event_nix_file(#[trigger] r@[i]@).unwrap()) != components(
                    event_nix_file(#[trigger] r@[j]@).unwrap(),
                ),
    {
        let mut r: Vec<Event> = Vec::new();
        let mut i: usize = 0;
        while i < self.states.len()
            invariant
                self.wf(),
                i <= self.states@.len(),
                r@.len() == i,
                forall|k: int| 0 <= k < i ==> (#[trigger] r@[k])@ == self.states@[k]@,
            decreases self.states@.len() - i,
        {
            r.push(self.states[i].clone());
            i = i + 1;
        }
        proof {
            assert forall|k: int| 0 <= k < r@.len() implies (#[trigger] event_nix_file(r@[k]@)) is Some && self@.contains_key(components(event_nix_file(r@[k]@).unwrap())) && self@[components(event_nix_file(r@[k]@).unwrap())] == r@[k]@ by {
                let n = event_nix_file(self.states@[k]@).unwrap();
                let d = components(n);
                assert(self@.contains_key(d));
                let k2 = choose|k2: int| 0 <= k2 < self.states@.len() && #[trigger] components(event_nix_file(self.states@[k2]@).unwrap()) == d;
                assert(k2 == k);
            }
            self.lemma_dom_len();
            assert forall|a: int, b: int| 0 <= a < b < r@.len() implies components(event_nix_file(#[trigger] r@[a]@).unwrap())
                != components(event_nix_file(#[trigger] r@[b]@).unwrap()) by {
                assert(r@[a]@ == self.states@[a]@);
                assert(r@[b]@ == self.states@[b]@);
            }
        }
        r
    }

    proof fn lemma_dom_len(self)
        requires
            self.wf(),
        ensures
            self@.dom().len() == self.states@.len(),
    {
        let f = |i: int| components(event_nix_file(self.states@[i]@).unwrap());
        let idx = Set::new(|i: int| 0 <= i < self.states@.len());
        assert forall|c: Seq<Seq<char>>| #[trigger] self@.dom().contains(c) implies idx.map(f).contains(c) by {
            let k = choose|k: int| 0 <= k < self.states@.len() && #[trigger] components(event_nix_file(self.states@[k]@).unwrap()) == c;
            assert(idx.contains(k) && f(k) == c);
        }
        assert forall|c: Seq<Seq<char>>| #[trigger] idx.map(f).contains(c) implies self@.dom().contains(c) by {
            let k = choose|k: int| idx.contains(k) && f(k) == c;
            assert(components(event_nix_file(self.states@[k]@).unwrap()) == c);
        }
        assert(self@.dom() =~= idx.map(f));
        vstd::set_lib::lemma_int_range(0, self.states@.len() as int);
        assert(idx =~= vstd::set_lib::set_int_range(0, self.states@.len() as int));
        assert forall|a: int, b: int| idx.contains(a) && idx.contains(b) && f(a) == f(b) implies a == b by {
            if a < b {
                assert(components(event_nix_file(self.states@[a]@).unwrap()) != components(event_nix_file(self.states@[b]@).unwrap()));
            } else if b < a {
                assert(components(event_nix_file(self.states@[b]@).unwrap()) != components(event_nix_file(self.states@[a]@).unwrap()));
            }
        }
        vstd::set_lib::lemma_map_size(idx, idx.map(f), f);
    }
}

/// What a read of the states gives back after a write: the latest event recorded for a
/// project is the one reported for it, and the states of other projects are untouched.
pub proof fn lemma_latest_event_wins(m: Map<Seq<Seq<char>>, EventView>, e: EventView, other: Seq<Seq<char>>)
    requires
        event_nix_file(e) is Some,
    ensures
        record_event(m, e)[components(event_nix_file(e).unwrap())] == e,
        record_event(m, e).contains_key(components(event_nix_file(e).unwrap())),
        other != components(event_nix_file(e).unwrap()) ==> (record_event(m, e).contains_key(other) == m.contains_key(other) && (m.contains_key(other) ==> record_event(m, e)[other] == m[other])),
{
}

/// The states after recording each of `events`, in order.
pub open spec fn record_events(m: Map<Seq<Seq<char>>, EventView>, events: Seq<EventView>) -> Map<Seq<Seq<char>>, EventView>
    decreases events.len(),
{
    if events.len() == 0 {
        m
    } else {
        record_event(record_events(m, events.drop_last()), events.last())
    }
}

/// Whether the event at `i` is about the project `c`.
pub open spec fn event_about(events: Seq<EventView>, i: int, c: Seq<Seq<char>>) -> bool {
    event_nix_file(events[i]) is Some && components(event_nix_file(events[i]).unwrap()) == c
}

/// The snapshot after any run of events, from no state: it knows exactly the projects that
/// some event was about, and for each the latest event about it.
pub proof fn lemma_snapshot_after_events(events: Seq<EventView>)
    ensures
        forall|c: Seq<Seq<char>>|
            #[trigger] record_events(Map::empty(), events).contains_key(c) <==> exists|i: int|
                0 <= i < events.len() && #[trigger] event_about(events, i, c),
        forall|c: Seq<Seq<char>>|
            #[trigger] record_events(Map::empty(), events).contains_key(c) ==> exists|j: int|
                0 <= j < events.len() && event_about(events, j, c) && record_events(Map::empty(), events)[c] == events[j]
                    && forall|i: int| j < i < events.len() ==> !#[trigger] event_about(events, i, c),
    decreases events.len(),
{
    if events.len() > 0 {
        let prev = events.drop_last();
        let n = events.len() - 1;
        lemma_snapshot_after_events(prev);
        let mp = record_events(Map::empty(), prev);
        let m = record_events(Map::empty(), events);
        let e = events[n];
        assert forall|i: int, c: Seq<Seq<char>>| 0 <= i < n implies event_about(events, i, c) == event_about(prev, i, c) by {
            assert(events[i] == prev[i]);
        }
        assert forall|c: Seq<Seq<char>>| #[trigger] m.contains_key(c) <==> exists|i: int|
            0 <= i < events.len() && #[trigger] event_about(events, i, c) by {
            if m.contains_key(c) {
                if event_about(events, n, c) {
                } else {
                    assert(mp.contains_key(c));
                    let i = choose|i: int| 0 <= i < prev.len() && #[trigger] event_about(prev, i, c);
                    assert(event_about(events, i, c));
                }
            }
            if exists|i: int| 0 <= i < events.len() && #[trigger] event_about(events, i, c) {
                let i = choose|i: int| 0 <= i < events.len() && #[trigger] event_about(events, i, c);
                if i < n {
                    assert(event_about(prev, i, c));
                    assert(mp.contains_key(c));
                }
            }
        }
        assert forall|c: Seq<Seq<char>>| #[trigger] m.contains_key(c) implies exists|j: int|
            0 <= j < events.len() && event_about(events, j, c) && m[c] == events[j]
                && forall|i: int| j < i < events.len() ==> !#[trigger] event_about(events, i, c) by {
            if event_about(events, n, c) {
                assert(m[c] == events[n]);
            } else {
                assert(mp.contains_key(c));
                let j = choose|j: int|
                    0 <= j < prev.len() && event_about(prev, j, c) && mp[c] == prev[j]
                        && forall|i: int| j < i < prev.len() ==> !#[trigger] event_about(prev, i, c);
                assert(event_about(events, j, c));
                assert forall|i: int| j < i < events.len() implies !#[trigger] event_about(events, i, c) by {
                    if i < n {
                        assert(!event_about(prev, i, c));
                    }
                }
            }
        }
    }
}

} // verus!

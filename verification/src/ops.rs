//! The decisions of the command-line operations: which gc roots to remove and how to list
//! them, which streamed events to report, and how a failed build ends the process.

use crate::builder::{BuildError, actionable, build_error_text};
use crate::cli::EventKind;
use crate::error::ExitError;
use crate::path::{AbsPathBuf, components, path_eq, path_join};
use crate::project::roots::Roots;
use crate::socket::path::SocketPath;
use crate::text::{decimal, decimal_string};
use vstd::prelude::*;

verus! {

/// Nanoseconds in a day.
pub const NANOS_PER_DAY: u128 = 86_400_000_000_000;

/// How long ago a time was, in whole days, as text.
pub open spec fn days_ago_text(elapsed: nat) -> Seq<char> {
    decimal(elapsed / (NANOS_PER_DAY as nat)) + " days ago"@
}

/// The age of a root built at `timestamp` when it is `now` (both in nanoseconds since the
/// epoch): `future` for a time still to come, otherwise the whole days since.
pub open spec fn age_text(timestamp: u128, now: u128) -> Seq<char> {
    if timestamp > now {
        "future"@
    } else {
        days_ago_text((now - timestamp) as nat)
    }
}

/// The age of a root (see `age_text`).
pub fn age_string(timestamp: u128, now: u128) -> (r: String)
    ensures
        r@ == age_text(timestamp, now),
{
    proof {
        reveal_strlit("future");
        reveal_strlit(" days ago");
    }
    if timestamp > now {
        String::from_str("future")
    } else {
        let mut s = decimal_string((now - timestamp) / NANOS_PER_DAY);
        s.append(" days ago");
        s
    }
}

/// Represents a gc root found on disk along with some metadata.
#[derive(Debug)]
pub struct GcRootInfo {
    /// directory where root is stored
    pub gc_dir: AbsPathBuf,
    /// nix file from which the root originates. If None, then the root is considered dead.
    pub nix_file: Option<String>,
    /// time of the last build, in nanoseconds since the epoch
    pub timestamp: u128,
    /// whether `nix_file` still exists
    pub alive: bool,
}

/// The one-line description of a root: its directory, its nix file (`(?)` when unknown),
/// `[dead]` when the nix file is gone, and its age.
pub open spec fn root_line(gc_dir: Seq<char>, nix_file: Option<Seq<char>>, alive: bool, age: Seq<char>) -> Seq<char> {
    let target = match nix_file {
        Some(p) => p,
        None => "(?)"@,
    };
    let dead: Seq<char> = if alive {
        Seq::empty()
    } else {
        "[dead]"@
    };
    gc_dir + " -> "@ + target + " "@ + dead + " ("@ + age + ")"@
}

/// The view of an optional text.
pub open spec fn opt_text(o: Option<String>) -> Option<Seq<char>> {
    match o {
        Some(s) => Some(s@),
        None => None,
    }
}

impl GcRootInfo {
    /// Format for printing to stdout, when it is `now` (see `root_line`).
    pub fn format_pretty_oneline(&self, now: u128) -> (r: String)
        ensures
            r@ == root_line(self.gc_dir@, opt_text(self.nix_file), self.alive, age_text(self.timestamp, now)),
    {
        proof {
            reveal_strlit("(?)");
            reveal_strlit("[dead]");
            reveal_strlit(" -> ");
            reveal_strlit(" ");
            reveal_strlit(" (");
            reveal_strlit(")");
            reveal_strlit("");
        }
        let mut s = self.gc_dir.as_str().to_string();
        s.append(" -> ");
        match &self.nix_file {
            Some(p) => s.append(p.as_str()),
            None => s.append("(?)"),
        }
        s.append(" ");
        if self.alive {
            s.append("");
        } else {
            s.append("[dead]");
        }
        s.append(" (");
        let age = age_string(self.timestamp, now);
        s.append(age.as_str());
        s.append(")");
        s
    }
}

/// Which roots `lorri gc rm` removes.
#[derive(Debug)]
pub struct GcRemoval {
    /// Remove every root
    pub all: bool,
    /// Also remove the roots of these nix files
    pub shell_files: Vec<String>,
    /// Also remove the roots last built longer ago than this, in nanoseconds
    pub older_than: Option<u128>,
}

/// Whether path `p` is one of `files` (as the same path).
pub open spec fn names_one_of(p: Seq<char>, files: Seq<String>) -> bool {
    exists|i: int| 0 <= i < files.len() && components(#[trigger] files[i]@) == components(p)
}

/// Whether a root is removed: when all are, when its nix file is gone, when its nix file is
/// one of those given, or when it was last built longer ago than the limit (a root built
/// in the future is not).
pub open spec fn should_remove(root: GcRootInfo, removal: GcRemoval, now: u128) -> bool {
    ||| removal.all
    ||| !root.alive
    ||| (root.nix_file matches Some(p) && names_one_of(p@, removal.shell_files@))
    ||| (removal.older_than matches Some(limit) && root.timestamp <= now && now - root.timestamp > limit)
}

/// The roots that are removed, in order.
pub open spec fn roots_removed(roots: Seq<GcRootInfo>, removal: GcRemoval, now: u128) -> Seq<GcRootInfo>
    decreases roots.len(),
{
    if roots.len() == 0 {
        Seq::empty()
    } else {
        let prev = roots_removed(roots.drop_last(), removal, now);
        if should_remove(roots.last(), removal, now) {
            prev.push(roots.last())
        } else {
            prev
        }
    }
}

impl GcRemoval {
    /// Whether `p` is one of the given nix files (see `names_one_of`).
    fn names(&self, p: &str) -> (r: bool)
        ensures
            r == names_one_of(p@, self.shell_files@),
    {
        let mut i: usize = 0;
        while i < self.shell_files.len()
            invariant
                i <= self.shell_files@.len(),
                forall|k: int| 0 <= k < i ==> components(#[trigger] self.shell_files@[k]@) != components(p@),
            decreases self.shell_files@.len() - i,
        {
            if path_eq(self.shell_files[i].as_str(), p) {
                return true;
            }
            i = i + 1;
        }
        false
    }

    /// Whether `root` is removed when it is `now` (see `should_remove`).
    pub fn should_remove(&self, root: &GcRootInfo, now: u128) -> (r: bool)
        ensures
            r == should_remove(*root, *self, now),
    {
        if self.all || !root.alive {
            return true;
        }
        let named = match &root.nix_file {
            Some(p) => self.names(p.as_str()),
            None => false,
        };
        if named {
            return true;
        }
        match self.older_than {
            Some(limit) => root.timestamp <= now && now - root.timestamp > limit,
            None => false,
        }
    }

    /// The roots to remove, in the order given (see `roots_removed`).
    pub fn roots_to_remove(&self, infos: Vec<GcRootInfo>, now: u128) -> (r: Vec<GcRootInfo>)
        ensures
            r@ == roots_removed(infos@, *self, now),
    {
        let ghost orig = infos@;
        let n: usize = infos.len();
        let mut rest = infos;
        let mut r: Vec<GcRootInfo> = Vec::new();
        let mut i: usize = 0;
        while rest.len() > 0
            invariant
                i + rest@.len() == orig.len(),
                orig.len() == n,
                forall|k: int| 0 <= k < rest@.len() ==> (#[trigger] rest@[k]) == orig[i + k],
                r@ == roots_removed(orig.subrange(0, i as int), *self, now),
            decreases rest@.len(),
        {
            let root = rest.remove(0);
            proof {
                let t = orig.subrange(0, i + 1);
                assert(t.drop_last() =~= orig.subrange(0, i as int));
                assert(t.last() == root);
            }
            if self.should_remove(&root, now) {
                r.push(root);
            }
            i = i + 1;
        }
        proof {
            assert(orig.subrange(0, orig.len() as int) =~= orig);
        }
        r
    }
}

/// `lorri gc rm --all` removes every root, in order.
pub proof fn lemma_gc_rm_all(roots: Seq<GcRootInfo>, removal: GcRemoval, now: u128)
    requires
        removal.all,
    ensures
        roots_removed(roots, removal, now) == roots,
    decreases roots.len(),
{
    if roots.len() > 0 {
        lemma_gc_rm_all(roots.drop_last(), removal, now);
        assert(roots.drop_last().push(roots.last()) =~= roots);
    }
}

/// The roots removed are exactly those of the list that `should_remove` picks: a root is
/// removed only when it is picked, and every picked root is removed.
pub proof fn lemma_gc_rm_picks(roots: Seq<GcRootInfo>, removal: GcRemoval, now: u128)
    ensures
        forall|r: GcRootInfo| #[trigger] roots_removed(roots, removal, now).contains(r) ==> roots.contains(r) && should_remove(r, removal, now),
        forall|r: GcRootInfo| #[trigger] roots.contains(r) && should_remove(r, removal, now) ==> roots_removed(roots, removal, now).contains(r),
    decreases roots.len(),
{
    if roots.len() > 0 {
        let prev = roots.drop_last();
        lemma_gc_rm_picks(prev, removal, now);
        let rp = roots_removed(prev, removal, now);
        assert forall|r: GcRootInfo| #[trigger] roots_removed(roots, removal, now).contains(r) implies roots.contains(r) && should_remove(r, removal, now) by {
            if rp.contains(r) {
                let i = choose|i: int| 0 <= i < prev.len() && prev[i] == r;
                assert(roots[i] == r);
            } else {
                let out = roots_removed(roots, removal, now);
                let j = choose|j: int| 0 <= j < out.len() && out[j] == r;
                assert(j == rp.len() && r == roots.last());
                assert(roots[roots.len() - 1] == r);
            }
        }
        assert forall|r: GcRootInfo| #[trigger] roots.contains(r) && should_remove(r, removal, now) implies roots_removed(roots, removal, now).contains(r) by {
            let i = choose|i: int| 0 <= i < roots.len() && roots[i] == r;
            let out = roots_removed(roots, removal, now);
            if i < prev.len() {
                assert(prev[i] == r);
                assert(prev.contains(r));
                assert(rp.contains(r));
                let j = choose|j: int| 0 <= j < rp.len() && rp[j] == r;
                assert(out[j] == r);
            } else {
                assert(out[rp.len() as int] == r);
            }
        }
    }
}

/// What to do with an event read from the daemon's stream.
#[derive(Debug, Clone, Copy, PartialEq, Eq, Structural)]
pub enum StreamAction {
    /// Print it
    Emit,
    /// Leave it out
    Skip,
    /// End the stream
    Stop,
}

/// The reaction to an event, given whether the snapshot of current states is over, and
/// whether the event is the one that ends it; with whether the snapshot is over after it.
/// The end of the snapshot ends a `Snapshot` stream; other events are printed by `All`,
/// by `Snapshot` before the end of the snapshot and by `Live` after it.
pub open spec fn stream_step(kind: EventKind, snapshot_done: bool, is_section_end: bool) -> (StreamAction, bool) {
    if is_section_end {
        if kind == EventKind::Snapshot {
            (StreamAction::Stop, snapshot_done)
        } else {
            (StreamAction::Skip, true)
        }
    } else if kind == EventKind::All || (kind == EventKind::Snapshot && !snapshot_done) || (kind == EventKind::Live && snapshot_done) {
        (StreamAction::Emit, snapshot_done)
    } else {
        (StreamAction::Skip, snapshot_done)
    }
}

/// The state of an event stream as `stream-events` reads it.
#[derive(Debug)]
pub struct StreamState {
    /// Which events are reported
    pub kind: EventKind,
    /// Whether the snapshot of current states is over
    pub snapshot_done: bool,
}

impl StreamState {
    /// A stream that has not read anything yet.
    pub fn new(kind: EventKind) -> (r: StreamState)
        ensures
            r.kind == kind,
            !r.snapshot_done,
    {
        StreamState { kind, snapshot_done: false }
    }

    /// React to the next event (see `stream_step`).
    pub fn on_event(&mut self, is_section_end: bool) -> (r: StreamAction)
        ensures
            (r, final(self).snapshot_done) == stream_step(old(self).kind, old(self).snapshot_done, is_section_end),
            final(self).kind == old(self).kind,
    {
        if is_section_end {
            match self.kind {
                EventKind::Snapshot => StreamAction::Stop,
                _ => {
                    self.snapshot_done = true;
                    StreamAction::Skip
                },
            }
        } else {
            let emit = match self.kind {
                EventKind::All => true,
                EventKind::Snapshot => !self.snapshot_done,
                EventKind::Live => self.snapshot_done,
            };
            if emit {
                StreamAction::Emit
            } else {
                StreamAction::Skip
            }
        }
    }
}

/// A stream of events (each told by whether it ends the snapshot) read from the start:
/// whether the snapshot is over, whether the stream was ended, and which events were
/// printed (by their position).
pub open spec fn run_stream(kind: EventKind, events: Seq<bool>) -> (bool, bool, Seq<int>)
    decreases events.len(),
{
    if events.len() == 0 {
        (false, false, Seq::empty())
    } else {
        let (done, stopped, printed) = run_stream(kind, events.drop_last());
        if stopped {
            (done, stopped, printed)
        } else {
            let (a, d) = stream_step(kind, done, events.last());
            match a {
                StreamAction::Emit => (d, false, printed.push(events.len() - 1)),
                StreamAction::Skip => (d, false, printed),
                StreamAction::Stop => (d, true, printed),
            }
        }
    }
}

/// Whether one of the first `k` events ends the snapshot.
pub open spec fn ended_before(events: Seq<bool>, k: int) -> bool {
    exists|j: int| 0 <= j < k && #[trigger] events[j]
}

/// What each kind of stream prints: never the end of the snapshot; `All` every other
/// event; `Live` exactly the events after the snapshot; `Snapshot` exactly the events of the
/// snapshot, and the stream ends with the snapshot. Events are printed in order.
pub proof fn lemma_stream_kinds(kind: EventKind, events: Seq<bool>)
    ensures
        run_stream(kind, events).0 == (kind != EventKind::Snapshot && ended_before(events, events.len() as int)),
        run_stream(kind, events).1 == (kind == EventKind::Snapshot && ended_before(events, events.len() as int)),
        forall|i: int| 0 <= i < run_stream(kind, events).2.len() ==> {
            let k = #[trigger] run_stream(kind, events).2[i];
            &&& 0 <= k < events.len()
            &&& !events[k]
            &&& (kind == EventKind::Live ==> ended_before(events, k))
            &&& (kind == EventKind::Snapshot ==> !ended_before(events, k))
        },
        forall|i: int, j: int| 0 <= i < j < run_stream(kind, events).2.len() ==> run_stream(kind, events).2[i] < run_stream(kind, events).2[j],
        forall|k: int|
            0 <= k < events.len() && !events[k] && (kind == EventKind::All || (kind == EventKind::Live && ended_before(events, k)) || (
            kind == EventKind::Snapshot && !ended_before(events, k))) ==> run_stream(kind, events).2.contains(k),
    decreases events.len(),
{
    if events.len() > 0 {
        let prev = events.drop_last();
        lemma_stream_kinds(kind, prev);
        let n = events.len() - 1;
        assert forall|k: int| 0 <= k < n implies (#[trigger] events[k]) == prev[k] by {}
        assert(ended_before(events, events.len() as int) == (ended_before(prev, n) || events[n])) by {
            if ended_before(events, events.len() as int) {
                let j = choose|j: int| 0 <= j < events.len() && #[trigger] events[j];
                if j < n {
                    assert(prev[j]);
                }
            }
            if ended_before(prev, n) {
                let j = choose|j: int| 0 <= j < n && #[trigger] prev[j];
                assert(events[j]);
            }
        }
        assert forall|k: int| 0 <= k <= n implies ended_before(events, k) == ended_before(prev, k) by {
            if ended_before(events, k) {
                let j = choose|j: int| 0 <= j < k && #[trigger] events[j];
                assert(prev[j]);
            }
            if ended_before(prev, k) {
                let j = choose|j: int| 0 <= j < k && #[trigger] prev[j];
                assert(events[j]);
            }
        }
        {
            assert forall|k: int|
                0 <= k < events.len() && !events[k] && (kind == EventKind::All || (kind == EventKind::Live && ended_before(events, k))
                    || (kind == EventKind::Snapshot && !ended_before(events, k))) implies run_stream(kind, events).2.contains(k) by {
                if k < n {
                    assert(!prev[k]);
                    assert(run_stream(kind, prev).2.contains(k));
                    let i = choose|i: int| 0 <= i < run_stream(kind, prev).2.len() && run_stream(kind, prev).2[i] == k;
                    assert(run_stream(kind, events).2[i] == k);
                } else {
                    let p = run_stream(kind, prev).2;
                    assert(run_stream(kind, events).2 == p.push(n));
                    assert(run_stream(kind, events).2[p.len() as int] == k);
                }
            }
        }
    }
}

/// How a failed single build ends the process: with an expected error when the user can do
/// something about it (its message the detailed description of the error, `details`), and
/// with a temporary one otherwise (its message how the error is shown).
pub fn build_failure_exit(e: &BuildError, details: String) -> (r: ExitError)
    ensures
        actionable(*e) ==> r.code() == 1 && r.msg() == details@,
        !actionable(*e) ==> r.code() == 111 && r.msg() == build_error_text(e@),
{
    if e.is_actionable() {
        ExitError::expected_error(details)
    } else {
        ExitError::temporary(e.to_display_string())
    }
}

/// The files and directories lorri keeps its state in.
#[derive(Debug)]
pub struct Paths {
    /// The directory of the projects' gc roots
    pub gc_root_dir: AbsPathBuf,
    /// The socket the daemon listens on
    pub daemon_socket_file: SocketPath,
    /// The store of content-addressed files
    pub cas_store: AbsPathBuf,
    /// The database of gc roots
    pub sqlite_db: AbsPathBuf,
}

/// Set up necessary directories or fail: a failure to set them up (`init` is its message)
/// is a user error.
pub fn get_paths(init: Result<Paths, String>) -> (r: Result<Paths, ExitError>)
    ensures
        match init {
            Ok(p) => r == Ok::<Paths, ExitError>(p),
            Err(m) => r matches Err(e) && e.code() == 100 && e.msg() == "Cannot initialize the lorri paths: "@ + m@,
        },
{
    match init {
        Ok(p) => Ok(p),
        Err(m) => {
            proof {
                reveal_strlit("Cannot initialize the lorri paths: ");
            }
            let mut msg = String::from_str("Cannot initialize the lorri paths: ");
            msg.append(m.as_str());
            Err(ExitError::user_error(msg))
        },
    }
}

/// What `lorri direnv` tells the user, given whether the daemon was pinged and whether the
/// project's environment was built before.
#[derive(Debug, Clone, Copy, PartialEq, Eq, Structural)]
pub enum DirenvNotice {
    /// Nothing to say: the daemon keeps the environment up to date
    Nothing,
    /// The daemon will build the environment, which was not built yet (information)
    NotEvaluatedYet,
    /// The daemon is not running; a stale environment is loaded (information)
    LoadingCached,
    /// The daemon is not running and there is no environment (warning)
    NothingToLoad,
}

/// The notice for a ping that was sent or not, with an environment built before or not.
pub open spec fn direnv_notice_for(ping_sent: bool, cached: bool) -> DirenvNotice {
    if ping_sent && cached {
        DirenvNotice::Nothing
    } else if ping_sent {
        DirenvNotice::NotEvaluatedYet
    } else if cached {
        DirenvNotice::LoadingCached
    } else {
        DirenvNotice::NothingToLoad
    }
}

/// The notice of `lorri direnv` (see `direnv_notice_for`).
pub fn direnv_notice(ping_sent: bool, cached: bool) -> (r: DirenvNotice)
    ensures
        r == direnv_notice_for(ping_sent, cached),
{
    match (ping_sent, cached) {
        (true, true) => DirenvNotice::Nothing,
        (true, false) => DirenvNotice::NotEvaluatedYet,
        (false, true) => DirenvNotice::LoadingCached,
        (false, false) => DirenvNotice::NothingToLoad,
    }
}

impl DirenvNotice {
    /// The text of the notice.
    pub fn message(&self) -> (r: String)
        ensures
            r@ == match *self {
                DirenvNotice::Nothing => Seq::<char>::empty(),
                DirenvNotice::NotEvaluatedYet => "lorri has not completed an evaluation for this project yet"@,
                DirenvNotice::LoadingCached => "lorri daemon is not running, loading a cached environment"@,
                DirenvNotice::NothingToLoad => "lorri daemon is not running and this project has not yet been evaluated, please run `lorri daemon`"@,
            },
    {
        proof {
            reveal_strlit("");
            reveal_strlit("lorri has not completed an evaluation for this project yet");
            reveal_strlit("lorri daemon is not running, loading a cached environment");
            reveal_strlit("lorri daemon is not running and this project has not yet been evaluated, please run `lorri daemon`");
        }
        match self {
            DirenvNotice::Nothing => String::new(),
            DirenvNotice::NotEvaluatedYet => String::from_str("lorri has not completed an evaluation for this project yet"),
            DirenvNotice::LoadingCached => String::from_str("lorri daemon is not running, loading a cached environment"),
            DirenvNotice::NothingToLoad => String::from_str(
                "lorri daemon is not running and this project has not yet been evaluated, please run `lorri daemon`",
            ),
        }
    }
}

/// The script `lorri direnv` prints for direnv to evaluate: it sets the evaluation root,
/// watches the daemon's socket and the root, and then loads the environment (`envrc`).
pub open spec fn direnv_script_text(shell_gc_root: Seq<char>, socket: Seq<char>, envrc: Seq<char>) -> Seq<char> {
    "\nEVALUATION_ROOT=\""@ + shell_gc_root + "\"\n\nwatch_file \""@ + socket + "\"\nwatch_file \"$EVALUATION_ROOT\"\n\n"@ + envrc
        + "\n"@
}

/// The script for direnv (see `direnv_script_text`).
pub fn direnv_script(shell_gc_root: &str, socket: &str, envrc: &str) -> (r: String)
    ensures
        r@ == direnv_script_text(shell_gc_root@, socket@, envrc@),
{
    proof {
        reveal_strlit("\nEVALUATION_ROOT=\"");
        reveal_strlit("\"\n\nwatch_file \"");
        reveal_strlit("\"\nwatch_file \"$EVALUATION_ROOT\"\n\n");
        reveal_strlit("\n");
    }
    let mut s = String::from_str("\nEVALUATION_ROOT=\"");
    s.append(shell_gc_root);
    s.append("\"\n\nwatch_file \"");
    s.append(socket);
    s.append("\"\nwatch_file \"$EVALUATION_ROOT\"\n\n");
    s.append(envrc);
    s.append("\n");
    s
}

/// The script `lorri direnv` prints for a project with these gc roots, given the daemon's
/// socket: it evaluates the project's shell gc root (see `direnv_script_text`).
pub fn direnv_script_for(roots: &Roots, socket: &SocketPath, envrc: &str) -> (r: String)
    ensures
        r@ == direnv_script_text(path_join(roots.gc_root_path_view(), "shell_gc_root"@), socket@, envrc@),
{
    let paths = roots.paths();
    direnv_script(paths.shell_gc_root.display(), socket.as_absolute_path(), envrc)
}

/// The script bash runs at start (`BASH_ENV`) in `lorri shell`: it sets the evaluation root
/// and then loads the environment (`envrc`).
pub open spec fn bash_init_text(project_root: Seq<char>, envrc: Seq<char>) -> Seq<char> {
    "\nEVALUATION_ROOT=\""@ + project_root + "\"\n\n"@ + envrc
}

/// The init script of bash (see `bash_init_text`).
pub fn bash_init_script(project_root: &str, envrc: &str) -> (r: String)
    ensures
        r@ == bash_init_text(project_root@, envrc@),
{
    proof {
        reveal_strlit("\nEVALUATION_ROOT=\"");
        reveal_strlit("\"\n\n");
    }
    let mut s = String::from_str("\nEVALUATION_ROOT=\"");
    s.append(project_root);
    s.append("\"\n\n");
    s.append(envrc);
    s
}

/// The environment `lorri shell --cached` uses: the project's gc root, when all roots exist.
pub fn cached_root(all_exist: bool, shell_gc_root: &str) -> (r: Result<String, ExitError>)
    ensures
        all_exist ==> (r matches Ok(p) && p@ == shell_gc_root@),
        !all_exist ==> (r matches Err(e) && e.code() == 111 && e.msg() == "project has not previously been built successfully"@),
{
    if all_exist {
        Ok(shell_gc_root.to_string())
    } else {
        proof {
            reveal_strlit("project has not previously been built successfully");
        }
        Err(ExitError::temporary(String::from_str("project has not previously been built successfully")))
    }
}

/// How `lorri shell` fails when the build fails: a temporary error whose message hints at
/// `--cached` when an environment was built before.
pub fn shell_build_failure(cached: bool, build_error: &str) -> (r: ExitError)
    ensures
        r.code() == 111,
        cached ==> r.msg() == "Build failed. Hint: try running `lorri shell --cached` to use the most recent environment that was built successfully.\nBuild error: "@ + build_error@,
        !cached ==> r.msg() == "Build failed. No cached environment available.\nBuild error: "@ + build_error@,
{
    proof {
        reveal_strlit("Build failed. Hint: try running `lorri shell --cached` to use the most recent environment that was built successfully.\nBuild error: ");
        reveal_strlit("Build failed. No cached environment available.\nBuild error: ");
    }
    let mut m = if cached {
        String::from_str(
            "Build failed. Hint: try running `lorri shell --cached` to use the most recent environment that was built successfully.\nBuild error: ",
        )
    } else {
        String::from_str("Build failed. No cached environment available.\nBuild error: ")
    };
    m.append(build_error);
    ExitError::temporary(m)
}

/// The arguments that make bash execute into `lorri internal start-user-shell` for the
/// user's shell and the project's file.
pub fn start_user_shell_args(lorri: &str, shell: &str, project_file: &str) -> (r: Vec<String>)
    ensures
        r@.map_values(|t: String| t@) == seq![
            "-c"@,
            "exec \"$1\" internal start-user-shell --shell-path=\"$2\" --shell-file=\"$3\""@,
            "--"@,
            lorri@,
            shell@,
            project_file@,
        ],
{
    proof {
        reveal_strlit("-c");
        reveal_strlit("exec \"$1\" internal start-user-shell --shell-path=\"$2\" --shell-file=\"$3\"");
        reveal_strlit("--");
    }
    let r = vec![
        String::from_str("-c"),
        String::from_str("exec \"$1\" internal start-user-shell --shell-path=\"$2\" --shell-file=\"$3\""),
        String::from_str("--"),
        lorri.to_string(),
        shell.to_string(),
        project_file.to_string(),
    ];
    proof {
        assert(r@.map_values(|t: String| t@) =~= seq![
            "-c"@,
            "exec \"$1\" internal start-user-shell --shell-path=\"$2\" --shell-file=\"$3\""@,
            "--"@,
            lorri@,
            shell@,
            project_file@,
        ]);
    }
    r
}

/// The error when the shell could not be run (`status` is how the exit status is shown).
pub fn shell_exit_failure(status: &str) -> (r: ExitError)
    ensures
        r.code() == 101,
        r.msg() == "cannot run lorri shell: failed to execute internal shell command (error: "@ + status@ + ")"@,
{
    proof {
        reveal_strlit("cannot run lorri shell: failed to execute internal shell command (error: ");
        reveal_strlit(")");
    }
    let mut m = String::from_str("cannot run lorri shell: failed to execute internal shell command (error: ");
    m.append(status);
    m.append(")");
    ExitError::panic(m)
}

/// The shells whose prompt `lorri shell` adjusts.
#[derive(Debug, Clone, Copy, PartialEq, Eq, Structural)]
pub enum ShellKind {
    /// bash: an rc file sources the usual ones and sets the prompt
    Bash,
    /// zsh: a `.zshrc` in a directory of lorri's, found through `ZDOTDIR`
    Zsh,
    /// Any other shell is started as it is
    Other,
}

/// The kind of a shell, by the file name of its binary.
pub open spec fn shell_kind_of(name: Seq<char>) -> ShellKind {
    if name == "bash"@ {
        ShellKind::Bash
    } else if name == "zsh"@ {
        ShellKind::Zsh
    } else {
        ShellKind::Other
    }
}

/// The kind of the shell at `shell_path` (see `shell_kind_of`); the path must name a file.
pub fn shell_kind(shell_path: &str) -> (r: ShellKind)
    requires
        crate::path::file_name_of(shell_path@) is Some,
    ensures
        r == shell_kind_of(crate::path::file_name_of(shell_path@).unwrap()),
{
    proof {
        reveal_strlit("bash");
        reveal_strlit("zsh");
    }
    match crate::path::file_name(shell_path) {
        Some(n) => {
            if crate::path::str_eq(n.as_str(), "bash") {
                ShellKind::Bash
            } else if crate::path::str_eq(n.as_str(), "zsh") {
                ShellKind::Zsh
            } else {
                ShellKind::Other
            }
        },
        None => ShellKind::Other,
    }
}

/// The error when a helper program cannot be started: a missing executable when it is not
/// found, a temporary error otherwise.
pub fn command_start_error(executable: &str, not_found: bool, error: &str) -> (r: ExitError)
    ensures
        not_found ==> r.code() == 127 && r.msg() == "`"@ + executable@ + "`: executable not found"@,
        !not_found ==> r.code() == 111 && r.msg() == "Could not start `"@ + executable@ + "`: "@ + error@,
{
    proof {
        reveal_strlit("`");
        reveal_strlit("`: executable not found");
        reveal_strlit("Could not start `");
        reveal_strlit("`: ");
    }
    if not_found {
        let mut m = String::from_str("`");
        m.append(executable);
        m.append("`: executable not found");
        ExitError::missing_executable(m)
    } else {
        let mut m = String::from_str("Could not start `");
        m.append(executable);
        m.append("`: ");
        m.append(error);
        ExitError::temporary(m)
    }
}

} // verus!

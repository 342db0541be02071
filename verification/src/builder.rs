//! Builds a nix derivation file (like a `shell.nix` file).
//!
//! Note: this does not build the Nix expression as-is.
//! It instruments various nix builtins in a way that we
//! can parse additional information from the `nix-build`
//! `stderr`, like which source files are used by the evaluator.

pub mod nix_dev;

use crate::path::{chars_of, path_join};
use crate::text::{signed_decimal, i32_string};
use crate::internal_proto::{log_text, log_line_to_string};
use crate::watch::WatchPathBuf;
use vstd::prelude::*;
use vstd::utf8::{decode_utf8, valid_utf8};

verus! {

/// A line from stderr log output, as raw bytes.
#[derive(Debug)]
pub struct LogLine(pub Vec<u8>);

impl View for LogLine {
    type V = Seq<u8>;

    open spec fn view(&self) -> Seq<u8> {
        self.0@
    }
}

impl Clone for LogLine {
    fn clone(&self) -> (r: Self)
        ensures
            r@ == self@,
    {
        let v = self.0.clone();
        proof {
            assert(v@ =~= self.0@);
        }
        LogLine(v)
    }
}

/// An error that can occur during a build.
#[derive(Debug)]
pub enum BuildError {
    /// A system-level IO error occurred during the build.
    Io {
        /// Error message of the underlying error.
        msg: String,
    },
    /// An error occurred while spawning a Nix process.
    ///
    /// Usually this means that the relevant Nix executable was not on the $PATH.
    Spawn {
        /// The command that failed.
        cmd: String,
        /// Error message of the underlying error.
        msg: String,
    },
    /// The Nix process returned with a non-zero exit code.
    Exit {
        /// The command that failed.
        cmd: String,
        /// The exit code of the command, if it exited normally. `BuildError::exit` ensures
        /// it is not a success.
        status: Option<i32>,
        /// Error logs of the failed process.
        logs: Vec<LogLine>,
    },
    /// There was something wrong with the output of the Nix command.
    ///
    /// This error may for example indicate that the wrong number of outputs was produced.
    Output {
        /// Error message explaining the nature of the output error.
        msg: String,
    },
}

/// The logs of a failed build, line by line.
pub open spec fn logs_view(logs: Seq<LogLine>) -> Seq<Seq<u8>> {
    logs.map_values(|l: LogLine| l@)
}

/// The content of a `BuildError`.
pub enum BuildErrorView {
    /// See `BuildError::Io`
    Io { msg: Seq<char> },
    /// See `BuildError::Spawn`
    Spawn { cmd: Seq<char>, msg: Seq<char> },
    /// See `BuildError::Exit`
    Exit { cmd: Seq<char>, status: Option<i32>, logs: Seq<Seq<u8>> },
    /// See `BuildError::Output`
    Output { msg: Seq<char> },
}

impl View for BuildError {
    type V = BuildErrorView;

    open spec fn view(&self) -> BuildErrorView {
        match self {
            BuildError::Io { msg } => BuildErrorView::Io { msg: msg@ },
            BuildError::Spawn { cmd, msg } => BuildErrorView::Spawn { cmd: cmd@, msg: msg@ },
            BuildError::Exit { cmd, status, logs } => BuildErrorView::Exit {
                cmd: cmd@,
                status: *status,
                logs: logs_view(logs@),
            },
            BuildError::Output { msg } => BuildErrorView::Output { msg: msg@ },
        }
    }
}

/// Clone a list of log lines.
fn clone_logs(logs: &Vec<LogLine>) -> (r: Vec<LogLine>)
    ensures
        logs_view(r@) == logs_view(logs@),
{
    let mut r: Vec<LogLine> = Vec::new();
    let mut i: usize = 0;
    while i < logs.len()
        invariant
            i <= logs@.len(),
            r@.len() == i,
            forall|k: int| 0 <= k < i ==> (#[trigger] r@[k])@ == logs@[k]@,
        decreases logs@.len() - i,
    {
        r.push(logs[i].clone());
        i = i + 1;
    }
    proof {
        assert(logs_view(r@) =~= logs_view(logs@));
    }
    r
}

impl Clone for BuildError {
    fn clone(&self) -> (r: Self)
        ensures
            r@ == self@,
    {
        match self {
            BuildError::Io { msg } => BuildError::Io { msg: msg.clone() },
            BuildError::Spawn { cmd, msg } => BuildError::Spawn { cmd: cmd.clone(), msg: msg.clone() },
            BuildError::Exit { cmd, status, logs } => BuildError::Exit {
                cmd: cmd.clone(),
                status: *status,
                logs: clone_logs(logs),
            },
            BuildError::Output { msg } => BuildError::Output { msg: msg.clone() },
        }
    }
}

/// Is there something the user can do about this error?
pub open spec fn actionable(e: BuildError) -> bool {
    !(e is Io)
}

impl BuildError {
    /// Smart constructor for `BuildError::Io`, from the rendered underlying error.
    pub fn io(msg: String) -> (r: BuildError)
        ensures
            r == (BuildError::Io { msg }),
    {
        BuildError::Io { msg }
    }

    /// Smart constructor for `BuildError::Spawn`, from the rendered command and error.
    pub fn spawn(cmd: String, msg: String) -> (r: BuildError)
        ensures
            r == (BuildError::Spawn { cmd, msg }),
    {
        BuildError::Spawn { cmd, msg }
    }

    /// Smart constructor for `BuildError::Exit`, from the rendered command, the exit code of
    /// a process that did not exit successfully, and its logs.
    pub fn exit(cmd: String, status: Option<i32>, logs: Vec<LogLine>) -> (r: BuildError)
        requires
            status != Some(0i32),
        ensures
            r == (BuildError::Exit { cmd, status, logs }),
    {
        BuildError::Exit { cmd, status, logs }
    }

    /// Smart constructor for `BuildError::Output`
    pub fn output(msg: String) -> (r: BuildError)
        ensures
            r == (BuildError::Output { msg }),
    {
        BuildError::Output { msg }
    }

    /// Is there something the user can do about this error?
    pub fn is_actionable(&self) -> (r: bool)
        ensures
            r == actionable(*self),
    {
        match self {
            BuildError::Io { .. } => false,
            BuildError::Spawn { .. } => true,  // install Nix or fix $PATH
            BuildError::Exit { .. } => true,  // fix Nix expression
            BuildError::Output { .. } => true,  // fix Nix expression
        }
    }
}

/// The text of log lines, each followed by a line break.
pub open spec fn lines_text(logs: Seq<Seq<u8>>) -> Seq<char>
    decreases logs.len(),
{
    if logs.len() == 0 {
        Seq::empty()
    } else {
        lines_text(logs.drop_last()) + log_text(logs.last()) + seq!['\n']
    }
}

/// The exit status as text: its number, or `<unknown>` when the process did not exit
/// normally.
pub open spec fn status_text(status: Option<i32>) -> Seq<char> {
    match status {
        Some(c) => signed_decimal(c as int),
        None => "<unknown>"@,
    }
}

/// How a build error is shown to the user.
pub open spec fn build_error_text(e: BuildErrorView) -> Seq<char> {
    match e {
        BuildErrorView::Io { msg } => "I/O error: "@ + msg,
        BuildErrorView::Spawn { cmd, msg } => "failed to spawn Nix process. Is Nix installed and on the $PATH?\n$ "@ + cmd + "\n"@ + msg,
        BuildErrorView::Exit { cmd, status, logs } => "Nix process returned exit code "@ + status_text(status) + ".\n$ "@ + cmd + "\n"@ + lines_text(logs),
        BuildErrorView::Output { msg } => msg,
    }
}

/// The text of log lines, each followed by a line break (see `lines_text`).
fn lines_string(logs: &Vec<LogLine>) -> (r: String)
    ensures
        r@ == lines_text(logs_view(logs@)),
{
    let mut s = String::new();
    let mut i: usize = 0;
    proof {
        reveal_strlit("\n");
    }
    while i < logs.len()
        invariant
            i <= logs@.len(),
            s@ == lines_text(logs_view(logs@.subrange(0, i as int))),
        decreases logs@.len() - i,
    {
        let t = log_line_to_string(&logs[i]);
        s.append(t.as_str());
        s.append("\n");
        proof {
            let u = logs@.subrange(0, i + 1);
            assert(logs_view(u).drop_last() =~= logs_view(logs@.subrange(0, i as int)));
            assert(logs_view(u).last() == logs@[i as int]@);
            reveal_strlit("\n");
            assert("\n"@ =~= seq!['\n']);
            assert(lines_text(logs_view(u)) == lines_text(logs_view(u).drop_last()) + log_text(logs_view(u).last()) + seq!['\n']);
        }
        i = i + 1;
    }
    proof {
        assert(logs@.subrange(0, logs@.len() as int) =~= logs@);
    }
    s
}

impl BuildError {
    /// How the error is shown to the user (see `build_error_text`).
    pub fn to_display_string(&self) -> (r: String)
        ensures
            r@ == build_error_text(self@),
    {
        proof {
            reveal_strlit("I/O error: ");
            reveal_strlit("failed to spawn Nix process. Is Nix installed and on the $PATH?\n$ ");
            reveal_strlit("\n");
            reveal_strlit("Nix process returned exit code ");
            reveal_strlit(".\n$ ");
            reveal_strlit("<unknown>");
        }
        match self {
            BuildError::Io { msg } => {
                let mut s = String::from_str("I/O error: ");
                s.append(msg.as_str());
                s
            },
            BuildError::Spawn { cmd, msg } => {
                let mut s = String::from_str("failed to spawn Nix process. Is Nix installed and on the $PATH?\n$ ");
                s.append(cmd.as_str());
                s.append("\n");
                s.append(msg.as_str());
                s
            },
            BuildError::Exit { cmd, status, logs } => {
                let mut s = String::from_str("Nix process returned exit code ");
                let st = match status {
                    Some(c) => i32_string(*c),
                    None => String::from_str("<unknown>"),
                };
                s.append(st.as_str());
                s.append(".\n$ ");
                s.append(cmd.as_str());
                s.append("\n");
                let l = lines_string(logs);
                s.append(l.as_str());
                s
            },
            BuildError::Output { msg } => msg.clone(),
        }
    }
}

/// Output path generated by `logged-evaluation.nix`
#[derive(Debug)]
pub struct OutputPath<T> {
    /// Shell path modified to work as a gc root
    pub shell_gc_root: T,
}

impl<T: View> View for OutputPath<T> {
    type V = OutputPath<T::V>;

    open spec fn view(&self) -> OutputPath<T::V> {
        OutputPath { shell_gc_root: self.shell_gc_root@ }
    }
}

impl Clone for OutputPath<crate::project::RootPath> {
    fn clone(&self) -> (r: Self)
        ensures
            r@ == self@,
    {
        OutputPath { shell_gc_root: self.shell_gc_root.clone() }
    }
}

impl<T> OutputPath<T> {
    /// map over the inner type.
    pub fn map<F, T2>(self, f: F) -> (r: OutputPath<T2>) where F: Fn(T) -> T2
        requires
            call_requires(f, (self.shell_gc_root,)),
        ensures
            call_ensures(f, (self.shell_gc_root,), r.shell_gc_root),
    {
        OutputPath { shell_gc_root: f(self.shell_gc_root) }
    }

    /// The output path with `f` applied to the inner value (what `map` computes for a
    /// function that `f` describes).
    pub open spec fn mapped<T2>(self, f: spec_fn(T) -> T2) -> OutputPath<T2> {
        OutputPath { shell_gc_root: f(self.shell_gc_root) }
    }
}

/// Mapping the identity leaves an output path as it is.
pub proof fn lemma_map_identity<T>(o: OutputPath<T>)
    ensures
        o.mapped(|x: T| x) == o,
{
}

/// Mapping two functions one after the other is mapping their composition.
pub proof fn lemma_map_composition<A, B, C>(o: OutputPath<A>, f: spec_fn(A) -> B, g: spec_fn(B) -> C)
    ensures
        o.mapped(f).mapped(g) == o.mapped(|x: A| g(f(x))),
{
}

/// `map` computes what `mapped` says for a function whose result is fixed by `sf`.
pub proof fn lemma_map_computes<T, T2, F: Fn(T) -> T2>(o: OutputPath<T>, f: F, sf: spec_fn(T) -> T2, r: OutputPath<T2>)
    requires
        forall|x: T, y: T2| call_ensures(f, (x,), y) ==> y == sf(x),
        call_ensures(f, (o.shell_gc_root,), r.shell_gc_root),
    ensures
        r == o.mapped(sf),
{
}

/// A realised store path, with the other store paths the build made that need rooting too.
/// (The temporary gc root that keeps them alive until they are rooted for good is held by
/// the caller.)
#[derive(Debug)]
pub struct RootedPath {
    /// The realized store path
    pub path: String,
    /// The flake profile the build made, if it made one
    pub flake_profile_path: Option<String>,
    /// Other GC root files that need pinning
    pub extra_paths: Vec<String>,
}

/// The result of a single instantiation and build.
#[derive(Debug)]
pub struct RunResult {
    /// All the paths identified during the instantiation
    pub referenced_paths: Vec<WatchPathBuf>,
    /// The primary result of the build run
    pub result: RootedPath,
}

/// Classifies the output of nix-instantiate -vv.
#[derive(Debug, PartialEq, Eq)]
pub enum LogDatum {
    /// Nix source file (which should be tracked)
    NixSourceFile(String),
    /// A file/directory copied verbatim to the nix store
    CopiedSource(String),
    /// A `builtins.readFile` or `builtins.filterSource` invocation (at eval time)
    /// Means this subtree should be recursively watched.
    ReadRecursively(String),
    /// A `builtins.readDir` invocation (at eval time).
    /// The subtree must not be recursively watched, only the file listing of the directory.
    ReadDir(String),
    /// Arbitrary text (which we couldn’t otherwise classify)
    Text(String),
    /// Text which we coudn’t decode from UTF-8
    NonUtf(Vec<u8>),
}

/// The content of a `LogDatum`.
pub enum LogDatumView {
    NixSourceFile(Seq<char>),
    CopiedSource(Seq<char>),
    ReadRecursively(Seq<char>),
    ReadDir(Seq<char>),
    Text(Seq<char>),
    NonUtf(Seq<u8>),
}

impl View for LogDatum {
    type V = LogDatumView;

    open spec fn view(&self) -> LogDatumView {
        match self {
            LogDatum::NixSourceFile(p) => LogDatumView::NixSourceFile(p@),
            LogDatum::CopiedSource(p) => LogDatumView::CopiedSource(p@),
            LogDatum::ReadRecursively(p) => LogDatumView::ReadRecursively(p@),
            LogDatum::ReadDir(p) => LogDatumView::ReadDir(p@),
            LogDatum::Text(t) => LogDatumView::Text(t@),
            LogDatum::NonUtf(b) => LogDatumView::NonUtf(b@),
        }
    }
}

/// A line without line breaks (`.` in a pattern matches anything but a line break).
pub open spec fn no_newline(s: Seq<char>) -> bool {
    forall|i: int| 0 <= i < s.len() ==> s[i] != '\n'
}

/// The text between `prefix` and a closing `'` that ends the line: what a pattern of the
/// form `^<prefix>(.*)'$` captures.
pub open spec fn quoted_after(line: Seq<char>, prefix: Seq<char>) -> Option<Seq<char>> {
    if line.len() >= prefix.len() + 1 && line.subrange(0, prefix.len() as int) == prefix
        && line.last() == '\'' && no_newline(line) {
        Some(line.subrange(prefix.len() as int, line.len() - 1))
    } else {
        None
    }
}

/// Lines about a Nix file that the evaluator opens.
pub open spec fn eval_file_prefix() -> Seq<char> {
    "evaluating file '"@
}

/// Lines about a source that Nix copies to the store.
pub open spec fn copied_source_prefix() -> Seq<char> {
    "copied source '"@
}

/// The separator between the copied source and its store path.
pub open spec fn copied_arrow() -> Seq<char> {
    "' -> '"@
}

/// Lines about a file that the instrumented evaluation reads.
pub open spec fn lorri_read_prefix() -> Seq<char> {
    "trace: lorri read: '"@
}

/// Lines about a directory whose listing the instrumented evaluation reads.
pub open spec fn lorri_readdir_prefix() -> Seq<char> {
    "trace: lorri readdir: '"@
}

/// Whether the source of a `copied source '<source>' -> '<target>'` line can end at `k`.
pub open spec fn copied_split(line: Seq<char>, k: int) -> bool {
    let p = copied_source_prefix();
    let a = copied_arrow();
    &&& p.len() <= k
    &&& k + a.len() < line.len()
    &&& line.subrange(k, k + a.len()) == a
}

/// The source of a `copied source '<source>' -> '<target>'` line (a pattern of the form
/// `^copied source '(.*)' -> '.*'$`): the source extends as far as the line allows.
pub open spec fn copied_source_of(line: Seq<char>) -> Option<Seq<char>> {
    let p = copied_source_prefix();
    if line.len() >= p.len() && line.subrange(0, p.len() as int) == p && line.len() > 0 && line.last()
        == '\'' && no_newline(line) && exists|k: int| copied_split(line, k) {
        let k = choose|k: int| copied_split(line, k) && forall|k2: int| copied_split(line, k2) ==> k2 <= k;
        Some(line.subrange(p.len() as int, k))
    } else {
        None
    }
}

/// How a line of `nix-instantiate -vv` output is classified.
///
/// Lines are checked, in order, for an evaluated file, a copied source, a file read by the
/// instrumentation and a directory listing read by the instrumentation; anything else is text.
pub open spec fn evaluation_line_datum(line: Seq<char>) -> LogDatumView {
    if let Some(src) = quoted_after(line, eval_file_prefix()) {
        LogDatumView::NixSourceFile(src)
    } else if let Some(src) = copied_source_of(line) {
        LogDatumView::CopiedSource(src)
    } else if let Some(src) = quoted_after(line, lorri_read_prefix()) {
        LogDatumView::ReadRecursively(src)
    } else if let Some(src) = quoted_after(line, lorri_readdir_prefix()) {
        LogDatumView::ReadDir(src)
    } else {
        LogDatumView::Text(line)
    }
}

/// Decode bytes as UTF-8 (`String::from_utf8`), which fails exactly on invalid UTF-8.
#[verifier::external_body]
pub(crate) fn string_from_utf8(bytes: &[u8]) -> (r: Option<String>)
    ensures
        r is Some == valid_utf8(bytes@),
        r matches Some(s) ==> s@ == decode_utf8(bytes@),
{
    String::from_utf8(bytes.to_vec()).ok()
}

/// Whether `chars` starts with `prefix`.
pub(crate) fn has_prefix(chars: &Vec<char>, prefix: &Vec<char>) -> (r: bool)
    ensures
        r == (chars@.len() >= prefix@.len() && chars@.subrange(0, prefix@.len() as int) == prefix@),
{
    if chars.len() < prefix.len() {
        return false;
    }
    has_at(chars, 0, prefix)
}

/// Whether `chars` holds `pat` at position `k`.
pub(crate) fn has_at(chars: &Vec<char>, k: usize, pat: &Vec<char>) -> (r: bool)
    requires
        k + pat@.len() <= chars@.len(),
    ensures
        r == (chars@.subrange(k as int, k + pat@.len()) == pat@),
{
    let total = chars.len();
    let mut i: usize = 0;
    while i < pat.len()
        invariant
            total == chars@.len(),
            k + pat@.len() <= chars@.len(),
            i <= pat@.len(),
            forall|m: int| 0 <= m < i ==> chars@[k + m] == pat@[m],
        decreases pat@.len() - i,
    {
        if chars[k + i] != pat[i] {
            proof {
                assert(chars@.subrange(k as int, k + pat@.len())[i as int] != pat@[i as int]);
            }
            return false;
        }
        i = i + 1;
    }
    proof {
        assert(chars@.subrange(k as int, k + pat@.len()) =~= pat@);
    }
    true
}

/// Whether there is no line break in `chars`.
fn has_no_newline(chars: &Vec<char>) -> (r: bool)
    ensures
        r == no_newline(chars@),
{
    let mut i: usize = 0;
    while i < chars.len()
        invariant
            i <= chars@.len(),
            forall|m: int| 0 <= m < i ==> chars@[m] != '\n',
        decreases chars@.len() - i,
    {
        if chars[i] == '\n' {
            return false;
        }
        i = i + 1;
    }
    true
}

/// The text of `line` between `prefix` and a closing `'` at the end (see `quoted_after`).
fn match_quoted_after(line: &str, chars: &Vec<char>, prefix: &str) -> (r: Option<String>)
    requires
        chars@ == line@,
    ensures
        match r {
            Some(t) => quoted_after(line@, prefix@) == Some(t@),
            None => quoted_after(line@, prefix@) is None,
        },
{
    let p = chars_of(prefix);
    let n = chars.len();
    if n > p.len() && has_prefix(chars, &p) && chars[n - 1] == '\'' && has_no_newline(chars) {
        Some(line.substring_char(p.len(), n - 1).to_string())
    } else {
        None
    }
}

/// The source of a `copied source '<source>' -> '<target>'` line (see `copied_source_of`).
fn match_copied_source(line: &str, chars: &Vec<char>) -> (r: Option<String>)
    requires
        chars@ == line@,
    ensures
        match r {
            Some(t) => copied_source_of(line@) == Some(t@),
            None => copied_source_of(line@) is None,
        },
{
    let p = chars_of("copied source '");
    let a = chars_of("' -> '");
    let n = chars.len();
    proof {
        reveal_strlit("' -> '");
    }
    if !(has_prefix(chars, &p) && n > 0 && chars[n - 1] == '\'' && has_no_newline(chars)) {
        return None;
    }
    if n - p.len() <= a.len() {
        proof {
            assert forall|k: int| !copied_split(line@, k) by {}
        }
        return None;
    }
    // search the last position where the arrow fits before the closing quote
    let mut k: usize = n - a.len() - 1;
    loop
        invariant
            chars@ == line@,
            n == line@.len(),
            a@ == copied_arrow(),
            p@ == copied_source_prefix(),
            p.len() <= k,
            k + a@.len() < n,
            n > 0,
            line@.len() >= p@.len() && line@.subrange(0, p@.len() as int) == p@,
            line@.last() == '\'',
            no_newline(line@),
            forall|k2: int| k < k2 ==> !copied_split(line@, k2),
        decreases k,
    {
        if has_at(chars, k, &a) {
            proof {
                assert(copied_split(line@, k as int));
                assert(copied_split(line@, k as int) && forall|k2: int| copied_split(line@, k2) ==> k2 <= k);
                let kc = choose|k3: int| copied_split(line@, k3) && forall|k2: int| copied_split(line@, k2) ==> k2 <= k3;
                assert(kc == k);
            }
            return Some(line.substring_char(p.len(), k).to_string());
        }
        if k == p.len() {
            proof {
                assert forall|k2: int| !copied_split(line@, k2) by {
                    if k2 == k {
                    }
                }
            }
            return None;
        }
        k = k - 1;
    }
}

/// Classify a line of text (see `evaluation_line_datum`).
fn parse_evaluation_text(line: String) -> (r: LogDatum)
    ensures
        r@ == evaluation_line_datum(line@),
{
    let chars = chars_of(line.as_str());
    // Lines about evaluating a file are much more common, so looking
    // for them first will reduce comparisons.
    if let Some(src) = match_quoted_after(line.as_str(), &chars, "evaluating file '") {
        LogDatum::NixSourceFile(src)
    } else if let Some(src) = match_copied_source(line.as_str(), &chars) {
        LogDatum::CopiedSource(src)
    } else if let Some(src) = match_quoted_after(line.as_str(), &chars, "trace: lorri read: '") {
        LogDatum::ReadRecursively(src)
    } else if let Some(src) = match_quoted_after(line.as_str(), &chars, "trace: lorri readdir: '") {
        LogDatum::ReadDir(src)
    } else {
        LogDatum::Text(line)
    }
}

/// Examine a line of output and extract interesting log items in to
/// structured data. Lines that are not valid UTF-8 are passed through.
pub fn parse_evaluation_line(line: &[u8]) -> (r: LogDatum)
    ensures
        !valid_utf8(line@) ==> r@ == LogDatumView::NonUtf(line@),
        valid_utf8(line@) ==> r@ == evaluation_line_datum(decode_utf8(line@)),
{
    match string_from_utf8(line) {
        // If we can’t decode the output line to an UTF-8 string,
        // we cannot match against patterns, so just pass it through.
        None => LogDatum::NonUtf(vstd::slice::slice_to_vec(line)),
        Some(linestr) => parse_evaluation_text(linestr),
    }
}

/// The path a log datum asks to watch, given whether a Nix source file is a directory:
/// copied sources and file reads are watched recursively, directory listings and Nix source
/// files are not, and a Nix source directory stands for the `default.nix` in it (as `import`
/// resolves it). Text is not watched.
pub open spec fn watch_path_for(d: LogDatumView, src_is_dir: bool) -> Option<(bool, Seq<char>)> {
    match d {
        LogDatumView::CopiedSource(src) => Some((true, src)),
        LogDatumView::ReadRecursively(src) => Some((true, src)),
        LogDatumView::ReadDir(src) => Some((false, src)),
        LogDatumView::NixSourceFile(src) => if src_is_dir {
            Some((false, path_join(src, "default.nix"@)))
        } else {
            Some((false, src))
        },
        _ => None,
    }
}

/// The paths to watch that a list of log data names, in order, where `dirs[i]` tells whether
/// the source of the `i`-th datum is a directory.
pub open spec fn watch_paths(results: Seq<LogDatumView>, dirs: Seq<bool>) -> Seq<(bool, Seq<char>)>
    decreases results.len(),
{
    if results.len() == 0 || dirs.len() < results.len() {
        Seq::empty()
    } else {
        let prev = watch_paths(results.drop_last(), dirs.subrange(0, results.len() - 1));
        match watch_path_for(results.last(), dirs[results.len() - 1]) {
            Some(w) => prev.push(w),
            None => prev,
        }
    }
}

/// The path a log datum asks to watch (see `watch_path_for`).
pub fn watch_path_of(datum: &LogDatum, src_is_dir: bool) -> (r: Option<WatchPathBuf>)
    ensures
        match r {
            Some(w) => watch_path_for(datum@, src_is_dir) == Some(w@),
            None => watch_path_for(datum@, src_is_dir) is None,
        },
{
    proof {
        reveal_strlit("default.nix");
    }
    match datum {
        LogDatum::CopiedSource(src) | LogDatum::ReadRecursively(src) => Some(WatchPathBuf::Recursive(src.clone())),
        LogDatum::ReadDir(src) => Some(WatchPathBuf::Normal(src.clone())),
        LogDatum::NixSourceFile(src) => {
            // We need to emulate nix’s `default.nix` mechanism here.
            // That is, if the user uses something like
            // `import ./foo`
            // and `foo` is a directory, nix will actually import
            // `./foo/default.nix`
            // but still print `./foo`.
            // Since this is the only time directories are printed,
            // we can just manually re-implement that behavior.
            if src_is_dir {
                Some(WatchPathBuf::Normal(crate::path::join(src.as_str(), "default.nix")))
            } else {
                Some(WatchPathBuf::Normal(src.clone()))
            }
        },
        LogDatum::Text(_) | LogDatum::NonUtf(_) => None,
    }
}

/// Calls `Path::is_dir`: whether the path is a directory on disk. Nothing is claimed of the
/// answer, which depends on the file system at the time of the call.
#[verifier::external_body]
fn is_dir(path: &str) -> bool {
    std::path::Path::new(path).is_dir()
}

/// The views of a list of log data.
pub open spec fn log_data_view(results: Seq<LogDatum>) -> Seq<LogDatumView> {
    results.map_values(|d: LogDatum| d@)
}

/// The paths to watch that the log of an evaluation names, in order, given for each datum
/// whether its source is a directory (see `watch_paths`).
pub fn extract_paths_with(results: &Vec<LogDatum>, dirs: &Vec<bool>) -> (r: Vec<WatchPathBuf>)
    requires
        dirs@.len() == results@.len(),
    ensures
        r@.map_values(|w: WatchPathBuf| w@) == watch_paths(log_data_view(results@), dirs@),
{
    let ghost all = results@.map_values(|d: LogDatum| d@);
    let mut r: Vec<WatchPathBuf> = Vec::new();
    let n = results.len();
    let mut i: usize = 0;
    while i < n
        invariant
            n == results@.len(),
            dirs@.len() == n,
            all == results@.map_values(|d: LogDatum| d@),
            i <= n,
            r@.map_values(|w: WatchPathBuf| w@) == watch_paths(all.take(i as int), dirs@.take(i as int)),
        decreases n - i,
    {
        let w = watch_path_of(&results[i], dirs[i]);
        let ghost before = r@;
        proof {
            assert(all.take(i + 1).drop_last() =~= all.take(i as int));
            assert(all.take(i + 1).last() == results@[i as int]@);
            assert(dirs@.take(i + 1).subrange(0, i as int) =~= dirs@.take(i as int));
        }
        match w {
            Some(w) => {
                r.push(w);
                proof {
                    assert(r@.map_values(|w: WatchPathBuf| w@) =~= before.map_values(|w: WatchPathBuf| w@).push(r@[before.len() as int]@)) by {
                        assert(r@.len() == before.len() + 1);
                    }
                }
            },
            None => {},
        }
        i = i + 1;
    }
    proof {
        assert(all.take(n as int) =~= all);
        assert(dirs@.take(n as int) =~= dirs@);
    }
    r
}

/// The paths to watch that the log of an evaluation names, in order.
/// Whether a Nix source file is a directory is asked of the file system; what it answers is
/// not stated, so the result is that of `watch_paths` for some such answers.
pub fn extract_paths(results: Vec<LogDatum>) -> (r: Vec<WatchPathBuf>)
    ensures
        exists|dirs: Seq<bool>|
            dirs.len() == results@.len() && r@.map_values(|w: WatchPathBuf| w@) == #[trigger] watch_paths(
                log_data_view(results@),
                dirs,
            ),
{
    let mut dirs: Vec<bool> = Vec::new();
    let mut i: usize = 0;
    while i < results.len()
        invariant
            i <= results@.len(),
            dirs@.len() == i,
        decreases results@.len() - i,
    {
        let dir = match &results[i] {
            LogDatum::NixSourceFile(src) => is_dir(src.as_str()),
            _ => false,
        };
        dirs.push(dir);
        i = i + 1;
    }
    let r = extract_paths_with(&results, &dirs);
    proof {
        assert(dirs@.len() == results@.len() && r@.map_values(|w: WatchPathBuf| w@) == watch_paths(log_data_view(results@), dirs@));
    }
    r
}

/// The views of a list of texts.
pub open spec fn texts_view(v: Seq<String>) -> Seq<Seq<char>> {
    v.map_values(|t: String| t@)
}

/// The arguments of the `nix-instantiate` call that evaluates `nix_file` through the
/// instrumented `logged_evaluation` file: verbose, then the extra options, then a temporary
/// indirect gc root at `gc_root`, the run time closure and the source file as arguments.
pub open spec fn instantiate_args_view(extra: Seq<Seq<char>>, gc_root: Seq<char>, run_time_closure: Seq<char>, nix_file: Seq<char>, logged_evaluation: Seq<char>) -> Seq<Seq<char>> {
    seq!["-vv"@] + extra + seq![
        "--add-root"@,
        gc_root,
        "--indirect"@,
        "--argstr"@,
        "runTimeClosure"@,
        run_time_closure,
        "--argstr"@,
        "src"@,
        nix_file,
        "--"@,
        logged_evaluation,
    ]
}

/// The arguments of the instrumented `nix-instantiate` call (see `instantiate_args_view`).
pub fn instantiate_args(extra: &Vec<String>, gc_root: &str, run_time_closure: &str, nix_file: &str, logged_evaluation: &str) -> (r: Vec<String>)
    ensures
        texts_view(r@) == instantiate_args_view(texts_view(extra@), gc_root@, run_time_closure@, nix_file@, logged_evaluation@),
{
    proof {
        reveal_strlit("-vv");
        reveal_strlit("--add-root");
        reveal_strlit("--indirect");
        reveal_strlit("--argstr");
        reveal_strlit("runTimeClosure");
        reveal_strlit("src");
        reveal_strlit("--");
    }
    let mut r: Vec<String> = vec![String::from_str("-vv")];
    let mut i: usize = 0;
    while i < extra.len()
        invariant
            i <= extra@.len(),
            texts_view(r@) == seq!["-vv"@] + texts_view(extra@).take(i as int),
        decreases extra@.len() - i,
    {
        let ghost old_t = texts_view(r@);
        let x = extra[i].clone();
        r.push(x);
        proof {
            assert(texts_view(r@) =~= old_t.push(extra@[i as int]@));
            assert(texts_view(extra@).take(i + 1) =~= texts_view(extra@).take(i as int).push(extra@[i as int]@));
            assert(texts_view(r@) =~= seq!["-vv"@] + texts_view(extra@).take(i + 1));
        }
        i = i + 1;
    }
    let ghost before = texts_view(r@);
    r.push(String::from_str("--add-root"));
    r.push(gc_root.to_string());
    r.push(String::from_str("--indirect"));
    r.push(String::from_str("--argstr"));
    r.push(String::from_str("runTimeClosure"));
    r.push(run_time_closure.to_string());
    r.push(String::from_str("--argstr"));
    r.push(String::from_str("src"));
    r.push(nix_file.to_string());
    r.push(String::from_str("--"));
    r.push(logged_evaluation.to_string());
    proof {
        assert(texts_view(extra@).take(extra@.len() as int) =~= texts_view(extra@));
        assert(texts_view(r@) =~= instantiate_args_view(texts_view(extra@), gc_root@, run_time_closure@, nix_file@, logged_evaluation@));
    }
    r
}

/// The error when a Nix process cannot be started: a spawn error when the executable is
/// not found (with the command and the error's message), an I/O error otherwise.
pub fn start_failure(not_found: bool, cmd: String, msg: String) -> (r: BuildError)
    ensures
        not_found ==> r@ == (BuildErrorView::Spawn { cmd: cmd@, msg: msg@ }),
        !not_found ==> r@ == (BuildErrorView::Io { msg: msg@ }),
{
    if not_found {
        BuildError::spawn(cmd, msg)
    } else {
        BuildError::io(msg)
    }
}

/// The single build product of the instrumented evaluation (there is always exactly one).
pub fn single_build_product(products: Vec<String>) -> (r: String)
    requires
        products@.len() == 1,
    ensures
        r@ == products@[0]@,
{
    let mut products = products;
    products.remove(0)
}

} // verus!

//! The command line interface: what each command and option carries, and the parsing of
//! durations such as `30d`.

use std::time::Duration;
use vstd::prelude::*;

verus! {

/// Global arguments which set global program state. Most
/// arguments will be to sub-commands.
#[derive(Debug)]
pub struct Arguments {
    /// Activate debug logging. Multiple occurrences are accepted for backwards compatibility, but
    /// have no effect. This will display all messages lorri logs.
    pub verbosity: u8,
    /// Sub-command to execute
    pub command: Command,
}

/// Verbosity options lorri supports;
#[derive(Copy, Clone, Debug)]
pub enum Verbosity {
    /// Default verbosity, print info and up
    DefaultInfo,
    /// Debug verbosity, print all messages
    Debug,
}

/// Sub-commands which lorri can execute
#[derive(Debug)]
pub enum Command {
    /// Emit shell script intended to be evaluated as part of direnv's .envrc
    Direnv(DirenvOptions),
    /// Remove lorri garbage collection roots that point to removed shell.nix files
    Gc(GcOptions),
    /// Show information about a lorri project
    Info(InfoOptions),
    /// Open a new project shell
    Shell(ShellOptions),
    /// Build project whenever an input file changes
    Watch(WatchOptions),
    /// Start the multi-project daemon. Replaces `lorri watch`
    Daemon(DaemonOptions),
    /// Upgrade Lorri
    Upgrade(UpgradeTo),
    /// Write bootstrap files to current directory to create a new lorri project
    Init,
    /// Internal commands, only use to experiment with unstable features
    Internal {
        /// Sub-command to execute
        command: Internal_,
    },
}

/// Options for the `direnv` subcommand.
#[derive(Debug)]
pub struct DirenvOptions {
    /// The .nix file in the current directory to use
    pub nix_file: String,
}

/// Options for the `info` subcommand.
#[derive(Debug)]
pub struct InfoOptions {
    /// The .nix file in the current directory to use
    ///
    /// If this option is not given, the `shell.nix` of the current directory is used.
    pub nix_file: Option<String>,
}

/// Options for the `gc` subcommand.
#[derive(Debug)]
pub struct GcOptions {
    /// Machine readable output
    pub json: bool,
    /// Subcommand for lorri gc
    pub action: GcSubcommand,
}

/// Subcommand for lorri gc
#[derive(Debug)]
pub enum GcSubcommand {
    /// Prints the gc roots that lorri created.
    Info,
    /// Removes the gc roots associated to projects whose nix file vanished.
    Rm {
        /// Also delete the root associated with these shell files
        shell_file: Vec<String>,
        /// Delete the root of all projects
        all: bool,
        /// Also delete the root of projects that were last built before this amount of time, e.g. 30d.
        older_than: Option<Duration>,
        /// Only print what would be deleted
        dry_run: bool,
    },
}

/// Options for the `shell` subcommand.
#[derive(Debug)]
pub struct ShellOptions {
    /// The .nix file in the current directory to use
    pub nix_file: String,
    /// If true, load environment from cache
    pub cached: bool,
}

/// Options for the `internal start-user-shell` subcommand.
#[derive(Debug)]
pub struct StartUserShellOptions_ {
    /// The path of the parent shell's binary
    pub shell_path: String,
    /// The .nix file in the current directory to use to instantiate the project
    pub nix_file: String,
}

/// Options for the `watch` subcommand.
#[derive(Debug)]
pub struct WatchOptions {
    /// The .nix file in the current directory to use
    pub nix_file: String,
    /// Exit after a the first build
    pub once: bool,
}

/// Options for the `daemon` subcommand
#[derive(Debug)]
pub struct DaemonOptions {
    /// Nix config options to add (given as JSON on the command line).
    pub extra_nix_options: Option<NixOptions>,
}

/// The nix options that can be given as a JSON string
#[derive(Debug)]
pub struct NixOptions {
    /// `builders`
    pub builders: Option<Vec<String>>,
    /// `substituters`
    pub substituters: Option<Vec<String>>,
}

/// Sub-commands which lorri can execute for internal features
#[derive(Debug)]
pub enum Internal_ {
    /// (internal) Used internally by `lorri shell`
    StartUserShell_(StartUserShellOptions_),
    /// (plumbing) Tell the lorri daemon to care about the current directory's project
    Ping_(Ping_),
    /// (experimental) Ask the lorri daemon to report build events as they occur.
    StreamEvents_(StreamEvents_),
}

/// Send a message with a lorri project.
///
/// Pinging with a project tells the daemon that the project was recently interacted with.
/// If the daemon has not been pinged for a project, it begins listening. If it does not
/// get pinged for a long time, it may stop watching the project for changes.
#[derive(Debug)]
pub struct Ping_ {
    /// The .nix file to watch and build on changes.
    pub nix_file: String,
}

/// Which build events `stream-events` reports.
#[derive(Debug, Clone, Copy, PartialEq, Eq, Structural)]
pub enum EventKind {
    /// The state of every project, then every event as it happens
    All,
    /// Only the events that happen from now on
    Live,
    /// Only the current state of every project
    Snapshot,
}

/// Stream events from the daemon.
#[derive(Debug)]
pub struct StreamEvents_ {
    /// The kind of events to report
    pub kind: EventKind,
}

/// A stub struct to represent how what we want to upgrade to.
#[derive(Debug)]
pub struct UpgradeTo {
    /// Where to upgrade to. If no subcommand given, `rolling-release` is assumed.
    pub source: Option<UpgradeSource>,
}

/// Version-specifiers of different upgrade targets.
#[derive(Debug)]
pub enum UpgradeSource {
    /// Upgrade to the current rolling-release version (default)
    RollingRelease,
    /// Upgrade to the current version from the canon (previously: master) branch
    Canon,
    /// Alias for `canon`.
    Master,
    /// Upgrade to the specified git branch
    Branch(BranchDest),
    /// Upgrade to a version in an arbitrary local directory.
    Local(LocalDest),
}

/// Install an arbitrary version of lorri from a local directory.
#[derive(Debug)]
pub struct LocalDest {
    /// the path to a local check out of lorri.
    pub path: String,
}

/// Install an arbitrary version of Lorri from an upstream git branch.
#[derive(Debug)]
pub struct BranchDest {
    /// the path to git branch of the upstream repository.
    pub branch: String,
}

/// Why text is not an unsigned integer, as the standard library reports it.
#[derive(Debug, Clone, Copy, PartialEq, Eq, Structural)]
pub enum IntErrorKind {
    /// The text is empty
    Empty,
    /// A character is not a digit
    InvalidDigit,
    /// The number does not fit in 64 bits
    PosOverflow,
}

/// The value of a decimal digit character.
pub open spec fn digit_value(c: char) -> Option<nat> {
    if '0' <= c && c <= '9' {
        Some((c as nat - '0' as nat) as nat)
    } else {
        None
    }
}

/// Reading the digits of `s` from position `i` on, with `acc` read so far: left to right,
/// the first character that is not a digit, or the first digit that takes the value past
/// 64 bits, is the error.
pub open spec fn read_digits(s: Seq<char>, i: int, acc: nat) -> Result<nat, IntErrorKind>
    decreases s.len() - i,
{
    if i < 0 || i >= s.len() {
        Ok(acc)
    } else {
        match digit_value(s[i]) {
            None => Err(IntErrorKind::InvalidDigit),
            Some(d) => if acc * 10 + d > u64::MAX {
                Err(IntErrorKind::PosOverflow)
            } else {
                read_digits(s, i + 1, acc * 10 + d)
            },
        }
    }
}

/// Parsing text as a `u64`: an empty text, or a lone sign, is an error; one leading `+`
/// is allowed; then every character must be a decimal digit.
pub open spec fn parse_u64(s: Seq<char>) -> Result<nat, IntErrorKind> {
    if s.len() == 0 {
        Err(IntErrorKind::Empty)
    } else if s[0] == '+' {
        if s.len() == 1 {
            Err(IntErrorKind::InvalidDigit)
        } else {
            read_digits(s, 1, 0)
        }
    } else {
        read_digits(s, 0, 0)
    }
}

/// How the standard library describes an integer parse error.
pub open spec fn int_error_text(e: IntErrorKind) -> Seq<char> {
    match e {
        IntErrorKind::Empty => "cannot parse integer from empty string"@,
        IntErrorKind::InvalidDigit => "invalid digit found in string"@,
        IntErrorKind::PosOverflow => "number too large to fit in target type"@,
    }
}

/// Parse text as a `u64` (see `parse_u64`).
pub fn parse_u64_exec(s: &str) -> (r: Result<u64, IntErrorKind>)
    ensures
        match parse_u64(s@) {
            Ok(n) => r matches Ok(m) && m == n,
            Err(e) => r == Err::<u64, IntErrorKind>(e),
        },
{
    let chars = crate::path::chars_of(s);
    if chars.len() == 0 {
        return Err(IntErrorKind::Empty);
    }
    let mut i: usize = 0;
    if chars[0] == '+' {
        if chars.len() == 1 {
            return Err(IntErrorKind::InvalidDigit);
        }
        i = 1;
    }
    let mut acc: u64 = 0;
    while i < chars.len()
        invariant
            chars@ == s@,
            1 <= chars@.len(),
            i <= chars@.len(),
            parse_u64(s@) == read_digits(s@, i as int, acc as nat),
        decreases chars@.len() - i,
    {
        let c = chars[i];
        if c < '0' || c > '9' {
            return Err(IntErrorKind::InvalidDigit);
        }
        let d: u64 = (c as u32 - '0' as u32) as u64;
        if acc > (u64::MAX - d) / 10 {
            proof {
                assert(acc * 10 + d > u64::MAX) by (nonlinear_arith)
                    requires
                        acc > (u64::MAX - d) / 10,
                        d <= 9,
                ;
            }
            return Err(IntErrorKind::PosOverflow);
        }
        proof {
            assert(acc * 10 + d <= u64::MAX) by (nonlinear_arith)
                requires
                    acc <= (u64::MAX - d) / 10,
                    d <= 9,
            ;
        }
        acc = acc * 10 + d;
        i = i + 1;
    }
    Ok(acc)
}

/// The number of seconds a duration unit stands for: a day, a month of thirty days, a
/// year of 365 days.
pub open spec fn unit_seconds(c: char) -> Option<nat> {
    if c == 'd' {
        Some(86400)
    } else if c == 'm' {
        Some(2592000)
    } else if c == 'y' {
        Some(31536000)
    } else {
        None
    }
}

/// What parsing a duration such as `30d` gives: the number of seconds, or the message
/// for the user.
pub open spec fn duration_secs(s: Seq<char>) -> Result<nat, Seq<char>> {
    if s.len() == 0 || unit_seconds(s.last()) is None {
        Err("Invalid duration: «"@ + s + "» should end with d, m or y."@)
    } else {
        let integer_part = s.drop_last();
        match parse_u64(integer_part) {
            Ok(n) => Ok(n * unit_seconds(s.last()).unwrap()),
            Err(e) => Err("Invalid duration: «"@ + integer_part + "» is not an integer: "@ + int_error_text(e)),
        }
    }
}

/// Whether the number of seconds of a duration fits in 64 bits (the parse of one that
/// does not overflows).
pub open spec fn duration_fits(s: Seq<char>) -> bool {
    duration_secs(s) matches Ok(n) ==> n <= u64::MAX
}

/// Parse a duration such as `30d` into seconds (see `duration_secs`).
pub fn parse_duration_secs(s: &str) -> (r: Result<u64, String>)
    requires
        duration_fits(s@),
    ensures
        match duration_secs(s@) {
            Ok(n) => r matches Ok(m) && m == n,
            Err(msg) => r matches Err(t) && t@ == msg,
        },
{
    proof {
        reveal_strlit("Invalid duration: «");
        reveal_strlit("» should end with d, m or y.");
        reveal_strlit("» is not an integer: ");
        reveal_strlit("cannot parse integer from empty string");
        reveal_strlit("invalid digit found in string");
        reveal_strlit("number too large to fit in target type");
    }
    let n = s.unicode_len();
    let multiplier: u64 = if n == 0 {
        0
    } else {
        let c = s.get_char(n - 1);
        if c == 'd' {
            86400
        } else if c == 'm' {
            2592000
        } else if c == 'y' {
            31536000
        } else {
            0
        }
    };
    if multiplier == 0 {
        let mut m = String::from_str("Invalid duration: «");
        m.append(s);
        m.append("» should end with d, m or y.");
        return Err(m);
    }
    let integer_part = s.substring_char(0, n - 1);
    proof {
        assert(integer_part@ =~= s@.drop_last());
    }
    match parse_u64_exec(integer_part) {
        Ok(k) => {
            proof {
                assert(k * multiplier <= u64::MAX);
            }
            Ok(k * multiplier)
        },
        Err(e) => {
            let mut m = String::from_str("Invalid duration: «");
            m.append(integer_part);
            m.append("» is not an integer: ");
            let t = match e {
                IntErrorKind::Empty => "cannot parse integer from empty string",
                IntErrorKind::InvalidDigit => "invalid digit found in string",
                IntErrorKind::PosOverflow => "number too large to fit in target type",
            };
            m.append(t);
            Err(m)
        },
    }
}

/// Whether `duration_fits` holds of `s`: a duration that does not fit in 64 bits of seconds
/// is not parsed.
pub fn duration_fits_exec(s: &str) -> (r: bool)
    ensures
        r == duration_fits(s@),
{
    let n = s.unicode_len();
    if n == 0 {
        return true;
    }
    let c = s.get_char(n - 1);
    let multiplier: u64 = if c == 'd' {
        86400
    } else if c == 'm' {
        2592000
    } else if c == 'y' {
        31536000
    } else {
        return true;
    };
    let integer_part = s.substring_char(0, n - 1);
    proof {
        assert(integer_part@ =~= s@.drop_last());
    }
    match parse_u64_exec(integer_part) {
        Ok(k) => k <= u64::MAX / multiplier,
        Err(_) => true,
    }
}

/// The duration of `secs` seconds, as `Duration::from_secs` makes it.
pub uninterp spec fn duration_of_secs(secs: u64) -> Duration;

/// Calls `Duration::from_secs`. Claimed: the result is the duration of `secs` whole seconds
/// (the name `duration_of_secs`); the function does not panic.
#[verifier::external_body]
fn duration_from_secs(secs: u64) -> (r: Duration)
    ensures
        r == duration_of_secs(secs),
{
    Duration::from_secs(secs)
}

/// Parses a duration from a timestamp like 30d, 2m.
pub fn human_friendly_duration(s: &str) -> (r: Result<Duration, String>)
    requires
        duration_fits(s@),
    ensures
        match duration_secs(s@) {
            Ok(n) => r matches Ok(d) && d == duration_of_secs(n as u64),
            Err(msg) => r matches Err(t) && t@ == msg,
        },
{
    match parse_duration_secs(s) {
        Ok(n) => Ok(duration_from_secs(n)),
        Err(m) => Err(m),
    }
}

} // verus!

//! The crash report printed when lorri panics: what happened, and a link that opens an
//! issue with the report filled in.

use crate::text::{decimal, decimal_string};
use vstd::prelude::*;
use vstd::utf8::encode_utf8;

verus! {

/// How a panic is reported.
#[derive(Debug, Clone, Copy, PartialEq, Eq, Structural)]
pub enum PanicStyle {
    /// The usual output of a Rust panic
    Debug,
    /// A crash report meant for users
    Human,
}

/// The usual panic output is kept for debug builds and whenever `RUST_BACKTRACE`,
/// `LORRI_NO_INSTALL_PANIC_HANDLER` or `LORRI_DEBUG_PANIC` is set; otherwise users get a
/// crash report.
pub fn panic_style(debug_build: bool, rust_backtrace_set: bool, no_handler_set: bool, debug_panic_set: bool) -> (r:
    PanicStyle)
    ensures
        r == (if debug_build || rust_backtrace_set || no_handler_set || debug_panic_set {
            PanicStyle::Debug
        } else {
            PanicStyle::Human
        }),
{
    if debug_build || rust_backtrace_set || no_handler_set || debug_panic_set {
        PanicStyle::Debug
    } else {
        PanicStyle::Human
    }
}

/// The bytes that percent-encoding leaves as they are: ASCII letters and digits, and
/// `-`, `.`, `_`, `~`.
pub open spec fn url_safe(b: u8) -> bool {
    (0x30 <= b <= 0x39) || (0x41 <= b <= 0x5a) || (0x61 <= b <= 0x7a) || b == 0x2d || b == 0x2e || b == 0x5f
        || b == 0x7e
}

/// An upper-case hexadecimal digit.
pub open spec fn upper_hex_char(d: nat) -> char {
    if d < 10 {
        (('0' as nat) + d) as char
    } else {
        (('A' as nat) + (d - 10)) as char
    }
}

/// Percent-encoding of bytes: safe bytes stay, every other byte becomes `%` and its two
/// upper-case hexadecimal digits.
pub open spec fn percent_encoded(bytes: Seq<u8>) -> Seq<char>
    decreases bytes.len(),
{
    if bytes.len() == 0 {
        Seq::empty()
    } else {
        let b = bytes.last();
        let tail: Seq<char> = if url_safe(b) {
            seq![b as char]
        } else {
            seq!['%', upper_hex_char(b as nat / 16), upper_hex_char(b as nat % 16)]
        };
        percent_encoded(bytes.drop_last()) + tail
    }
}

/// Calls `urlencoding::encode`, whose documentation says that it percent-encodes every byte
/// of the UTF-8 text except alphanumerics and `-`, `_`, `.`, `~` (the source writes the
/// hexadecimal digits in upper case). Claimed: the result is `percent_encoded` of the
/// text's UTF-8 bytes.
#[verifier::external_body]
fn url_encode(s: &str) -> (r: String)
    ensures
        r@ == percent_encoded(encode_utf8(s@)),
{
    urlencoding::encode(s).into_owned()
}

/// The first line of a text, as `str::lines` gives it: `None` for an empty text; otherwise
/// the text up to the first line feed, without a carriage return before it.
pub open spec fn first_line(s: Seq<char>) -> Option<Seq<char>> {
    if s.len() == 0 {
        None
    } else {
        let end = first_newline(s, 0);
        let line = s.subrange(0, end);
        if end < s.len() && line.len() > 0 && line.last() == '\r' {
            Some(line.drop_last())
        } else {
            Some(line)
        }
    }
}

/// The position of the first line feed at or after `i`, or the length of the text.
pub open spec fn first_newline(s: Seq<char>, i: int) -> int
    decreases s.len() - i,
{
    if i < 0 || i >= s.len() {
        s.len() as int
    } else if s[i] == '\n' {
        i
    } else {
        first_newline(s, i + 1)
    }
}

proof fn lemma_first_newline_bounds(s: Seq<char>, i: int)
    requires
        0 <= i <= s.len(),
    ensures
        i <= first_newline(s, i) <= s.len(),
    decreases s.len() - i,
{
    if i < s.len() && s[i] != '\n' {
        lemma_first_newline_bounds(s, i + 1);
    }
}

/// Where a panic happened: the source file and the line.
pub struct PanicLocation {
    /// The source file
    pub file: String,
    /// The line in it
    pub line: u32,
}

/// What is known of a panic, and of the program and machine it happened on.
pub struct CrashInfo {
    /// The panic message, when it is text
    pub message: Option<String>,
    /// Where the panic happened, when known
    pub location: Option<PanicLocation>,
    /// The operating system, described
    pub operating_system: String,
    /// The version of lorri
    pub crate_version: String,
    /// The rendered backtrace
    pub backtrace: String,
}

/// The cause of the crash: the panic message, or `Unknown`.
pub open spec fn cause_text(info: CrashInfo) -> Seq<char> {
    match info.message {
        Some(m) => m@,
        None => "Unknown"@,
    }
}

/// The explanation of where the panic happened.
pub open spec fn explanation_text(info: CrashInfo) -> Seq<char> {
    match info.location {
        Some(l) => "Panic occurred in file '"@ + l.file@ + "' at line "@ + decimal(l.line as nat) + "\n"@,
        None => "Panic location unknown.\n"@,
    }
}

/// The title of the issue: the place of the panic and the first line of its cause.
pub open spec fn title_text(info: CrashInfo) -> Seq<char> {
    let pos: Seq<char> = match info.location {
        Some(l) => "'"@ + l.file@ + "', line "@ + decimal(l.line as nat) + "\n: "@,
        None => Seq::empty(),
    };
    let first: Seq<char> = match first_line(cause_text(info)) {
        Some(f) => f,
        None => Seq::empty(),
    };
    "Crash: "@ + pos + first
}

/// The body of the issue: the machine, the version, the explanation, the cause and the
/// backtrace.
pub open spec fn body_text(info: CrashInfo) -> Seq<char> {
    "# Crash Report\n\n<!-- Describe here what you did that lead to the crash -->\n## Crash Info\n\n* OS: "@
        + info.operating_system@ + "\n* Lorri Version: "@ + info.crate_version@ + "\n\n"@ + explanation_text(info)
        + "\nCause: "@ + cause_text(info) + "\n\nBacktrace:\n```\n"@ + info.backtrace@ + "\n```\n"@
}

/// Where new issues are opened.
pub open spec fn new_issue_url() -> Seq<char> {
    "https://github.com/nix-community/lorri/issues/new?title="@
}

/// The link that opens an issue with the title and body filled in.
pub open spec fn issue_url_text(info: CrashInfo) -> Seq<char> {
    new_issue_url() + percent_encoded(encode_utf8(title_text(info))) + "&body="@ + percent_encoded(
        encode_utf8(body_text(info)),
    )
}

/// What every crash report says.
pub open spec fn common_text() -> Seq<char> {
    "lorri had a problem and crashed. To help us diagnose the problem you can send us a crash report.\n\nWe take privacy seriously, and do not perform any automated error collection. In order to improve the software, we rely on people to submit reports.\n"@
}

/// The longest link offered to click on, in bytes.
pub const MAX_URL_BYTES: usize = 2000;

/// The crash report: with a link to click on when the link is at most `MAX_URL_BYTES`
/// bytes long; otherwise with the body printed and a link that only has the title.
pub open spec fn crash_report_text(info: CrashInfo) -> Seq<char> {
    let url = issue_url_text(info);
    let full: Seq<char> = if encode_utf8(url).len() <= MAX_URL_BYTES {
        common_text() + "\nYou can submit a report to github by clicking on the following URL:\n\n"@ + url + "\n"@
    } else {
        body_text(info) + "\n"@ + common_text()
            + "\nYou can submit a report to github but going to the following URL and pasting the error message before this text:\n"@
            + new_issue_url() + percent_encoded(encode_utf8(title_text(info))) + "\n"@
    };
    full + "\nThank you kindly!\n\n"@
}

/// The first line of a text (see `first_line`).
fn first_line_of(s: &str) -> (r: Option<String>)
    ensures
        match first_line(s@) {
            Some(l) => r matches Some(t) && t@ == l,
            None => r is None,
        },
{
    let n = s.unicode_len();
    if n == 0 {
        return None;
    }
    let mut i: usize = 0;
    while i < n && s.get_char(i) != '\n'
        invariant
            n == s@.len(),
            i <= n,
            first_newline(s@, 0) == first_newline(s@, i as int),
        decreases n - i,
    {
        i = i + 1;
    }
    proof {
        lemma_first_newline_bounds(s@, 0);
    }
    if i < n && i > 0 && s.get_char(i - 1) == '\r' {
        let t = s.substring_char(0, i - 1);
        proof {
            assert(t@ =~= s@.subrange(0, i as int).drop_last());
        }
        Some(t.to_string())
    } else {
        let t = s.substring_char(0, i);
        Some(t.to_string())
    }
}

impl CrashInfo {
    fn explanation(&self) -> (r: String)
        ensures
            r@ == explanation_text(*self),
    {
        proof {
            reveal_strlit("Panic occurred in file '");
            reveal_strlit("' at line ");
            reveal_strlit("\n");
            reveal_strlit("Panic location unknown.\n");
        }
        match &self.location {
            Some(l) => {
                let mut s = String::from_str("Panic occurred in file '");
                s.append(l.file.as_str());
                s.append("' at line ");
                let n = decimal_string(l.line as u128);
                s.append(n.as_str());
                s.append("\n");
                s
            },
            None => String::from_str("Panic location unknown.\n"),
        }
    }

    fn cause(&self) -> (r: String)
        ensures
            r@ == cause_text(*self),
    {
        proof {
            reveal_strlit("Unknown");
        }
        match &self.message {
            Some(m) => m.clone(),
            None => String::from_str("Unknown"),
        }
    }

    /// The title of the issue (see `title_text`).
    pub fn title(&self) -> (r: String)
        ensures
            r@ == title_text(*self),
    {
        proof {
            reveal_strlit("Crash: ");
            reveal_strlit("'");
            reveal_strlit("', line ");
            reveal_strlit("\n: ");
        }
        let mut s = String::from_str("Crash: ");
        match &self.location {
            Some(l) => {
                s.append("'");
                s.append(l.file.as_str());
                s.append("', line ");
                let n = decimal_string(l.line as u128);
                s.append(n.as_str());
                s.append("\n: ");
            },
            None => {},
        }
        let cause = self.cause();
        match first_line_of(cause.as_str()) {
            Some(f) => s.append(f.as_str()),
            None => {},
        }
        proof {
            assert(s@ =~= title_text(*self));
        }
        s
    }

    /// The body of the issue (see `body_text`).
    pub fn body(&self) -> (r: String)
        ensures
            r@ == body_text(*self),
    {
        proof {
            reveal_strlit("# Crash Report\n\n<!-- Describe here what you did that lead to the crash -->\n## Crash Info\n\n* OS: ");
            reveal_strlit("\n* Lorri Version: ");
            reveal_strlit("\n\n");
            reveal_strlit("\nCause: ");
            reveal_strlit("\n\nBacktrace:\n```\n");
            reveal_strlit("\n```\n");
        }
        let mut s = String::from_str(
            "# Crash Report\n\n<!-- Describe here what you did that lead to the crash -->\n## Crash Info\n\n* OS: ",
        );
        s.append(self.operating_system.as_str());
        s.append("\n* Lorri Version: ");
        s.append(self.crate_version.as_str());
        s.append("\n\n");
        let e = self.explanation();
        s.append(e.as_str());
        s.append("\nCause: ");
        let c = self.cause();
        s.append(c.as_str());
        s.append("\n\nBacktrace:\n```\n");
        s.append(self.backtrace.as_str());
        s.append("\n```\n");
        s
    }

    /// The link that opens a filled-in issue (see `issue_url_text`).
    pub fn issue_url(&self) -> (r: String)
        ensures
            r@ == issue_url_text(*self),
    {
        proof {
            reveal_strlit("https://github.com/nix-community/lorri/issues/new?title=");
            reveal_strlit("&body=");
        }
        let mut s = String::from_str("https://github.com/nix-community/lorri/issues/new?title=");
        let title = self.title();
        let t = url_encode(title.as_str());
        s.append(t.as_str());
        s.append("&body=");
        let body = self.body();
        let b = url_encode(body.as_str());
        s.append(b.as_str());
        s
    }

    /// The crash report printed to the user (see `crash_report_text`).
    pub fn crash_report(&self) -> (r: String)
        ensures
            r@ == crash_report_text(*self),
    {
        proof {
            reveal_strlit("lorri had a problem and crashed. To help us diagnose the problem you can send us a crash report.\n\nWe take privacy seriously, and do not perform any automated error collection. In order to improve the software, we rely on people to submit reports.\n");
            reveal_strlit("\nYou can submit a report to github by clicking on the following URL:\n\n");
            reveal_strlit("\n");
            reveal_strlit("\nYou can submit a report to github but going to the following URL and pasting the error message before this text:\n");
            reveal_strlit("https://github.com/nix-community/lorri/issues/new?title=");
            reveal_strlit("\nThank you kindly!\n\n");
        }
        let common = "lorri had a problem and crashed. To help us diagnose the problem you can send us a crash report.\n\nWe take privacy seriously, and do not perform any automated error collection. In order to improve the software, we rely on people to submit reports.\n";
        let url = self.issue_url();
        let short = url.as_str().as_bytes().len() <= MAX_URL_BYTES;
        let mut s = if short {
            let mut s = String::from_str(common);
            s.append("\nYou can submit a report to github by clicking on the following URL:\n\n");
            s.append(url.as_str());
            s.append("\n");
            assert(s@ =~= common_text() + "\nYou can submit a report to github by clicking on the following URL:\n\n"@ + issue_url_text(*self) + "\n"@);
            s
        } else {
            let mut s = self.body();
            s.append("\n");
            s.append(common);
            s.append(
                "\nYou can submit a report to github but going to the following URL and pasting the error message before this text:\n",
            );
            s.append("https://github.com/nix-community/lorri/issues/new?title=");
            let title = self.title();
            let t = url_encode(title.as_str());
            s.append(t.as_str());
            s.append("\n");
            assert(s@ =~= body_text(*self) + "\n"@ + common_text()
                + "\nYou can submit a report to github but going to the following URL and pasting the error message before this text:\n"@
                + new_issue_url() + percent_encoded(encode_utf8(title_text(*self))) + "\n"@);
            s
        };
        s.append("\nThank you kindly!\n\n");
        s
    }
}

} // verus!

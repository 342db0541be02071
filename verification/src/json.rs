//! The JSON text of the events that `lorri stream-events` prints, one compact JSON object per
//! line: keys in sorted order, no spaces, strings escaped as JSON requires.

use crate::build_loop::{Event, EventI, EventView, ReasonI, ReasonView};
use crate::builder::{BuildErrorView, build_error_text};
use crate::path::chars_of;
use crate::text::{digit_str, hex_char};
use vstd::prelude::*;

verus! {

/// How a character is written inside a JSON string: quotes and backslashes are escaped, the
/// control characters with a short escape get it, the other control characters are written
/// as `\u00XX` with lower-case hex digits, and every other character stands as it is.
pub open spec fn json_escape_char(c: char) -> Seq<char> {
    if c == '"' {
        "\\\""@
    } else if c == '\\' {
        "\\\\"@
    } else if c == '\u{8}' {
        "\\b"@
    } else if c == '\u{c}' {
        "\\f"@
    } else if c == '\n' {
        "\\n"@
    } else if c == '\r' {
        "\\r"@
    } else if c == '\t' {
        "\\t"@
    } else if (c as u32) < 0x20 {
        "\\u00"@ + seq![hex_char((c as u32 / 16) as nat), hex_char((c as u32 % 16) as nat)]
    } else {
        seq![c]
    }
}

/// The characters of `s`, each written as inside a JSON string.
pub open spec fn json_escaped(s: Seq<char>) -> Seq<char>
    decreases s.len(),
{
    if s.len() == 0 {
        Seq::empty()
    } else {
        json_escaped(s.drop_last()) + json_escape_char(s.last())
    }
}

/// `s` as a JSON string.
pub open spec fn json_string(s: Seq<char>) -> Seq<char> {
    "\""@ + json_escaped(s) + "\""@
}

/// The JSON strings of `v`, separated by commas.
pub open spec fn json_string_items(v: Seq<Seq<char>>) -> Seq<char>
    decreases v.len(),
{
    if v.len() == 0 {
        Seq::empty()
    } else if v.len() == 1 {
        json_string(v[0])
    } else {
        json_string_items(v.drop_last()) + ","@ + json_string(v.last())
    }
}

/// The JSON value of the reason a build started.
pub open spec fn reason_json(r: ReasonView<Seq<char>>) -> Seq<char> {
    match r {
        ReasonView::PingReceived => "{\"PingReceived\":{}}"@,
        ReasonView::ProjectAdded(p) => "{\"ProjectAdded\":"@ + json_string(p) + "}"@,
        ReasonView::FilesChanged(v) => "{\"FilesChanged\":["@ + json_string_items(v) + "]}"@,
    }
}

/// The JSON object of an event: its kind as the only key, and under it the nix file and what
/// the kind carries (the reason of a start, the shell gc root of a completed build, the
/// message of a failure).
pub open spec fn event_json_text(e: EventView) -> Seq<char> {
    match e {
        EventI::SectionEnd => "{\"SectionEnd\":{}}"@,
        EventI::Started { nix_file, reason } => "{\"Started\":{\"nix_file\":"@ + json_string(nix_file) + ",\"reason\":"@
            + reason_json(reason) + "}}"@,
        EventI::Completed { nix_file, rooted_output_paths } => "{\"Completed\":{\"nix_file\":"@ + json_string(nix_file)
            + ",\"rooted_output_paths\":{\"shell_gc_root\":"@ + json_string(rooted_output_paths.shell_gc_root) + "}}}"@,
        EventI::Failure { nix_file, failure } => "{\"Failure\":{\"failure\":{\"message\":"@ + json_string(
            build_error_text(failure),
        ) + "},\"nix_file\":"@ + json_string(nix_file) + "}}"@,
    }
}

/// `s` as a JSON string (see `json_string`).
pub fn json_string_of(s: &str) -> (r: String)
    ensures
        r@ == json_string(s@),
{
    proof {
        reveal_strlit("\"");
        reveal_strlit("\\\"");
        reveal_strlit("\\\\");
        reveal_strlit("\\b");
        reveal_strlit("\\f");
        reveal_strlit("\\n");
        reveal_strlit("\\r");
        reveal_strlit("\\t");
        reveal_strlit("\\u00");
    }
    let chars = chars_of(s);
    let mut r = String::from_str("\"");
    let mut i: usize = 0;
    while i < chars.len()
        invariant
            chars@ == s@,
            i <= chars@.len(),
            r@ == "\""@ + json_escaped(s@.subrange(0, i as int)),
        decreases chars@.len() - i,
    {
        let c = chars[i];
        let ghost before = r@;
        if c == '"' {
            r.append("\\\"");
        } else if c == '\\' {
            r.append("\\\\");
        } else if c == '\u{8}' {
            r.append("\\b");
        } else if c == '\u{c}' {
            r.append("\\f");
        } else if c == '\n' {
            r.append("\\n");
        } else if c == '\r' {
            r.append("\\r");
        } else if c == '\t' {
            r.append("\\t");
        } else if (c as u32) < 0x20 {
            r.append("\\u00");
            r.append(digit_str((c as u32 / 16) as u8));
            r.append(digit_str((c as u32 % 16) as u8));
        } else {
            r.append(s.substring_char(i, i + 1));
        }
        proof {
            let t = s@.subrange(0, i + 1);
            assert(t.drop_last() =~= s@.subrange(0, i as int));
            assert(t.last() == c);
            assert(r@ =~= before + json_escape_char(c));
        }
        i = i + 1;
    }
    r.append("\"");
    proof {
        assert(s@.subrange(0, s@.len() as int) =~= s@);
    }
    r
}

/// The JSON strings of `v`, separated by commas (see `json_string_items`).
fn json_string_items_of(v: &Vec<String>) -> (r: String)
    ensures
        r@ == json_string_items(v@.map_values(|s: String| s@)),
{
    proof {
        reveal_strlit(",");
    }
    let ghost all = v@.map_values(|s: String| s@);
    let mut r = String::new();
    let mut i: usize = 0;
    while i < v.len()
        invariant
            i <= v@.len(),
            all == v@.map_values(|s: String| s@),
            r@ == json_string_items(all.take(i as int)),
        decreases v@.len() - i,
    {
        let item = json_string_of(v[i].as_str());
        proof {
            assert(all.take(i + 1).drop_last() =~= all.take(i as int));
            assert(all.take(i + 1).last() == v@[i as int]@);
            if i == 0 {
                assert(all.take(1)[0] == v@[0]@);
            }
        }
        if i > 0 {
            r.append(",");
        }
        r.append(item.as_str());
        i = i + 1;
    }
    proof {
        assert(all.take(v@.len() as int) =~= all);
    }
    r
}

/// The JSON line `lorri stream-events` prints for an event: its JSON object (see
/// `event_json_text`) and a newline.
pub fn event_json_line(e: &Event) -> (r: String)
    ensures
        r@ == event_json_text(e@) + "\n"@,
{
    proof {
        reveal_strlit("{\"SectionEnd\":{}}");
        reveal_strlit("{\"Started\":{\"nix_file\":");
        reveal_strlit(",\"reason\":");
        reveal_strlit("}}");
        reveal_strlit("{\"PingReceived\":{}}");
        reveal_strlit("{\"ProjectAdded\":");
        reveal_strlit("}");
        reveal_strlit("{\"FilesChanged\":[");
        reveal_strlit("]}");
        reveal_strlit("{\"Completed\":{\"nix_file\":");
        reveal_strlit(",\"rooted_output_paths\":{\"shell_gc_root\":");
        reveal_strlit("}}}");
        reveal_strlit("{\"Failure\":{\"failure\":{\"message\":");
        reveal_strlit("},\"nix_file\":");
        reveal_strlit("\n");
    }
    let mut r = String::new();
    match e {
        EventI::SectionEnd => {
            r.append("{\"SectionEnd\":{}}");
        },
        EventI::Started { nix_file, reason } => {
            r.append("{\"Started\":{\"nix_file\":");
            r.append(json_string_of(nix_file.display()).as_str());
            r.append(",\"reason\":");
            match reason {
                ReasonI::PingReceived => {
                    r.append("{\"PingReceived\":{}}");
                },
                ReasonI::ProjectAdded(p) => {
                    r.append("{\"ProjectAdded\":");
                    r.append(json_string_of(p.display()).as_str());
                    r.append("}");
                },
                ReasonI::FilesChanged(v) => {
                    r.append("{\"FilesChanged\":[");
                    r.append(json_string_items_of(v).as_str());
                    r.append("]}");
                },
            }
            r.append("}}");
        },
        EventI::Completed { nix_file, rooted_output_paths } => {
            r.append("{\"Completed\":{\"nix_file\":");
            r.append(json_string_of(nix_file.display()).as_str());
            r.append(",\"rooted_output_paths\":{\"shell_gc_root\":");
            r.append(json_string_of(rooted_output_paths.shell_gc_root.display()).as_str());
            r.append("}}}");
        },
        EventI::Failure { nix_file, failure } => {
            r.append("{\"Failure\":{\"failure\":{\"message\":");
            r.append(json_string_of(failure.to_display_string().as_str()).as_str());
            r.append("},\"nix_file\":");
            r.append(json_string_of(nix_file.display()).as_str());
            r.append("}}");
        },
    }
    r.append("\n");
    proof {
        assert(r@ =~= event_json_text(e@) + "\n"@);
    }
    r
}

/// Writing a text escaped can be read from its first character on: the first character's
/// escape, then the rest escaped.
proof fn lemma_escaped_front(s: Seq<char>)
    requires
        s.len() > 0,
    ensures
        json_escaped(s) == json_escape_char(s[0]) + json_escaped(s.drop_first()),
    decreases s.len(),
{
    if s.len() == 1 {
        assert(s.drop_last() =~= Seq::<char>::empty());
        assert(s.drop_first() =~= Seq::<char>::empty());
        assert(json_escaped(s.drop_first()) == Seq::<char>::empty());
        assert(json_escaped(s.drop_last()) == Seq::<char>::empty());
        assert(json_escaped(s) =~= json_escape_char(s[0]));
    } else {
        lemma_escaped_front(s.drop_last());
        assert(s.drop_last()[0] == s[0]);
        assert(s.drop_first().drop_last() =~= s.drop_last().drop_first());
        assert(s.drop_first().last() == s.last());
        assert(json_escaped(s) =~= json_escape_char(s[0]) + json_escaped(s.drop_first()));
    }
}

/// Two hexadecimal digits are the same only for the same value.
proof fn lemma_hex_char_injective(a: nat, b: nat)
    requires
        a < 16,
        b < 16,
        hex_char(a) == hex_char(b),
    ensures
        a == b,
{
    assert((hex_char(a) as u32) == (hex_char(b) as u32));
}

/// No escape is the start of another: when two texts both start with an escape, and agree,
/// the escaped characters are the same.
proof fn lemma_escape_prefix_free(a: char, b: char, x: Seq<char>, y: Seq<char>)
    requires
        json_escape_char(a) + x == json_escape_char(b) + y,
    ensures
        a == b,
{
    reveal_strlit("\\\"");
    reveal_strlit("\\\\");
    reveal_strlit("\\b");
    reveal_strlit("\\f");
    reveal_strlit("\\n");
    reveal_strlit("\\r");
    reveal_strlit("\\t");
    reveal_strlit("\\u00");
    let ea = json_escape_char(a);
    let eb = json_escape_char(b);
    let s = ea + x;
    assert(ea.len() >= 1 && eb.len() >= 1);
    assert(s[0] == ea[0] && s[0] == eb[0]);
    if ea.len() == 1 || eb.len() == 1 {
        if ea.len() == 1 && eb.len() == 1 {
            assert(ea[0] == a && eb[0] == b);
        } else if ea.len() == 1 {
            assert(ea[0] == a && a != '\\');
            assert(eb[0] == '\\');
        } else {
            assert(eb[0] == b && b != '\\');
            assert(ea[0] == '\\');
        }
    } else {
        assert(s[1] == ea[1] && s[1] == eb[1]);
        if ea[1] == 'u' {
            assert(eb[1] == 'u');
            assert(ea.len() == 6 && eb.len() == 6);
            assert(s[4] == ea[4] && s[4] == eb[4]);
            assert(s[5] == ea[5] && s[5] == eb[5]);
            let ca = a as u32;
            let cb = b as u32;
            lemma_hex_char_injective((ca / 16) as nat, (cb / 16) as nat);
            lemma_hex_char_injective((ca % 16) as nat, (cb % 16) as nat);
            assert(ca == cb);
        }
    }
}

/// Different texts are escaped differently.
proof fn lemma_escaped_injective(s: Seq<char>, t: Seq<char>)
    requires
        json_escaped(s) == json_escaped(t),
    ensures
        s == t,
    decreases s.len() + t.len(),
{
    if s.len() == 0 && t.len() == 0 {
        assert(s =~= t);
    } else if s.len() == 0 {
        lemma_escaped_front(t);
        assert(json_escaped(t).len() >= json_escape_char(t[0]).len());
        assert(json_escape_char(t[0]).len() >= 1) by {
            reveal_strlit("\\\"");
            reveal_strlit("\\\\");
            reveal_strlit("\\b");
            reveal_strlit("\\f");
            reveal_strlit("\\n");
            reveal_strlit("\\r");
            reveal_strlit("\\t");
            reveal_strlit("\\u00");
        }
    } else if t.len() == 0 {
        lemma_escaped_front(s);
        assert(json_escape_char(s[0]).len() >= 1) by {
            reveal_strlit("\\\"");
            reveal_strlit("\\\\");
            reveal_strlit("\\b");
            reveal_strlit("\\f");
            reveal_strlit("\\n");
            reveal_strlit("\\r");
            reveal_strlit("\\t");
            reveal_strlit("\\u00");
        }
    } else {
        lemma_escaped_front(s);
        lemma_escaped_front(t);
        let es = json_escape_char(s[0]);
        lemma_escape_prefix_free(s[0], t[0], json_escaped(s.drop_first()), json_escaped(t.drop_first()));
        let whole = json_escaped(s);
        assert(json_escaped(s.drop_first()) =~= whole.subrange(es.len() as int, whole.len() as int));
        assert(json_escaped(t.drop_first()) =~= whole.subrange(es.len() as int, whole.len() as int));
        lemma_escaped_injective(s.drop_first(), t.drop_first());
        assert(s =~= seq![s[0]] + s.drop_first());
        assert(t =~= seq![t[0]] + t.drop_first());
    }
}

/// Different texts give different JSON strings: the text can be read back.
pub proof fn lemma_json_string_injective(s: Seq<char>, t: Seq<char>)
    requires
        json_string(s) == json_string(t),
    ensures
        s == t,
{
    reveal_strlit("\"");
    let js = json_string(s);
    assert(json_escaped(s) =~= js.subrange(1, js.len() - 1));
    assert(json_escaped(t) =~= js.subrange(1, js.len() - 1));
    lemma_escaped_injective(s, t);
}

/// The failure message of the line of a `Failure` event is the build error as it is shown to
/// the user (`BuildError::to_display_string`): the line starts with that text as a JSON
/// string, so two failures of a project that are shown differently give different lines. For
/// an error in the output of Nix, the message is the error's own message.
pub proof fn lemma_failure_line_carries_message(nix_file: Seq<char>, f: BuildErrorView, g: BuildErrorView)
    ensures
        ({
            let p = "{\"Failure\":{\"failure\":{\"message\":"@;
            let line = event_json_text(EventI::Failure { nix_file, failure: f });
            line.subrange(0, (p.len() + json_string(build_error_text(f)).len()) as int) == p + json_string(build_error_text(f))
        }),
        f matches BuildErrorView::Output { msg } ==> ({
            let p = "{\"Failure\":{\"failure\":{\"message\":"@;
            let line = event_json_text(EventI::Failure { nix_file, failure: f });
            line.subrange(0, (p.len() + json_string(msg).len()) as int) == p + json_string(msg)
        }),
        event_json_text(EventI::Failure { nix_file, failure: f }) == event_json_text(EventI::Failure { nix_file, failure: g })
            ==> build_error_text(f) == build_error_text(g),
{
    let p = "{\"Failure\":{\"failure\":{\"message\":"@;
    let m = "},\"nix_file\":"@ + json_string(nix_file) + "}}"@;
    let jf = json_string(build_error_text(f));
    let jg = json_string(build_error_text(g));
    let lf = event_json_text(EventI::Failure { nix_file, failure: f });
    let lg = event_json_text(EventI::Failure { nix_file, failure: g });
    assert(lf =~= p + jf + m);
    assert(lg =~= p + jg + m);
    assert(lf.subrange(0, (p.len() + jf.len()) as int) =~= p + jf);
    if lf == lg {
        assert(jf.len() == jg.len());
        assert(jf =~= lf.subrange(p.len() as int, (p.len() + jf.len()) as int));
        assert(jg =~= lg.subrange(p.len() as int, (p.len() + jg.len()) as int));
        lemma_json_string_injective(build_error_text(f), build_error_text(g));
    }
}

} // verus!

use lorri::build_loop::{Event, EventI, ReasonI};
use lorri::builder::{BuildError, OutputPath};
use lorri::json::{event_json_line, json_string_of};
use lorri::path::{AbsPathBuf, NixFile};
use lorri::project::RootPath;

fn nix(p: &str) -> NixFile {
    NixFile(AbsPathBuf::new(p.to_string()).unwrap())
}

/// The line is one compact JSON value, as serde_json writes it, and a newline.
fn canonical(line: &str) -> bool {
    let body = line.strip_suffix('\n').unwrap();
    let value: serde_json::Value = serde_json::from_str(body).unwrap();
    serde_json::to_string(&value).unwrap() == body
}

#[test]
fn json_strings_escape_what_json_requires() {
    assert_eq!(json_string_of("a\"b\\c\nd\te\u{1}é"), "\"a\\\"b\\\\c\\nd\\te\\u0001é\"");
    let s = "q\"\\\u{8}\u{c}\n\r\t\u{1f}\u{7f}x";
    assert_eq!(json_string_of(s), serde_json::to_string(s).unwrap());
}

#[test]
fn event_lines() {
    let started: Event = EventI::Started {
        nix_file: nix("/p/shell.nix"),
        reason: ReasonI::FilesChanged(vec![String::from("/p/a.nix"), String::from("/p/b \"c\".nix")]),
    };
    let line = event_json_line(&started);
    assert_eq!(
        line,
        "{\"Started\":{\"nix_file\":\"/p/shell.nix\",\"reason\":{\"FilesChanged\":[\"/p/a.nix\",\"/p/b \\\"c\\\".nix\"]}}}\n"
    );
    assert!(canonical(&line));

    let ping: Event = EventI::Started { nix_file: nix("/p/shell.nix"), reason: ReasonI::PingReceived };
    let line = event_json_line(&ping);
    assert_eq!(line, "{\"Started\":{\"nix_file\":\"/p/shell.nix\",\"reason\":{\"PingReceived\":{}}}}\n");
    assert!(canonical(&line));

    let completed: Event = EventI::Completed {
        nix_file: nix("/p/shell.nix"),
        rooted_output_paths: OutputPath { shell_gc_root: RootPath(AbsPathBuf::new(String::from("/g/shell_gc_root")).unwrap()) },
    };
    let line = event_json_line(&completed);
    assert_eq!(
        line,
        "{\"Completed\":{\"nix_file\":\"/p/shell.nix\",\"rooted_output_paths\":{\"shell_gc_root\":\"/g/shell_gc_root\"}}}\n"
    );
    assert!(canonical(&line));

    let failure: Event = EventI::Failure { nix_file: nix("/p/shell.nix"), failure: BuildError::output(String::from("bad")) };
    let line = event_json_line(&failure);
    assert!(line.starts_with("{\"Failure\":{\"failure\":{\"message\":"));
    assert!(line.ends_with("},\"nix_file\":\"/p/shell.nix\"}}\n"));
    assert!(canonical(&line));

    let end: Event = EventI::SectionEnd;
    assert_eq!(event_json_line(&end), "{\"SectionEnd\":{}}\n");
}

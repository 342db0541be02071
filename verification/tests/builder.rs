use lorri::builder::{extract_paths, extract_paths_with, parse_evaluation_line, watch_path_of, BuildError, LogDatum, LogLine};
use lorri::watch::WatchPathBuf;

/// Parsing of `LogDatum`.
#[test]
fn evaluation_line_to_log_datum() {
    assert_eq!(
        parse_evaluation_line("evaluating file '/nix/store/zqxha3ax0w771jf25qdblakka83660gr-source/lib/systems/for-meta.nix'".as_bytes()),
        LogDatum::NixSourceFile(String::from("/nix/store/zqxha3ax0w771jf25qdblakka83660gr-source/lib/systems/for-meta.nix"))
    );

    assert_eq!(
        parse_evaluation_line("copied source '/nix/store/zqxha3ax0w771jf25qdblakka83660gr-source/pkgs/stdenv/generic/default-builder.sh' -> '/nix/store/9krlzvny65gdc8s7kpb6lkx8cd02c25b-default-builder.sh'".as_bytes()),
        LogDatum::CopiedSource(String::from("/nix/store/zqxha3ax0w771jf25qdblakka83660gr-source/pkgs/stdenv/generic/default-builder.sh"))
    );

    assert_eq!(
        parse_evaluation_line(
            "trace: lorri read: '/home/grahamc/projects/grahamc/lorri/nix/nixpkgs.json'".as_bytes()
        ),
        LogDatum::ReadRecursively(String::from(
            "/home/grahamc/projects/grahamc/lorri/nix/nixpkgs.json"
        ))
    );

    assert_eq!(
        parse_evaluation_line(
            "downloading 'https://static.rust-lang.org/dist/channel-rust-stable.toml'...".as_bytes()
        ),
        LogDatum::Text(String::from(
            "downloading 'https://static.rust-lang.org/dist/channel-rust-stable.toml'..."
        ))
    );
}

#[test]
fn non_utf8_line_is_kept_as_bytes() {
    let bytes = vec![0x66u8, 0xff, 0x6f];
    assert_eq!(parse_evaluation_line(&bytes), LogDatum::NonUtf(bytes.clone()));
}

#[test]
fn read_file_and_trace_lines() {
    assert_eq!(
        parse_evaluation_line("trace: lorri readdir: '/home/u/dir'".as_bytes()),
        LogDatum::ReadDir(String::from("/home/u/dir"))
    );
    assert_eq!(
        parse_evaluation_line("evaluating file '/a/b.nix".as_bytes()),
        LogDatum::Text(String::from("evaluating file '/a/b.nix"))
    );
}

#[test]
fn watch_paths_of_log_data() {
    assert_eq!(
        watch_path_of(&LogDatum::NixSourceFile(String::from("/p/default.nix")), false),
        Some(WatchPathBuf::Normal(String::from("/p/default.nix")))
    );
    assert_eq!(
        watch_path_of(&LogDatum::ReadRecursively(String::from("/p/src")), true),
        Some(WatchPathBuf::Recursive(String::from("/p/src")))
    );
    assert_eq!(
        watch_path_of(&LogDatum::NixSourceFile(String::from("/p")), true),
        Some(WatchPathBuf::Normal(String::from("/p/default.nix")))
    );
    assert_eq!(watch_path_of(&LogDatum::Text(String::from("x")), false), None);
    let paths = extract_paths(vec![
        LogDatum::Text(String::from("hello")),
        LogDatum::NixSourceFile(String::from("/p/shell.nix")),
        LogDatum::ReadDir(String::from("/p/dir")),
    ]);
    assert_eq!(
        paths,
        vec![
            WatchPathBuf::Normal(String::from("/p/shell.nix")),
            WatchPathBuf::Normal(String::from("/p/dir")),
        ]
    );
}

#[test]
fn build_error_display_and_actionability() {
    let io = BuildError::io(String::from("disk full"));
    assert!(!io.is_actionable());
    assert_eq!(io.to_display_string(), "I/O error: disk full");

    let spawn = BuildError::spawn(String::from("nix-build x"), String::from("not found"));
    assert!(spawn.is_actionable());
    assert_eq!(
        spawn.to_display_string(),
        "failed to spawn Nix process. Is Nix installed and on the $PATH?\n$ nix-build x\nnot found"
    );

    let exit = BuildError::exit(
        String::from("nix-build y"),
        Some(-3),
        vec![LogLine(b"line one".to_vec()), LogLine(b"two".to_vec())],
    );
    assert!(exit.is_actionable());
    assert_eq!(
        exit.to_display_string(),
        "Nix process returned exit code -3.\n$ nix-build y\nline one\ntwo\n"
    );

    let unknown = BuildError::exit(String::from("c"), None, vec![]);
    assert_eq!(unknown.to_display_string(), "Nix process returned exit code <unknown>.\n$ c\n");

    let output = BuildError::output(String::from("no output"));
    assert!(output.is_actionable());
    assert_eq!(output.to_display_string(), "no output");
}

#[test]
fn invalid_log_bytes_are_replaced() {
    let exit = BuildError::exit(String::from("c"), Some(1), vec![LogLine(vec![0x61, 0xff, 0x62])]);
    assert_eq!(exit.to_display_string(), "Nix process returned exit code 1.\n$ c\na\u{FFFD}b\n");
}

#[test]
fn paths_to_watch_follow_directory_answers() {
    let data = vec![
        LogDatum::NixSourceFile(String::from("/p/foo")),
        LogDatum::Text(String::from("hello")),
        LogDatum::ReadDir(String::from("/p/dir")),
        LogDatum::NixSourceFile(String::from("/p/shell.nix")),
        LogDatum::CopiedSource(String::from("/p/src")),
    ];
    assert_eq!(
        extract_paths_with(&data, &vec![true, false, false, false, false]),
        vec![
            WatchPathBuf::Normal(String::from("/p/foo/default.nix")),
            WatchPathBuf::Normal(String::from("/p/dir")),
            WatchPathBuf::Normal(String::from("/p/shell.nix")),
            WatchPathBuf::Recursive(String::from("/p/src")),
        ]
    );
}

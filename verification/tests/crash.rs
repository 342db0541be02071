use lorri::crash::{panic_style, CrashInfo, PanicLocation, PanicStyle};

fn info(message: Option<&str>, location: Option<(&str, u32)>, backtrace: &str) -> CrashInfo {
    CrashInfo {
        message: message.map(|m| m.to_string()),
        location: location.map(|(f, l)| PanicLocation { file: f.to_string(), line: l }),
        operating_system: String::from("Linux 6.1"),
        crate_version: String::from("1.7.0"),
        backtrace: backtrace.to_string(),
    }
}

#[test]
fn panic_style_follows_the_environment() {
    assert_eq!(panic_style(false, false, false, false), PanicStyle::Human);
    assert_eq!(panic_style(true, false, false, false), PanicStyle::Debug);
    assert_eq!(panic_style(false, true, false, false), PanicStyle::Debug);
    assert_eq!(panic_style(false, false, true, false), PanicStyle::Debug);
    assert_eq!(panic_style(false, false, false, true), PanicStyle::Debug);
}

#[test]
fn crash_title_and_body() {
    let i = info(Some("boom\r\nsecond line"), Some(("src/main.rs", 42)), "0: main");
    assert_eq!(i.title(), "Crash: 'src/main.rs', line 42\n: boom");
    assert_eq!(
        i.body(),
        "# Crash Report\n\n<!-- Describe here what you did that lead to the crash -->\n## Crash Info\n\n* OS: Linux 6.1\n* Lorri Version: 1.7.0\n\nPanic occurred in file 'src/main.rs' at line 42\n\nCause: boom\r\nsecond line\n\nBacktrace:\n```\n0: main\n```\n"
    );
    let unknown = info(None, None, "");
    assert_eq!(unknown.title(), "Crash: Unknown");
    assert!(unknown.body().contains("Panic location unknown.\n\nCause: Unknown\n"));
    let empty = info(Some(""), None, "");
    assert_eq!(empty.title(), "Crash: ");
}

#[test]
fn issue_url_is_percent_encoded() {
    let i = info(Some("a b/ü"), None, "");
    let url = i.issue_url();
    assert!(url.starts_with("https://github.com/nix-community/lorri/issues/new?title=Crash%3A%20a%20b%2F%C3%BC&body=%23%20Crash%20Report"));
}

#[test]
fn short_and_long_crash_reports() {
    let short = info(Some("boom"), None, "bt");
    let report = short.crash_report();
    assert!(report.starts_with("lorri had a problem and crashed."));
    assert!(report.contains("You can submit a report to github by clicking on the following URL:\n\nhttps://github.com/nix-community/lorri/issues/new?title=Crash%3A%20boom&body="));
    assert!(report.ends_with("\nThank you kindly!\n\n"));

    let long = info(Some("boom"), None, &"x".repeat(3000));
    let report = long.crash_report();
    assert!(report.starts_with("# Crash Report"));
    assert!(report.contains("pasting the error message before this text:\nhttps://github.com/nix-community/lorri/issues/new?title=Crash%3A%20boom\n\nThank you kindly!\n\n"));
}

//! The command line, crash reports and dates.

use tscode::calendar::civil_from_days;
use tscode::calendar::format_unix_timestamp_utc;
use tscode::cli::cli_action;
use tscode::cli::help_text;
use tscode::cli::version_text;
use tscode::cli::CliAction;
use tscode::cli::CliArg;
use tscode::cli::CliError;
use tscode::clipboard::osc52_clipboard_sequence;
use tscode::crash::crash_notice;
use tscode::crash::crash_report;
use tscode::crash::crash_report_entry;
use tscode::crash::crash_report_header;
use tscode::crash::crash_report_path;
use tscode::crash::panic_payload_message;
use tscode::crash::Crash;
use tscode::path::FsPath;
use tscode::path::PathPart;

fn relative(names: &[&str]) -> FsPath {
    FsPath {
        parts: names.iter().map(|name| PathPart::Normal(name.as_bytes().to_vec())).collect(),
    }
}

fn absolute(names: &[&str]) -> FsPath {
    let mut path = relative(names);
    path.parts.insert(0, PathPart::Anchor(b"/".to_vec()));
    path
}

fn arg(text: &str) -> CliArg {
    CliArg { text: text.to_owned(), path: relative(&[text]) }
}

#[test]
fn osc52_clipboard_sequence_encodes_text_as_base64() {
    assert_eq!(osc52_clipboard_sequence("hello"), "\x1b]52;c;aGVsbG8=\x07");
}

#[test]
fn cli_action_handles_help_version_and_paths_before_tui_start() {
    let current = || Some(absolute(&["w"]));
    assert_eq!(cli_action(&vec![arg("--help")], current()).unwrap(), CliAction::Help);
    assert_eq!(cli_action(&vec![arg("-V")], current()).unwrap(), CliAction::Version);
    assert_eq!(
        cli_action(&vec![arg("src")], current()).unwrap(),
        CliAction::Run(relative(&["src"]))
    );
    assert_eq!(
        cli_action(&vec![arg("--"), arg("-workspace")], current()).unwrap(),
        CliAction::Run(relative(&["-workspace"]))
    );
    assert!(cli_action(&vec![arg("--wat")], current()).is_err());
    assert!(help_text("0.1.0").contains("tscode --version"));
}

#[test]
fn without_arguments_the_current_directory_is_opened() {
    assert_eq!(
        cli_action(&Vec::new(), Some(absolute(&["w"]))).unwrap(),
        CliAction::Run(absolute(&["w"]))
    );
    let error = cli_action(&Vec::new(), None).unwrap_err();
    assert_eq!(error, CliError::NoCurrentDir);
    assert_eq!(error.message(), "current directory is not available");
    assert_eq!(
        cli_action(&vec![arg("--")], Some(absolute(&["w"]))).unwrap(),
        CliAction::Run(absolute(&["w"]))
    );
    assert_eq!(cli_action(&vec![arg("-h")], None).unwrap(), CliAction::Help);
    let error = cli_action(&vec![arg("--wat")], None).unwrap_err();
    assert_eq!(error.message(), "unknown option '--wat'; try 'tscode --help'");
    assert_eq!(version_text("0.1.0"), "tscode 0.1.0");
}

#[test]
fn crash_report_timestamp_formats_utc() {
    assert_eq!(format_unix_timestamp_utc(0), "1970-01-01T00:00:00Z");
    assert_eq!(format_unix_timestamp_utc(1_781_141_921), "2026-06-11T01:38:41Z");
}

#[test]
fn dates_cross_leap_days() {
    assert_eq!(civil_from_days(0), (1970, 1, 1));
    assert_eq!(civil_from_days(-1), (1969, 12, 31));
    assert_eq!(civil_from_days(11_016), (2000, 2, 29));
    assert_eq!(civil_from_days(11_017), (2000, 3, 1));
    assert_eq!(civil_from_days(47_540), (2100, 2, 28));
    assert_eq!(civil_from_days(47_541), (2100, 3, 1));
}

#[test]
fn crash_report_writer_appends_entries_with_separator() {
    let mut log = String::new();
    log.push_str(&crash_report_entry("first"));
    log.push_str(&crash_report_entry("second\n"));
    assert_eq!(log, "first\n\nsecond\n\n");
}

#[test]
fn a_crash_is_reported_with_its_circumstances() {
    let crash = Crash {
        version: "0.1.0".to_owned(),
        timestamp: 0,
        location: None,
        message: Some("boom".to_owned()),
        backtrace: "bt".to_owned(),
    };
    let report = crash_report(&crash);
    assert!(report.starts_with(&crash_report_header("1970-01-01T00:00:00Z")));
    assert!(report.ends_with("location: unknown\npanic: boom\nbacktrace:\nbt\n"));
    assert_eq!(panic_payload_message(&None), "non-string panic payload");
    assert_eq!(
        crash_notice(None, Ok("/x".to_owned()), &report),
        "tscode crashed; terminal restored; crash report written to /x"
    );
    assert_eq!(
        crash_notice(Some("e".to_owned()), Err("f".to_owned()), "r"),
        "tscode crashed; terminal restore failed: e; failed to write crash report: f; r"
    );
}

#[test]
fn crash_reports_go_to_the_cache() {
    let temp = || absolute(&["tmp"]);
    assert_eq!(
        crash_report_path(Some(absolute(&["c"])), Some(absolute(&["h"])), temp()),
        absolute(&["c", "tscode", "crash.log"])
    );
    assert_eq!(
        crash_report_path(None, Some(absolute(&["h"])), temp()),
        absolute(&["h", ".cache", "tscode", "crash.log"])
    );
    assert_eq!(crash_report_path(None, None, temp()), absolute(&["tmp", "tscode-crash.log"]));
}

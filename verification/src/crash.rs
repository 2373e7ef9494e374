//! Reports of crashes.

use vstd::prelude::*;

use crate::calendar;
use crate::cli;
use crate::path::FsPath;
use crate::path::PartView;
use crate::text;

verus! {

broadcast use vstd::utf8::group_utf8_lib;

pub open spec fn header(time_utc: Seq<char>) -> Seq<char> {
    "--- tscode panic "@ + time_utc + " ---"@
}

pub fn crash_report_header(time_utc: &str) -> (out: String)
    ensures
        out@ == header(time_utc@),
{
    let mut out = "--- tscode panic ".to_owned();
    out.append(time_utc);
    out.append(" ---");
    out
}

/// What was known of a crash.
#[derive(Debug, Clone, PartialEq, Eq)]
pub struct Crash {
    pub version: String,
    /// Seconds since the beginning of 1970.
    pub timestamp: u64,
    /// Where in the source, if known.
    pub location: Option<String>,
    /// What the panic said, if it was text.
    pub message: Option<String>,
    pub backtrace: String,
}

/// The report of a crash.
pub open spec fn report(crash: Crash) -> Seq<char> {
    let time_utc = calendar::timestamp_text(crash.timestamp);
    let location = match crash.location {
        Some(location) => location@,
        None => "unknown"@,
    };
    let message = match crash.message {
        Some(message) => message@,
        None => "non-string panic payload"@,
    };
    header(time_utc) + "\nversion: "@ + crash.version@ + "\ntime_utc: "@ + time_utc
        + "\nunix_time: "@ + text::decimal(crash.timestamp as nat) + "\nlocation: "@ + location
        + "\npanic: "@ + message + "\nbacktrace:\n"@ + crash.backtrace@ + "\n"@
}

/// What a panic said.
pub fn panic_payload_message(message: &Option<String>) -> (out: String)
    ensures
        out@ == match message {
            Some(message) => message@,
            None => "non-string panic payload"@,
        },
{
    match message {
        Some(message) => message.clone(),
        None => "non-string panic payload".to_owned(),
    }
}

pub fn crash_report(crash: &Crash) -> (out: String)
    ensures
        out@ == report(*crash),
{
    let time_utc = calendar::format_unix_timestamp_utc(crash.timestamp);
    let mut out = crash_report_header(&time_utc);
    out.append("\nversion: ");
    out.append(&crash.version);
    out.append("\ntime_utc: ");
    out.append(&time_utc);
    out.append("\nunix_time: ");
    text::push_decimal(&mut out, crash.timestamp);
    out.append("\nlocation: ");
    match &crash.location {
        Some(location) => {
            out.append(location);
        },
        None => {
            out.append("unknown");
        },
    }
    out.append("\npanic: ");
    out.append(&panic_payload_message(&crash.message));
    out.append("\nbacktrace:\n");
    out.append(&crash.backtrace);
    out.append("\n");
    out
}

/// Whether a text ends in an empty line.
pub open spec fn ends_blank(text: Seq<char>) -> bool {
    text.len() >= 2 && text.last() == '\n' && text[text.len() - 2] == '\n'
}

/// A report as it stands in the log: with the line feeds that end its last line
/// and put an empty line behind it.
pub open spec fn entry(report: Seq<char>) -> Seq<char> {
    let lined = if report.len() > 0 && report.last() == '\n' {
        report
    } else {
        report.push('\n')
    };
    if ends_blank(lined) {
        lined
    } else {
        lined.push('\n')
    }
}

/// A report as it is appended to the log.
pub fn crash_report_entry(report: &str) -> (out: String)
    ensures
        out@ == entry(report@),
{
    let chars = text::chars_of(report);
    let len = chars.len();
    let mut out = report.to_owned();
    if len > 0 && chars[len - 1] == '\n' {
        if len > 1 && chars[len - 2] == '\n' {
            return out;
        }
        out.push('\n');
        return out;
    }
    out.push('\n');
    out.push('\n');
    out
}

/// The entry of a report begins with the report, adds only line feeds, and ends
/// in an empty line; a report that does so already stays as it is.
pub proof fn entries_are_separated(report: Seq<char>)
    ensures
        report.is_prefix_of(entry(report)),
        entry(report).len() <= report.len() + 2,
        forall|i: int| report.len() <= i < entry(report).len() ==> entry(report)[i] == '\n',
        ends_blank(entry(report)),
        entry(entry(report)) == entry(report),
{
    assert(entry(report).subrange(0, report.len() as int) =~= report);
}

/// A path with names added.
pub open spec fn below(base: Seq<PartView>, name: Seq<char>) -> Seq<PartView> {
    base.push(PartView::Normal(vstd::utf8::encode_utf8(name)))
}

/// Where crashes are logged: in the cache directory of the user, or else in the
/// directory for temporary files.
pub open spec fn log_path(
    cache_home: Option<Seq<PartView>>,
    home: Option<Seq<PartView>>,
    temp_dir: Seq<PartView>,
) -> Seq<PartView> {
    match cache_home {
        Some(dir) => below(below(dir, "tscode"@), "crash.log"@),
        None => match home {
            Some(dir) => below(below(below(dir, ".cache"@), "tscode"@), "crash.log"@),
            None => below(temp_dir, "tscode-crash.log"@),
        },
    }
}

/// Where crashes are logged, by the values of `XDG_CACHE_HOME` and `HOME` and
/// the directory for temporary files.
pub fn crash_report_path(
    cache_home: Option<FsPath>,
    home: Option<FsPath>,
    temp_dir: FsPath,
) -> (path: FsPath)
    ensures
        path@ == log_path(cli::maybe_path(cache_home), cli::maybe_path(home), temp_dir@),
{
    match cache_home {
        Some(dir) => dir.join(text::bytes_of("tscode")).join(text::bytes_of("crash.log")),
        None => match home {
            Some(dir) => dir.join(text::bytes_of(".cache")).join(text::bytes_of("tscode")).join(
                text::bytes_of("crash.log"),
            ),
            None => temp_dir.join(text::bytes_of("tscode-crash.log")),
        },
    }
}

/// What the user is told of a crash: whether the terminal was restored, and
/// where the report went or that it could not be written.
pub open spec fn notice(
    restore_error: Option<Seq<char>>,
    written_to: Result<Seq<char>, Seq<char>>,
    report: Seq<char>,
) -> Seq<char> {
    let restored = match restore_error {
        None => "tscode crashed; terminal restored; "@,
        Some(error) => "tscode crashed; terminal restore failed: "@ + error + "; "@,
    };
    match written_to {
        Ok(path) => restored + "crash report written to "@ + path,
        Err(error) => restored + "failed to write crash report: "@ + error + "; "@ + report,
    }
}

pub fn crash_notice(
    restore_error: Option<String>,
    written_to: Result<String, String>,
    report: &str,
) -> (out: String)
    ensures
        out@ == notice(
            text::maybe(restore_error),
            match written_to {
                Ok(path) => Ok(path@),
                Err(error) => Err(error@),
            },
            report@,
        ),
{
    let mut out = match restore_error {
        None => "tscode crashed; terminal restored; ".to_owned(),
        Some(error) => {
            let mut out = "tscode crashed; terminal restore failed: ".to_owned();
            out.append(&error);
            out.append("; ");
            out
        },
    };
    match written_to {
        Ok(path) => {
            out.append("crash report written to ");
            out.append(&path);
        },
        Err(error) => {
            out.append("failed to write crash report: ");
            out.append(&error);
            out.append("; ");
            out.append(report);
        },
    }
    out
}

/// A report of a crash tells the version, the time, the place, what the panic said,
/// and where the program was, each behind its heading and on a line of its own.
pub proof fn reports_tell_of_the_crash(crash: Crash) -> (places: (int, int, int, int))
    ensures
        ({
            let whole = report(crash);
            let (version, location, message, backtrace) = places;
            let told = |at: int, part: Seq<char>|
                0 <= at && at + part.len() <= whole.len() && whole.subrange(at, at + part.len())
                    == part;
            &&& told(version, "\nversion: "@ + crash.version@ + "\n"@)
            &&& crash.location is Some ==> told(
                location,
                "\nlocation: "@ + crash.location->0@ + "\n"@,
            )
            &&& crash.message is Some ==> told(message, "\npanic: "@ + crash.message->0@ + "\n"@)
            &&& told(backtrace, "\nbacktrace:\n"@ + crash.backtrace@ + "\n"@)
            &&& version < location < message < backtrace
            &&& whole.take(version) == "--- tscode panic "@ + calendar::timestamp_text(
                crash.timestamp,
            ) + " ---"@
        }),
{
    reveal_strlit("\nversion: ");
    reveal_strlit("\ntime_utc: ");
    reveal_strlit("\nunix_time: ");
    reveal_strlit("\nlocation: ");
    reveal_strlit("\npanic: ");
    reveal_strlit("\nbacktrace:\n");
    reveal_strlit("\n");
    let whole = report(crash);
    let time_utc = calendar::timestamp_text(crash.timestamp);
    let place = match crash.location {
        Some(location) => location@,
        None => "unknown"@,
    };
    let said = match crash.message {
        Some(message) => message@,
        None => "non-string panic payload"@,
    };
    let head = header(time_utc);
    let one = "\nversion: "@ + crash.version@;
    let two = "\ntime_utc: "@ + time_utc;
    let three = "\nunix_time: "@ + text::decimal(crash.timestamp as nat);
    let four = "\nlocation: "@ + place;
    let five = "\npanic: "@ + said;
    let six = "\nbacktrace:\n"@ + crash.backtrace@;
    let version = head.len() as int;
    let location = version + one.len() + two.len() + three.len();
    let message = location + four.len();
    let backtrace = message + five.len();
    assert(whole =~= head + one + two + three + four + five + six + "\n"@);
    assert(whole.take(version) =~= head);
    assert(whole.subrange(version, version + one.len() + 1) =~= one + "\n"@);
    assert(whole.subrange(location, location + four.len() + 1) =~= four + "\n"@);
    assert(whole.subrange(message, message + five.len() + 1) =~= five + "\n"@);
    assert(whole.subrange(backtrace, backtrace + six.len() + 1) =~= six + "\n"@);
    (version, location, message, backtrace)
}

/// Crashes are logged below the cache directory that the user chose, or else below the
/// one in their home, or else among the temporary files.
pub proof fn crashes_are_logged_in_the_cache(
    cache_home: Option<Seq<PartView>>,
    home: Option<Seq<PartView>>,
    temp_dir: Seq<PartView>,
)
    ensures
        ({
            let path = log_path(cache_home, home, temp_dir);
            let name = |text: Seq<char>| PartView::Normal(vstd::utf8::encode_utf8(text));
            &&& cache_home is Some ==> path == cache_home->0 + seq![
                name("tscode"@),
                name("crash.log"@),
            ]
            &&& cache_home is None && home is Some ==> path == home->0 + seq![
                name(".cache"@),
                name("tscode"@),
                name("crash.log"@),
            ]
            &&& cache_home is None && home is None ==> path == temp_dir + seq![
                name("tscode-crash.log"@),
            ]
        }),
{
    let path = log_path(cache_home, home, temp_dir);
    let name = |text: Seq<char>| PartView::Normal(vstd::utf8::encode_utf8(text));
    if let Some(dir) = cache_home {
        assert(path =~= dir + seq![name("tscode"@), name("crash.log"@)]);
    } else if let Some(dir) = home {
        assert(path =~= dir + seq![name(".cache"@), name("tscode"@), name("crash.log"@)]);
    } else {
        assert(path =~= temp_dir + seq![name("tscode-crash.log"@)]);
    }
}

/// What the user is told of a crash ends with where the report went, or, where it
/// could not be written, with the report itself.
pub proof fn notices_end_with_the_report_or_its_place(
    restore_error: Option<Seq<char>>,
    path: Seq<char>,
    error: Seq<char>,
    report: Seq<char>,
)
    ensures
        ({
            let written = notice(restore_error, Ok(path), report);
            let failed = notice(restore_error, Err(error), report);
            &&& written.len() >= path.len()
            &&& written.skip(written.len() - path.len()) == path
            &&& failed.len() >= report.len()
            &&& failed.skip(failed.len() - report.len()) == report
            &&& written != failed
        }),
{
    let written = notice(restore_error, Ok(path), report);
    let failed = notice(restore_error, Err(error), report);
    assert(written.skip(written.len() - path.len()) =~= path);
    assert(failed.skip(failed.len() - report.len()) =~= report);
    if written == failed {
        reveal_strlit("crash report written to ");
        reveal_strlit("failed to write crash report: ");
        let restored = match restore_error {
            None => "tscode crashed; terminal restored; "@,
            Some(error) => "tscode crashed; terminal restore failed: "@ + error + "; "@,
        };
        let at = restored.len() as int;
        assert(written[at] == "crash report written to "@[0]);
        assert(failed[at] == "failed to write crash report: "@[0]);
        assert("crash report written to "@[0] == 'c');
        assert("failed to write crash report: "@[0] == 'f');
    }
}

} // verus!

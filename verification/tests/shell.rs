//! The integrated terminal.

use tscode::clipboard::osc52_clipboard_sequence;
use tscode::clipboard::osc52_clipboard_text;
use tscode::keys::key_to_bytes;
use tscode::keys::KeyCode;
use tscode::keys::KeyEvent;
use tscode::keys::KeyModifiers;
use tscode::mouse::mouse_event_to_bytes;
use tscode::mouse::MouseButton;
use tscode::mouse::MouseEventKind;
use tscode::mouse::MouseProtocolEncoding;
use tscode::mouse::MouseProtocolMode;
use tscode::osc::osc7_path;
use tscode::osc::OscTracker;
use tscode::screen::TerminalColor;
use tscode::path::Platform;
use tscode::shell::bash_prompt_command;
use tscode::shell::integration_dir_name;
use tscode::shell::shell_integration;
use tscode::shell::shell_program;
use tscode::shell::terminal_line_matches;
use tscode::shell::zsh_original_dir;
use tscode::shell::ShellExitStatus;
use tscode::shell::ShellIntegration;
use tscode::shell::ShellPanel;
use tscode::shell::TerminalSearchMatch;

const EMPTY: KeyModifiers = KeyModifiers { shift: false, control: false, alt: false };
const SHIFT: KeyModifiers = KeyModifiers { shift: true, control: false, alt: false };
const CONTROL: KeyModifiers = KeyModifiers { shift: false, control: true, alt: false };
const ALT: KeyModifiers = KeyModifiers { shift: false, control: false, alt: true };
const CONTROL_ALT: KeyModifiers = KeyModifiers { shift: false, control: true, alt: true };

fn key(code: KeyCode, modifiers: KeyModifiers) -> KeyEvent {
    KeyEvent { code, modifiers }
}

#[test]
fn terminal_key_encoding_supports_application_cursor_and_function_keys() {
    assert_eq!(key_to_bytes(key(KeyCode::Up, EMPTY), false), Some(b"\x1b[A".to_vec()));
    assert_eq!(key_to_bytes(key(KeyCode::Up, EMPTY), true), Some(b"\x1bOA".to_vec()));
    assert_eq!(key_to_bytes(key(KeyCode::Left, CONTROL), true), Some(b"\x1b[1;5D".to_vec()));
    assert_eq!(key_to_bytes(key(KeyCode::F(1), EMPTY), false), Some(b"\x1bOP".to_vec()));
    assert_eq!(key_to_bytes(key(KeyCode::F(5), SHIFT), false), Some(b"\x1b[15;2~".to_vec()));
    assert_eq!(key_to_bytes(key(KeyCode::BackTab, SHIFT), false), Some(b"\x1b[Z".to_vec()));
}

#[test]
fn terminal_key_encoding_supports_shell_editing_shortcuts() {
    assert_eq!(key_to_bytes(key(KeyCode::Backspace, EMPTY), false), Some(b"\x7f".to_vec()));
    assert_eq!(key_to_bytes(key(KeyCode::Backspace, ALT), false), Some(b"\x1b\x7f".to_vec()));
    assert_eq!(key_to_bytes(key(KeyCode::Backspace, CONTROL), false), Some(vec![0x17]));
    assert_eq!(
        key_to_bytes(key(KeyCode::Backspace, CONTROL_ALT), false),
        Some(b"\x1b\x17".to_vec())
    );
    assert_eq!(key_to_bytes(key(KeyCode::Enter, ALT), false), Some(b"\x1b\r".to_vec()));
    assert_eq!(key_to_bytes(key(KeyCode::Tab, ALT), false), Some(b"\x1b\t".to_vec()));
}

#[test]
fn terminal_key_encoding_supports_control_punctuation() {
    assert_eq!(key_to_bytes(key(KeyCode::Char('/'), CONTROL), false), Some(vec![0x1f]));
    assert_eq!(key_to_bytes(key(KeyCode::Char('6'), CONTROL), false), Some(vec![0x1e]));
    assert_eq!(key_to_bytes(key(KeyCode::Char('8'), CONTROL), false), Some(vec![0x7f]));
    assert_eq!(
        key_to_bytes(key(KeyCode::Char('3'), CONTROL_ALT), false),
        Some(b"\x1b\x1b".to_vec())
    );
}

#[test]
fn keys_without_a_sequence_send_nothing() {
    assert_eq!(key_to_bytes(key(KeyCode::Other, EMPTY), false), None);
    assert_eq!(key_to_bytes(key(KeyCode::F(13), EMPTY), false), None);
    assert_eq!(key_to_bytes(key(KeyCode::Char('é'), EMPTY), false), Some("é".as_bytes().to_vec()));
    assert_eq!(key_to_bytes(key(KeyCode::Char('c'), CONTROL), false), Some(vec![3]));
}

#[test]
fn terminal_line_matches_return_character_columns() {
    assert_eq!(terminal_line_matches("alpha beta alpha", "alpha"), vec![(0, 5), (11, 16)]);
    assert_eq!(terminal_line_matches("écho alpha", "alpha"), vec![(5, 10)]);
    assert!(terminal_line_matches("alpha", "").is_empty());
}

#[test]
fn matches_do_not_overlap() {
    assert_eq!(terminal_line_matches("aaaaa", "aa"), vec![(0, 2), (2, 4)]);
}

#[test]
fn shell_exit_status_labels_codes_and_signals() {
    let success = ShellExitStatus::from_status(portable_pty::ExitStatus::with_exit_code(0));
    assert_eq!(success.label(), "exit:0");
    assert!(success.success);

    let failure = ShellExitStatus::from_status(portable_pty::ExitStatus::with_exit_code(7));
    assert_eq!(failure.label(), "exit:7");
    assert!(!failure.success);

    let signal = ShellExitStatus::from_status(portable_pty::ExitStatus::with_signal("TERM"));
    assert_eq!(signal.label(), "signal:TERM");
    assert!(!signal.success);
}

#[test]
fn osc7_tracker_reads_cwd_from_bel_and_st_sequences() {
    let canonical = "/tmp/tscode-test-osc7-1/space dir";
    let encoded_path = canonical.replace(' ', "%20");

    let mut tracker = OscTracker::default();
    tracker.process(b"ignored\x1b]7;file://localhost");
    tracker.process(format!("{encoded_path}\x07tail").as_bytes());
    assert_eq!(tracker.take_cwd_update(&vec![true]), Some(canonical.to_owned()));

    tracker.process(format!("\x1b]7;file://host{encoded_path}\x1b\\").as_bytes());
    assert_eq!(tracker.take_cwd_update(&vec![true]), Some(canonical.to_owned()));
}

#[test]
fn only_directories_become_the_working_directory() {
    let mut tracker = OscTracker::default();
    tracker.process(b"\x1b]7;file://h/a\x07\x1b]7;file://h/b\x07");
    assert_eq!(tracker.take_cwd_update(&vec![true, false]), Some("/a".to_owned()));
    assert_eq!(tracker.take_cwd_update(&vec![]), None);
    assert_eq!(osc7_path("7;file://h/a%20b").as_deref(), Some("/a b"));
    assert_eq!(osc7_path("7;http://h/a"), None);
}

#[test]
fn osc_tracker_reads_terminal_titles_from_osc_zero_and_two() {
    let mut tracker = OscTracker::default();
    tracker.process(b"\x1b]0;demo terminal\x07");
    assert_eq!(tracker.take_title_update(), Some("demo terminal".to_owned()));

    tracker.process(b"\x1b]2; build\tlogs \x1b\\");
    assert_eq!(tracker.take_title_update(), Some("buildlogs".to_owned()));

    tracker.process(b"\x1b]1;ignored\x07");
    assert_eq!(tracker.take_title_update(), None);
}

#[test]
fn osc_tracker_reads_osc52_clipboard_updates() {
    let mut tracker = OscTracker::default();
    tracker.process(b"\x1b]52;c;aGVsbG8gZnJvbSBwdHk=\x07");
    assert_eq!(tracker.take_clipboard_update(), Some("hello from pty".to_owned()));

    tracker.process(b"\x1b]52;p;dHNjb2Rl\x1b\\");
    assert_eq!(tracker.take_clipboard_update(), Some("tscode".to_owned()));

    tracker.process(b"\x1b]52;c;?\x07");
    assert_eq!(tracker.take_clipboard_update(), None);
}

#[test]
fn sequences_may_come_in_pieces() {
    let bytes = b"x\x1b]0;a title\x07y";
    for cut in 0..=bytes.len() {
        let mut tracker = OscTracker::default();
        tracker.process(&bytes[..cut]);
        tracker.process(&bytes[cut..]);
        assert_eq!(tracker.take_title_update(), Some("a title".to_owned()));
    }
}

#[test]
fn overlong_sequences_are_dropped() {
    let mut tracker = OscTracker::default();
    tracker.process(b"\x1b]0;");
    for _ in 0..2_000 {
        tracker.process(&[b'a'; 64]);
    }
    tracker.process(b"\x07");
    assert_eq!(tracker.take_title_update(), None);
}

#[test]
fn what_is_put_on_the_clipboard_is_read_back() {
    for text in ["hello", "é🦀", "a\nb"] {
        let sequence = osc52_clipboard_sequence(text);
        let mut tracker = OscTracker::default();
        tracker.process(sequence.as_bytes());
        assert_eq!(tracker.take_clipboard_update(), Some(text.to_owned()));
    }
    assert_eq!(osc52_clipboard_text("52;c;"), None);
    assert_eq!(osc52_clipboard_text("52;c;/w=="), None);
    assert_eq!(osc52_clipboard_text("52;c;aGk"), None);
}

#[test]
fn terminal_mouse_encoding_reports_sgr_press_release_drag_and_wheel() {
    assert_eq!(
        mouse_event_to_bytes(
            MouseEventKind::Down(MouseButton::Left),
            4,
            9,
            EMPTY,
            MouseProtocolMode::PressRelease,
            MouseProtocolEncoding::Sgr,
        ),
        Some(b"\x1b[<0;10;5M".to_vec())
    );
    assert_eq!(
        mouse_event_to_bytes(
            MouseEventKind::Up(MouseButton::Left),
            4,
            9,
            EMPTY,
            MouseProtocolMode::PressRelease,
            MouseProtocolEncoding::Sgr,
        ),
        Some(b"\x1b[<0;10;5m".to_vec())
    );
    assert_eq!(
        mouse_event_to_bytes(
            MouseEventKind::Drag(MouseButton::Right),
            0,
            0,
            CONTROL,
            MouseProtocolMode::ButtonMotion,
            MouseProtocolEncoding::Sgr,
        ),
        Some(b"\x1b[<50;1;1M".to_vec())
    );
    assert_eq!(
        mouse_event_to_bytes(
            MouseEventKind::ScrollDown,
            2,
            3,
            SHIFT,
            MouseProtocolMode::Press,
            MouseProtocolEncoding::Sgr,
        ),
        Some(b"\x1b[<69;4;3M".to_vec())
    );
}

#[test]
fn terminal_mouse_encoding_respects_requested_motion_modes() {
    assert_eq!(
        mouse_event_to_bytes(
            MouseEventKind::Drag(MouseButton::Left),
            1,
            1,
            EMPTY,
            MouseProtocolMode::PressRelease,
            MouseProtocolEncoding::Sgr,
        ),
        None
    );
    assert_eq!(
        mouse_event_to_bytes(
            MouseEventKind::Moved,
            1,
            1,
            EMPTY,
            MouseProtocolMode::AnyMotion,
            MouseProtocolEncoding::Sgr,
        ),
        Some(b"\x1b[<35;2;2M".to_vec())
    );
}

#[test]
fn terminal_mouse_encoding_uses_real_utf8_coordinates_when_requested() {
    assert_eq!(
        mouse_event_to_bytes(
            MouseEventKind::Down(MouseButton::Left),
            0,
            200,
            EMPTY,
            MouseProtocolMode::Press,
            MouseProtocolEncoding::Utf8,
        ),
        Some(b"\x1b[M \xc3\xa9!".to_vec())
    );

    assert_eq!(
        mouse_event_to_bytes(
            MouseEventKind::Down(MouseButton::Left),
            0,
            200,
            EMPTY,
            MouseProtocolMode::Press,
            MouseProtocolEncoding::Default,
        ),
        Some(vec![0x1b, b'[', b'M', 32, 233, 33])
    );
}

#[test]
fn plain_coordinates_end_with_their_range() {
    let far = |encoding| {
        mouse_event_to_bytes(
            MouseEventKind::Down(MouseButton::Left),
            0,
            5_000,
            EMPTY,
            MouseProtocolMode::Press,
            encoding,
        )
    };
    assert_eq!(far(MouseProtocolEncoding::Default), None);
    assert!(far(MouseProtocolEncoding::Utf8).is_some());
    assert_eq!(far(MouseProtocolEncoding::Sgr), Some(b"\x1b[<0;5001;1M".to_vec()));
}

#[test]
fn a_panel_shows_what_the_shell_wrote() {
    let mut panel = ShellPanel::new();
    assert_eq!(panel.size(), (8, 80));
    panel.process_output(b"plain \x1b[31mred\x1b[0m\r\n\x1b]0;title\x07");
    assert_eq!(panel.row_text(0).as_deref(), Some("plain red"));
    assert_eq!(panel.row_text(8), None);
    assert_eq!(panel.cursor(), (1, 0));
    assert_eq!(panel.take_title_update().as_deref(), Some("title"));
    let rows = panel.styled_rows();
    assert_eq!(rows.len(), 8);
    assert_eq!(rows[0].len(), 2);
    assert_eq!(rows[0][0].text, "plain ");
    assert_eq!(rows[0][1].text, "red");
    assert_eq!(rows[0][1].style.fg, TerminalColor::Idx(1));
    assert!(rows[1].is_empty());
}

#[test]
fn wide_characters_take_one_place_in_a_row() {
    let mut panel = ShellPanel::new();
    panel.process_output("漢a\u{301}".as_bytes());
    let row = panel.styled_row(0);
    assert_eq!(row.len(), 1);
    assert_eq!(row[0].text, "漢a\u{301}");
}

#[test]
fn a_panel_keeps_what_was_scrolled_off() {
    let mut panel = ShellPanel::new();
    for i in 0..20 {
        panel.process_output(format!("line {i}\r\n").as_bytes());
    }
    let all = panel.all_row_text();
    assert_eq!(all.len(), 21);
    assert_eq!(all[3], "line 3");
    assert_eq!(panel.visible_top_row(), 13);
    assert_eq!(
        panel.search_matches("line 3"),
        vec![TerminalSearchMatch { row: 3, start: 0, end: 6 }]
    );
    panel.scroll_to_global_row(3);
    assert_eq!(panel.visible_top_row(), 3);
    assert_eq!(panel.row_text(0).as_deref(), Some("line 3"));
    panel.scroll(-100);
    assert_eq!(panel.scrollback(), 0);
    panel.scroll(100);
    assert_eq!(panel.scrollback(), 13);
    assert_eq!(panel.row_text(0).as_deref(), Some("line 0"));
    panel.clear();
    assert_eq!(panel.all_row_text(), vec![String::new(); 8]);
    assert!(panel.styled_rows().iter().all(|row| row.is_empty()));
}

#[test]
fn new_output_keeps_the_view_at_the_end_unless_the_user_scrolled() {
    let mut panel = ShellPanel::new();
    let lines: Vec<Vec<u8>> = (0..20).map(|i| format!("line {i}\r\n").into_bytes()).collect();
    assert!(panel.drain(&lines));
    assert!(!panel.drain(&Vec::new()));
    assert_eq!(panel.scrollback(), 0);
    panel.scroll(2);
    panel.drain(&vec![b"more\r\n".to_vec()]);
    assert!(panel.scrollback() > 0);
}

#[test]
fn a_panel_is_resized_to_at_least_one_row_of_two_columns() {
    let mut panel = ShellPanel::new();
    assert_eq!(panel.resize(8, 80), None);
    assert_eq!(panel.resize(0, 0), Some((1, 2)));
    assert_eq!(panel.size(), (1, 2));
    assert_eq!(panel.resize(24, 100), Some((24, 100)));
}

#[test]
fn modes_decide_what_is_sent() {
    let mut panel = ShellPanel::new();
    let up = key(KeyCode::Up, EMPTY);
    assert_eq!(panel.send_key(up), Some(b"\x1b[A".to_vec()));
    assert_eq!(panel.send_paste("a"), b"a".to_vec());
    assert_eq!(panel.send_mouse_click(0, 0), None);
    panel.process_output(b"\x1b[?1h\x1b[?2004h\x1b[?1000h\x1b[?1006h\x1b[?25l");
    assert!(panel.bracketed_paste());
    assert!(panel.hide_cursor());
    assert_eq!(panel.mouse_protocol_mode(), MouseProtocolMode::PressRelease);
    assert_eq!(panel.send_key(up), Some(b"\x1bOA".to_vec()));
    assert_eq!(panel.send_paste("a"), b"\x1b[200~a\x1b[201~".to_vec());
    assert_eq!(panel.send_mouse_click(1, 2), Some(b"\x1b[<0;3;2M\x1b[<0;3;2m".to_vec()));
    assert_eq!(panel.send_mouse_wheel(0, 0, true), Some(b"\x1b[<64;1;1M".to_vec()));
    panel.process_output(b"\x1b[?1049h");
    assert!(panel.alternate_screen());
    panel.clear();
    assert!(!panel.alternate_screen());
    assert_eq!(panel.mouse_protocol_mode(), MouseProtocolMode::Off);
}

#[test]
fn shells_get_their_integration() {
    assert_eq!(shell_integration("/bin/bash", Platform::Unix), ShellIntegration::Bash);
    assert_eq!(shell_integration("/usr/bin/zsh", Platform::Unix), ShellIntegration::Zsh);
    assert_eq!(shell_integration("/bin/fish", Platform::Unix), ShellIntegration::Plain);
    let windows = "C:\\Git\\bash";
    assert_eq!(shell_integration(windows, Platform::Windows), ShellIntegration::Bash);
    assert_eq!(shell_integration(windows, Platform::Unix), ShellIntegration::Plain);
    assert_eq!(shell_program(Some("/bin/zsh".to_owned()), Platform::Unix), "/bin/zsh");
    assert_eq!(shell_program(None, Platform::Unix), "/bin/sh");
    assert_eq!(shell_program(None, Platform::Windows), "cmd.exe");
    let own = bash_prompt_command(None);
    assert!(bash_prompt_command(Some("mine".to_owned())).contains("mine"));
    assert!(bash_prompt_command(Some("mine".to_owned())).contains(&own));
    assert_eq!(zsh_original_dir(Some("/z".to_owned()), Some("/h".to_owned())), "/z");
    assert_eq!(zsh_original_dir(None, Some("/h".to_owned())), "/h");
    assert_eq!(integration_dir_name("zsh", 7, 12), "tscode-zsh-7-12");
}

#[test]
fn sequences_that_are_no_text_are_ignored() {
    let mut tracker = OscTracker::default();
    tracker.process(b"\x1b]0;a\xffb\x07");
    assert_eq!(tracker.take_title_update(), None);
}

#[test]
fn a_panel_that_is_too_small_takes_no_output() {
    let mut panel = ShellPanel::new();
    assert!(panel.takes_output());
    panel.resize(1, 80);
    assert!(!panel.takes_output());
    panel.resize(2, 2);
    assert!(!panel.takes_output());
    panel.resize(2, 3);
    assert!(panel.takes_output());
    panel.process_output("ab\u{17d8}cdefgh\r\n\t\t".as_bytes());
    assert!(panel.takes_output());
    panel.resize(2, 65_535);
    assert!(!panel.takes_output());
}

#[test]
fn a_cut_wide_character_stops_output_until_the_panel_is_cleared() {
    let mut panel = ShellPanel::new();
    panel.process_output("ab漢".as_bytes());
    panel.resize(8, 4);
    assert!(panel.takes_output());
    panel.resize(8, 3);
    assert!(!panel.takes_output());
    panel.resize(8, 80);
    assert!(!panel.takes_output());
    panel.clear();
    assert!(panel.takes_output());
    panel.process_output("\x1b[?1049hab漢\x1b[?1049l".as_bytes());
    assert!(!panel.alternate_screen());
    panel.resize(8, 3);
    assert!(!panel.takes_output());
    panel.clear();
    panel.resize(8, 80);
    panel.process_output("ab漢\x1b[?1049h".as_bytes());
    panel.resize(8, 3);
    assert!(!panel.takes_output());
}

//! What is drawn.

use tscode::fs_tree::ExplorerSortMode;
use tscode::fs_tree::VisibleNode;
use tscode::mouse::MouseProtocolMode;
use tscode::path::FsPath;
use tscode::path::PathPart;
use tscode::path::Platform;
use tscode::screen::TerminalColor;
use tscode::screen::TerminalStyle;
use tscode::shell::ShellPanel;
use tscode::spans::TerminalSpan;
use tscode::syntax::SyntaxHighlighter;
use tscode::ui::area::screen_areas;
use tscode::ui::area::Rect;
use tscode::ui::editor::code_width;
use tscode::ui::editor::draw_editor;
use tscode::ui::editor::draw_editor_pane;
use tscode::ui::editor::draw_highlighted_pane;
use tscode::ui::editor::editor_gutter_width;
use tscode::ui::editor::max_horizontal_scroll;
use tscode::ui::editor::plan_pane;
use tscode::ui::editor::Editor;
use tscode::ui::editor::EditorPane;
use tscode::ui::editor::LineMarks;
use tscode::ui::editor::VisualRow;
use tscode::ui::label::display_name;
use tscode::ui::label::format_size;
use tscode::ui::label::hover_name;
use tscode::ui::label::terminal_cwd_label;
use tscode::ui::label::FocusPanel;
use tscode::ui::label::HoverTarget;
use tscode::ui::label::PromptKind;
use tscode::ui::label::QuickPanelKind;
use tscode::ui::line::crop_spans_by_chars;
use tscode::ui::line::cursor_overlay_line_spans;
use tscode::ui::line::document_highlight_line_spans;
use tscode::ui::line::search_line_spans;
use tscode::ui::line::selection_line_spans;
use tscode::ui::line::terminal_row_spans;
use tscode::ui::line::LspDocumentHighlight;
use tscode::ui::line::LspDocumentHighlightKind;
use tscode::ui::line::SelectionRange;
use tscode::ui::line::Span;
use tscode::ui::list::draw_explorer;
use tscode::ui::list::draw_outline;
use tscode::ui::list::window;
use tscode::ui::list::Explorer;
use tscode::ui::list::ExplorerRow;
use tscode::ui::list::Outline;
use tscode::ui::list::OutlineItem;
use tscode::ui::op::DrawOp;
use tscode::ui::popup::draw_editor_hover;
use tscode::ui::popup::draw_quick_panel;
use tscode::ui::popup::popup_area;
use tscode::ui::popup::quick_area;
use tscode::ui::popup::HoverState;
use tscode::ui::popup::QuickItem;
use tscode::ui::popup::QuickPanel;
use tscode::ui::popup::SymbolHover;
use tscode::ui::popup::SymbolLocation;
use tscode::ui::status::draw_status;
use tscode::ui::status::draw_title;
use tscode::ui::status::ClipboardAction;
use tscode::ui::status::ClipboardStatus;
use tscode::ui::status::PromptStatus;
use tscode::ui::status::Status;
use tscode::ui::status::TabStatus;
use tscode::ui::status::TerminalTitle;
use tscode::ui::style;
use tscode::ui::style::Color;
use tscode::ui::style::ProblemSeverity;
use tscode::ui::style::Style;
use tscode::ui::tabs::draw_tabs;
use tscode::ui::tabs::draw_terminal_tabs;
use tscode::ui::tabs::ExternalFileState;
use tscode::ui::tabs::TabLabel;
use tscode::ui::tabs::TabRow;
use tscode::ui::tabs::TerminalLabel;
use tscode::ui::tabs::TerminalRow;
use tscode::ui::terminal::draw_terminal;
use tscode::ui::terminal::draw_terminal_pane;
use tscode::ui::terminal::RowOverlay;
use tscode::ui::terminal::TerminalPane;
use tscode::ui::terminal::TerminalPanel;
use tscode::ui::width::fit_with_suffix;
use tscode::ui::width::truncate_width;
use tscode::ui::Sidebar;
use tscode::ui::Workspace;

fn rect(x: u16, y: u16, width: u16, height: u16) -> Rect {
    Rect { x, y, width, height }
}

fn path(names: &[&str]) -> FsPath {
    let mut parts = vec![PathPart::Anchor(b"/".to_vec())];
    parts.extend(names.iter().map(|name| PathPart::Normal(name.as_bytes().to_vec())));
    FsPath { parts }
}

fn span(text: &str, style: Style) -> Span {
    Span { text: text.to_owned(), style }
}

fn plain_text(spans: &[Span]) -> String {
    spans.iter().map(|span| span.text.as_str()).collect()
}

/// The texts of the labels among steps of drawing.
fn labels(ops: &[DrawOp]) -> Vec<String> {
    ops.iter()
        .filter_map(|op| match op {
            DrawOp::Label { text, .. } => Some(text.clone()),
            _ => None,
        })
        .collect()
}

/// The texts of the lines among steps of drawing.
fn lines(ops: &[DrawOp]) -> Vec<String> {
    ops.iter()
        .filter_map(|op| match op {
            DrawOp::Lines { lines, .. } => Some(lines),
            _ => None,
        })
        .flatten()
        .map(|line| plain_text(&line.spans))
        .collect()
}

#[test]
fn the_screen_is_divided() {
    let areas = screen_areas(rect(0, 0, 120, 40), false, 10);
    assert_eq!(areas.title, rect(0, 0, 120, 1));
    assert_eq!(areas.body, rect(0, 1, 120, 38));
    assert_eq!(areas.status, rect(0, 39, 120, 1));
    assert_eq!(areas.sidebar, rect(0, 1, 32, 38));
    assert_eq!(areas.main, rect(32, 1, 88, 38));
    assert_eq!(areas.editor, Some(rect(32, 1, 88, 28)));
    assert_eq!(areas.terminal, rect(32, 29, 88, 10));
    let maximized = screen_areas(rect(0, 0, 120, 40), true, 10);
    assert_eq!(maximized.editor, None);
    assert_eq!(maximized.terminal, maximized.main);
    let low = screen_areas(rect(0, 0, 120, 40), false, 0);
    assert_eq!(low.terminal.height, 4);
}

#[test]
fn a_border_takes_one_cell_on_each_side() {
    assert_eq!(rect(3, 4, 10, 5).inner(), rect(4, 5, 8, 3));
    assert_eq!(rect(3, 4, 1, 0).inner(), rect(4, 4, 0, 0));
    assert_eq!(Rect::new(65_530, 0, 10, 1), rect(65_530, 0, 5, 1));
}

#[test]
fn widths_count_columns() {
    assert_eq!(truncate_width("漢字ab", 5), "漢字a");
    assert_eq!(truncate_width("漢字ab", 3), "漢");
    assert_eq!(fit_with_suffix("name", " 3K", 12), "name      3K");
    assert_eq!(fit_with_suffix("a long name", " 3K", 10), "a long 3K");
    assert_eq!(fit_with_suffix("name", " 3K", 4), "name");
    assert_eq!(fit_with_suffix("name", "", 2), "na");
    assert_eq!(fit_with_suffix("name", " 3K", 0), "");
}

#[test]
fn paths_below_the_workspace_stay_as_they_are_written() {
    let root = path(&["w"]);
    let inner = path(&["w", "a", "b"]);
    assert_eq!(terminal_cwd_label(&inner, "/w/a//b", &root, Platform::Unix), "a//b");
    assert_eq!(terminal_cwd_label(&inner, "//w/.//a/./b/./", &root, Platform::Unix), "a/./b");
    assert_eq!(terminal_cwd_label(&path(&["w", "a\\b"]), "/w/a\\b", &root, Platform::Unix), "a/b");
    let nowhere = FsPath { parts: Vec::new() };
    assert_eq!(terminal_cwd_label(&path(&["a"]), "/a", &nowhere, Platform::Unix), "/a");
    assert_eq!(terminal_cwd_label(&path(&["a"]), "/a/.", &nowhere, Platform::Unix), "/a");
    assert_eq!(terminal_cwd_label(&path(&[]), "/./", &nowhere, Platform::Unix), "/");
    let here = FsPath { parts: vec![PathPart::Current] };
    let mut below = FsPath { parts: vec![PathPart::Current] };
    below.parts.push(PathPart::Normal(b"a".to_vec()));
    assert_eq!(terminal_cwd_label(&below, "./a/", &nowhere, Platform::Unix), "./a");
    assert_eq!(terminal_cwd_label(&below, "./a/", &here, Platform::Unix), "a");
    let drive = vec![PathPart::Anchor(b"C:".to_vec()), PathPart::Anchor(b"\\".to_vec())];
    let mut disk = FsPath { parts: drive };
    let on_disk = disk.clone();
    disk.parts.push(PathPart::Normal(b"a".to_vec()));
    disk.parts.push(PathPart::Normal(b"b".to_vec()));
    assert_eq!(terminal_cwd_label(&disk, "C:\\a\\b", &on_disk, Platform::Windows), "a/b");
}

#[test]
fn labels_are_short() {
    assert_eq!(format_size(1023), "1023B");
    assert_eq!(format_size(1024), "1K");
    assert_eq!(format_size(3 * 1024 * 1024), "3M");
    let root = path(&["w"]);
    assert_eq!(terminal_cwd_label(&path(&["w"]), "/w", &root, Platform::Unix), ".");
    assert_eq!(terminal_cwd_label(&path(&["w", "a", "b"]), "/w/a/b", &root, Platform::Unix), "a/b");
    assert_eq!(terminal_cwd_label(&path(&["x"]), "/x", &root, Platform::Unix), "x");
    assert_eq!(terminal_cwd_label(&path(&[]), "/", &root, Platform::Unix), "/");
    let mut odd = path(&["w"]);
    odd.parts.push(PathPart::Normal(vec![b'a', 0xff]));
    assert_eq!(terminal_cwd_label(&odd, "/w/a\u{fffd}", &root, Platform::Unix), "a\u{fffd}");
    assert_eq!(display_name(&path(&["w", "f.rs"]), &None), "f.rs");
    assert_eq!(display_name(&path(&[]), &Some("/".to_owned())), "/");
    assert_eq!(hover_name(&HoverTarget::Nothing), "none");
}

#[test]
fn lists_show_a_full_window() {
    assert_eq!(window(100, 10, 0), (0, 10));
    assert_eq!(window(100, 10, 95), (90, 10));
    assert_eq!(window(4, 10, 3), (0, 4));
    assert_eq!(window(4, 0, 9), (3, 0));
}

fn node(name: &str, depth: usize, is_dir: bool, size: Option<u64>) -> VisibleNode {
    VisibleNode {
        path: path(&[name]),
        name: name.to_owned(),
        depth,
        is_dir,
        expanded: is_dir,
        size,
        readonly: false,
    }
}

fn explorer() -> Explorer {
    Explorer {
        focused: true,
        filter: None,
        show_hidden: false,
        show_ignored: true,
        sort: ExplorerSortMode::Name,
        selection_count: 0,
        rows: vec![
            ExplorerRow { node: node("w", 0, true, None), multi_selected: false, git_marker: None },
            ExplorerRow {
                node: node("a.rs", 1, false, Some(2048)),
                multi_selected: true,
                git_marker: Some("M".to_owned()),
            },
            ExplorerRow {
                node: node("b.rs", 1, false, None),
                multi_selected: false,
                git_marker: None,
            },
        ],
        scroll: 9,
        selected: 1,
        hover: HoverTarget::ExplorerRow(2),
        drop_target: None,
    }
}

#[test]
fn the_explorer_lists_its_nodes() {
    let drawing = draw_explorer(&explorer(), rect(0, 0, 22, 4));
    assert_eq!(drawing.height, 2);
    assert_eq!(drawing.scroll, 1);
    assert_eq!(drawing.rows, vec![(rect(1, 1, 20, 1), 1), (rect(1, 2, 20, 1), 2)]);
    assert_eq!(labels(&drawing.ops), ["*    a.rs       2K M", "     b.rs          ?"]);
    match &drawing.ops[1] {
        DrawOp::Label { style: shown, .. } => {
            assert_eq!(*shown, style::explorer_row_style(true, false, true, false));
        }
        _ => panic!("a row is expected"),
    }
    match &drawing.ops[0] {
        DrawOp::Panel { title, .. } => {
            assert!(title.contains("sort:name"));
            assert!(title.ends_with("hidden:off generated:on "));
        }
        _ => panic!("a panel is expected"),
    }
}

#[test]
fn the_outline_lists_symbols_with_their_lines() {
    let mut outline = Outline {
        focused: false,
        active: Some("main.rs".to_owned()),
        items: vec![OutlineItem {
            label: "main".to_owned(),
            detail: "fn".to_owned(),
            line: Some(4),
        }],
        scroll: 0,
        selected: 7,
        hover: HoverTarget::Nothing,
    };
    let (drawing, selected) = draw_outline(&outline, rect(0, 0, 18, 5));
    assert_eq!(selected, 0);
    assert_eq!(labels(&drawing.ops), ["  main  fn     5"]);
    outline.items.clear();
    let (drawing, selected) = draw_outline(&outline, rect(0, 0, 18, 5));
    assert_eq!(selected, 0);
    assert_eq!(labels(&drawing.ops), ["Open a source file to see symbols."]);
}

fn tab(title: &str, dirty: bool, external: ExternalFileState) -> TabLabel {
    TabLabel { title: title.to_owned(), dirty, read_only: false, external }
}

#[test]
fn tabs_stand_side_by_side() {
    let row = TabRow {
        tabs: vec![
            tab("a", true, ExternalFileState::Clean),
            tab("a very long title of a tab", false, ExternalFileState::Deleted),
            tab("c", false, ExternalFileState::Clean),
        ],
        active: Some(0),
        split: None,
        hover: HoverTarget::Nothing,
    };
    let drawing = draw_tabs(&row, rect(2, 3, 34, 1));
    assert_eq!(
        drawing.tabs,
        vec![(rect(2, 3, 8, 1), 0), (rect(10, 3, 24, 1), 1), (rect(34, 3, 2, 1), 2)]
    );
    assert_eq!(drawing.closes, vec![(rect(7, 3, 3, 1), 0), (rect(31, 3, 3, 1), 1)]);
    assert_eq!(
        labels(&drawing.ops),
        ["", " a* x ", " a very long title of a tab? x ", " c x "]
    );
}

#[test]
fn terminals_show_how_they_ended() {
    let row = TerminalRow {
        terminals: vec![
            TerminalLabel {
                title: "a shell that ended".to_owned(),
                exited: true,
                exit_label: Some("exit:7".to_owned()),
            },
            TerminalLabel { title: "b".to_owned(), exited: false, exit_label: None },
        ],
        active: 0,
        hover: HoverTarget::TerminalNew,
    };
    let drawing = draw_terminal_tabs(&row, rect(0, 0, 40, 1));
    assert_eq!(drawing.tabs, vec![(rect(0, 0, 20, 1), 0), (rect(20, 0, 9, 1), 1)]);
    assert_eq!(drawing.new_terminal, Some(rect(29, 0, 5, 1)));
    assert_eq!(
        labels(&drawing.ops),
        ["", " a shell that ended! x ", "exit:7", " b x ", " + "]
    );
    match &drawing.ops[2] {
        DrawOp::Label { area, .. } => assert_eq!(*area, rect(11, 0, 6, 1)),
        _ => panic!("a label is expected"),
    }
    assert_eq!(draw_terminal_tabs(&row, rect(0, 0, 25, 1)).new_terminal, None);
}

#[test]
fn popups_avoid_the_edges() {
    let area = rect(0, 1, 80, 20);
    assert_eq!(popup_area(area, 30, 2, 5, 5), rect(6, 6, 34, 4));
    assert_eq!(popup_area(area, 30, 2, 75, 19), rect(46, 15, 34, 4));
    assert_eq!(popup_area(area, 200, 2, 0, 0), rect(0, 1, 80, 4));
    assert_eq!(quick_area(rect(0, 1, 100, 30)), rect(9, 2, 82, 18));
    assert_eq!(quick_area(rect(0, 1, 20, 4)), rect(0, 2, 20, 4));
}

fn hover_state() -> HoverState {
    HoverState {
        hover: Some(SymbolHover {
            symbol: "main".to_owned(),
            definition_count: 1,
            reference_count: 2,
            definition: Some(SymbolLocation {
                path: path(&["w", "src", "main.rs"]),
                display: "/w/src/main.rs".to_owned(),
                platform: Platform::Unix,
                line: 3,
                col: 0,
            }),
            definition_detail: Some("fn".to_owned()),
            definition_preview: None,
        }),
        asking: false,
        editor_shown: true,
        mouse_x: 5,
        mouse_y: 5,
    }
}

#[test]
fn a_symbol_under_the_mouse_is_explained() {
    let root = path(&["w"]);
    let area = rect(0, 1, 80, 20);
    let ops = draw_editor_hover(&hover_state(), &root, area);
    assert_eq!(ops.len(), 3);
    assert_eq!(ops[0], DrawOp::Clear(rect(6, 6, 28, 4)));
    assert_eq!(lines(&ops), ["main  defs:1 refs:2", "def src/main.rs:4:1  fn"]);
    let mut asking = hover_state();
    asking.asking = true;
    assert!(draw_editor_hover(&asking, &root, area).is_empty());
    assert!(draw_editor_hover(&hover_state(), &root, rect(0, 0, 7, 20)).is_empty());
}

#[test]
fn the_quick_panel_lists_its_items() {
    let mut panel = QuickPanel {
        kind: QuickPanelKind::OpenFile,
        query: "ma|".to_owned(),
        items: vec![
            QuickItem { label: "main.rs".to_owned(), detail: "src".to_owned(), preview: None },
            QuickItem {
                label: "map.rs".to_owned(),
                detail: "src".to_owned(),
                preview: Some("fn".to_owned()),
            },
        ],
        scroll: 1,
        selected: 1,
        hover: HoverTarget::Nothing,
    };
    let drawing = draw_quick_panel(&panel, rect(0, 1, 60, 30));
    assert_eq!(drawing.scroll, 0);
    assert_eq!(drawing.height, 16);
    assert_eq!(labels(&drawing.ops), ["main.rs  src", "map.rs  src  fn"]);
    assert_eq!(drawing.rows[1], (rect(3, 4, 54, 1), 1));
    match &drawing.ops[1] {
        DrawOp::Panel { title, .. } => assert_eq!(title, " Quick Open  Ctrl-P   ma| "),
        _ => panic!("a panel is expected"),
    }
    panel.items.clear();
    let drawing = draw_quick_panel(&panel, rect(0, 1, 60, 30));
    assert_eq!(labels(&drawing.ops), ["Type a file name or path fragment."]);
    assert!(drawing.rows.is_empty());
}

fn status() -> Status {
    Status {
        prompt: None,
        tab: None,
        tab_count: 2,
        hover: HoverTarget::Nothing,
        branch: Some("main".to_owned()),
        symbol: None,
        clipboard: None,
        editor_clipboard: None,
        message: None,
        last_error: None,
    }
}

#[test]
fn the_status_line_says_what_is_going_on() {
    let area = rect(0, 9, 80, 1);
    assert_eq!(
        labels(&draw_status(&status(), area)),
        [" no file open tabs:2  hover:none  branch:main "]
    );
    let mut busy = status();
    busy.tab = Some(TabStatus {
        untitled: false,
        title: "a.rs".to_owned(),
        path: "/w/a.rs".to_owned(),
        dirty: true,
        read_only: false,
        disk: None,
        selected_text: Some("xyz".to_owned()),
        selection_count: 2,
        search_count: Some(4),
        problem_count: 1,
        highlight_count: 0,
        bookmark_count: 0,
        word_wrap: true,
        line_problem: None,
        cursor_line: 0,
        cursor_col: 9,
    });
    busy.branch = None;
    busy.clipboard = Some(ClipboardStatus {
        action: ClipboardAction::Cut,
        count: 3,
        first_name: "f".to_owned(),
    });
    busy.last_error = Some("oops".to_owned());
    assert_eq!(
        labels(&draw_status(&busy, area)),
        [" /w/a.rs *  Ln 1, Col 10  Wrap  Sel 2x/3 chars  Find 4  Problems 1 tabs:2  hover:none  clipboard:cut 3 items  error: oops "]
    );
    busy.prompt =
        Some(PromptStatus { kind: PromptKind::NewFile, input: "x|".to_owned() });
    let ops = draw_status(&busy, area);
    assert_eq!(labels(&ops), [" new file: x| "]);
    assert_eq!(
        labels(&draw_title("/w", "files", FocusPanel::Editor, area)),
        [" tscode  /w  sidebar:files  focus:editor "]
    );
}

#[test]
fn cropping_keeps_a_window_of_characters() {
    let spans = vec![span("abc", style::plain()), span("défg", style::body_style())];
    let cropped = crop_spans_by_chars(&spans, 2, 3);
    assert_eq!(cropped, vec![span("c", style::plain()), span("dé", style::body_style())]);
    assert!(crop_spans_by_chars(&spans, 9, 3).is_empty());
    assert!(crop_spans_by_chars(&spans, 0, 0).is_empty());
}

#[test]
fn styling_keeps_the_text_of_a_line() {
    let spans = vec![span("let x", style::plain()), span(" = x;", style::body_style())];
    let highlights = vec![LspDocumentHighlight {
        start_col: 4,
        end_col: 6,
        kind: LspDocumentHighlightKind::Write,
    }];
    let shown = document_highlight_line_spans(&spans, &highlights);
    assert_eq!(plain_text(&shown), "let x = x;");
    assert_eq!(shown.len(), 4);
    assert_eq!(shown[1].text, "x");
    assert_eq!(shown[1].style.bg, Some(style::highlight_write_bg()));
    let shown = cursor_overlay_line_spans(&spans, &vec![0, 10, 10]);
    assert_eq!(plain_text(&shown), "let x = x; ");
    assert_eq!(shown[0], span("l", style::cursor_style()));
    let shown = selection_line_spans("abcdef", &vec![(4, 5), (1, 2)]);
    assert_eq!(plain_text(&shown), "abcdef");
    assert_eq!(shown.len(), 5);
    let found = search_line_spans("a needle", "needle", Some(2)).unwrap();
    assert_eq!(plain_text(&found), "a needle");
    assert_eq!(found[1].style.bg, Some(style::search_active_bg()));
    assert_eq!(search_line_spans("hay", "needle", None), None);
}

#[test]
fn terminal_rows_are_shown_with_what_lies_over_them() {
    let mut inverse = TerminalStyle::default();
    inverse.inverse = true;
    inverse.fg = TerminalColor::Idx(1);
    let row = vec![TerminalSpan { text: "abc".to_owned(), style: inverse }];
    let shown = terminal_row_spans(&row, None, &Vec::new(), &Vec::new());
    assert_eq!(shown.len(), 1);
    assert_eq!(shown[0].style.bg, Some(Color::Red));
    let shown = terminal_row_spans(&row, Some((1, 5)), &vec![(0, 1, true)], &Vec::new());
    assert_eq!(plain_text(&shown), "abc  ");
    assert_eq!(shown[0].style.bg, Some(style::search_active_bg()));
    let linked = terminal_row_spans(&row, None, &Vec::new(), &vec![(0, 2)]);
    assert!(linked[0].style.underlined);
    assert!(!linked[1].style.underlined);
}

#[test]
fn a_terminal_is_drawn_in_its_pane() {
    let mut shell = ShellPanel::new();
    shell.process_output(b"$ ls");
    let pane = TerminalPane {
        active: true,
        split: true,
        focused: true,
        overlays: vec![RowOverlay { selection: Some((0, 2)), found: vec![], links: vec![] }],
    };
    let (ops, resized) = draw_terminal_pane(&mut shell, &pane, rect(10, 5, 20, 3));
    assert_eq!(resized, Some((3, 20)));
    assert_eq!(shell.size(), (3, 20));
    assert_eq!(lines(&ops), ["$ ls", "", ""]);
    assert_eq!(ops[1], DrawOp::Cursor { x: 14, y: 5 });
    let (ops, resized) = draw_terminal_pane(&mut shell, &pane, rect(10, 5, 20, 3));
    assert_eq!(resized, None);
    assert_eq!(ops.len(), 2);
    let (ops, resized) = draw_terminal_pane(&mut shell, &pane, rect(10, 5, 0, 3));
    assert!(ops.is_empty());
    assert_eq!(resized, None);
}

fn terminal_panel(visible: Vec<usize>) -> TerminalPanel {
    TerminalPanel {
        maximized: false,
        focused: true,
        resizing: false,
        title: TerminalTitle {
            title: "sh".to_owned(),
            cwd: ".".to_owned(),
            exited: false,
            exit_label: None,
            scrollback: 0,
            alternate_screen: true,
            bracketed_paste: false,
            mouse_mode: MouseProtocolMode::AnyMotion,
            search: Some((1, 3)),
            split: true,
        },
        row: TerminalRow {
            terminals: vec![
                TerminalLabel { title: "sh".to_owned(), exited: false, exit_label: None },
                TerminalLabel { title: "sh".to_owned(), exited: false, exit_label: None },
            ],
            active: 1,
            hover: HoverTarget::Nothing,
        },
        visible,
    }
}

#[test]
fn the_terminal_panel_has_one_or_two_panes() {
    let area = rect(0, 0, 83, 12);
    let (areas, drawing) = draw_terminal(&terminal_panel(vec![0, 1]), area);
    assert_eq!(areas.tabs, Some(rect(1, 1, 81, 1)));
    assert_eq!(areas.body, rect(1, 2, 81, 9));
    let (left, middle, right) = areas.halves.unwrap();
    assert_eq!(middle.width, 1);
    assert_eq!(left.width + right.width, 80);
    assert_eq!(drawing.panes, vec![(left, 0), (right, 1)]);
    assert_eq!(drawing.resize, Some(rect(0, 0, 83, 1)));
    match &drawing.ops[0] {
        DrawOp::Panel { title, .. } => assert_eq!(
            title,
            " Terminal  sh  cwd:.  live  mode:alt mouse:any  find:1/3  split  F6 focus  F7 new  F8 next  F9 close  F12 max "
        ),
        _ => panic!("a panel is expected"),
    }
    assert_eq!(lines(&drawing.ops), vec!["│"; 9]);
    let (areas, drawing) = draw_terminal(&terminal_panel(vec![0, 1]), rect(0, 0, 30, 12));
    assert_eq!(areas.halves, None);
    assert_eq!(drawing.panes, vec![(areas.body, 1)]);
    let (_, drawing) = draw_terminal(&terminal_panel(vec![1]), rect(0, 0, 30, 2));
    assert_eq!(drawing.ops.len(), 1);
    assert!(drawing.panes.is_empty());
}

fn marks() -> LineMarks {
    LineMarks {
        bookmarked: false,
        folded: false,
        fold_end: None,
        problem: None,
        highlights: Vec::new(),
    }
}

fn editor_pane(text: &[&str]) -> EditorPane {
    EditorPane {
        number: 0,
        split: false,
        focused: true,
        word_wrap: false,
        needle: None,
        path: path(&["w", "main.rs"]),
        first_line: None,
        lines: text.iter().map(|line| line.to_string()).collect(),
        rows: (0..text.len())
            .map(|line| VisualRow { line, start_col: 0, continuation: false })
            .collect(),
        scroll: 0,
        horizontal_scroll: 0,
        selections: Vec::new(),
        cursors: Vec::new(),
        cursor_line: 0,
        cursor_col: 0,
        marks: Vec::new(),
    }
}

#[test]
fn the_gutter_is_as_wide_as_the_numbers() {
    assert_eq!(editor_gutter_width(0), 6);
    assert_eq!(editor_gutter_width(999), 6);
    assert_eq!(editor_gutter_width(1000), 7);
    assert_eq!(code_width(rect(0, 0, 30, 5), 10), 22);
    assert_eq!(code_width(rect(0, 0, 6, 5), 10), 0);
    let lines = vec!["ab".to_owned(), "abcdef".to_owned()];
    assert_eq!(max_horizontal_scroll(&lines, 4), 2);
    assert_eq!(max_horizontal_scroll(&lines, 9), 0);
    assert_eq!(max_horizontal_scroll(&lines, 0), 0);
}

#[test]
fn a_pane_shows_its_lines() {
    let mut pane = editor_pane(&["fn main() {", "    x();", "}"]);
    pane.marks = vec![
        LineMarks { folded: true, fold_end: Some(2), bookmarked: true, ..marks() },
        LineMarks { problem: Some(ProblemSeverity::Error), ..marks() },
    ];
    pane.cursors = vec![(2, 1)];
    pane.cursor_line = 2;
    pane.cursor_col = 1;
    let area = rect(0, 0, 50, 6);
    let plan = plan_pane(&pane, area);
    assert_eq!((plan.first_line, plan.end_line), (0, 3));
    assert_eq!(plan.columns, 42);
    let ops = draw_highlighted_pane(&pane, area, &plan, &Vec::new());
    assert_eq!(
        lines(&ops),
        ["B  1 +fn main() {  ... 2 folded line(s)", "   2 E    x();", "   3  } "]
    );
    let rows = match &ops[1] {
        DrawOp::Lines { lines, .. } => lines,
        _ => panic!("lines are expected"),
    };
    assert_eq!(rows[1].style, style::problem_line_style(ProblemSeverity::Error));
    assert_eq!(rows[2].spans.last(), Some(&span(" ", style::cursor_style())));
}

#[test]
fn a_pane_is_scrolled_and_wrapped() {
    let mut pane = editor_pane(&["0123456789", "abc"]);
    pane.horizontal_scroll = 100;
    let area = rect(0, 0, 12, 4);
    let plan = plan_pane(&pane, area);
    assert_eq!(plan.columns, 4);
    assert_eq!(plan.horizontal_scroll, 6);
    let ops = draw_highlighted_pane(&pane, area, &plan, &Vec::new());
    assert_eq!(lines(&ops), ["   1  6789", "   2  "]);
    pane.word_wrap = true;
    pane.rows = vec![
        VisualRow { line: 0, start_col: 0, continuation: false },
        VisualRow { line: 0, start_col: 4, continuation: true },
        VisualRow { line: 0, start_col: 8, continuation: true },
        VisualRow { line: 1, start_col: 0, continuation: false },
    ];
    pane.scroll = 1;
    let plan = plan_pane(&pane, area);
    assert_eq!((plan.first, plan.count), (1, 2));
    assert_eq!((plan.first_line, plan.end_line), (0, 1));
    let ops = draw_highlighted_pane(&pane, area, &plan, &Vec::new());
    assert_eq!(lines(&ops), ["     >4567", "     >89"]);
}

#[test]
fn selections_outweigh_cursors_and_finds() {
    let mut pane = editor_pane(&["abc abc"]);
    pane.needle = Some("abc".to_owned());
    pane.cursors = vec![(0, 0)];
    pane.selections = vec![SelectionRange { start: (0, 4), end: (0, 7) }];
    let area = rect(0, 0, 40, 3);
    let shown = |pane: &EditorPane| {
        let plan = plan_pane(pane, area);
        let ops = draw_highlighted_pane(pane, area, &plan, &Vec::new());
        match &ops[1] {
            DrawOp::Lines { lines, .. } => lines[0].spans[3..].to_vec(),
            _ => panic!("lines are expected"),
        }
    };
    let selected = shown(&pane);
    assert_eq!(selected.len(), 2);
    assert_eq!(selected[1].style.bg, Some(style::active_bg()));
    pane.selections.clear();
    assert_eq!(shown(&pane)[0], span("a", style::cursor_style()));
    pane.cursors.clear();
    assert_eq!(shown(&pane)[0].style.bg, Some(style::search_active_bg()));
    pane.focused = false;
    assert_eq!(shown(&pane)[0].style.bg, Some(style::search_bg()));
    pane.needle = Some(String::new());
    assert_eq!(shown(&pane), vec![span("abc abc", style::plain())]);
}

#[test]
fn source_text_is_highlighted_by_its_syntax() {
    let highlighter = SyntaxHighlighter::new();
    let rust = path(&["w", "main.rs"]);
    assert!(!highlighter.needs_first_line(&rust));
    assert!(!highlighter.needs_first_line(&path(&["w", "Makefile"])));
    assert!(highlighter.needs_first_line(&path(&["w", "unknown"])));
    let lines = vec!["/* a".to_owned(), "fn b */ fn c() {}".to_owned(), "x".to_owned()];
    let all = highlighter.highlight_visible(&rust, &None, &lines, 0, 9);
    assert_eq!(all.len(), 3);
    for (spans, line) in all.iter().zip(&lines) {
        assert_eq!(&plain_text(spans), line);
    }
    assert!(all[1].len() > 1);
    assert!(all[1].iter().all(|span| matches!(span.style.fg, Some(Color::Rgb(_, _, _)))));
    assert_ne!(all[1][0].style, all[1][all[1].len() - 1].style);
    let last = highlighter.highlight_visible(&rust, &None, &lines, 1, 2);
    assert_eq!(last, vec![all[1].clone()]);
    assert!(highlighter.highlight_visible(&rust, &None, &lines, 2, 2).is_empty());
    assert!(highlighter.highlight_visible(&rust, &None, &lines, 5, 9).is_empty());
    for start in 0..lines.len() {
        assert_eq!(highlighter.highlight_visible(&rust, &None, &lines, start, 9), all[start..]);
    }
    let script = path(&["w", "script"]);
    let first = Some("#!/bin/bash\n".to_owned());
    let shell = vec!["echo \"$x\"".to_owned()];
    let guessed = highlighter.highlight_visible(&script, &first, &shell, 0, 1);
    let plain = highlighter.highlight_visible(&script, &None, &shell, 0, 1);
    assert!(guessed[0].len() > plain[0].len());
}

#[test]
fn a_pane_is_drawn_in_the_colors_of_its_syntax() {
    let pane = editor_pane(&["fn main() {}"]);
    let highlighter = SyntaxHighlighter::new();
    let (plan, highlighted, ops) = draw_editor_pane(&pane, &highlighter, rect(0, 0, 40, 4));
    assert_eq!(plan.end_line, 1);
    assert_eq!(highlighted.len(), 1);
    assert!(highlighted[0].len() > 1);
    assert_eq!(lines(&ops), ["   1  fn main() {}"]);
    let (_, _, ops) = draw_editor_pane(&pane, &highlighter, rect(0, 0, 40, 2));
    assert_eq!(ops.len(), 1);
}

#[test]
fn the_editor_has_tabs_and_panes() {
    let row = TabRow {
        tabs: vec![tab("a", false, ExternalFileState::Clean)],
        active: Some(0),
        split: None,
        hover: HoverTarget::Nothing,
    };
    let mut editor = Editor { focused: true, tabs: row, panes: Vec::new() };
    let area = rect(32, 1, 88, 28);
    let (areas, drawing) = draw_editor(&editor, area);
    assert_eq!(areas.tabs, rect(32, 1, 88, 1));
    assert_eq!(areas.body, rect(32, 2, 88, 27));
    assert_eq!(drawing.empty, Some(rect(33, 3, 86, 25)));
    assert_eq!(labels(&drawing.ops)[2], "Click a file in Explorer to open it.");
    editor.panes = vec![(0, 3), (1, 5)];
    let (areas, drawing) = draw_editor(&editor, area);
    let (left, _, right) = areas.halves.unwrap();
    assert_eq!(drawing.panes.len(), 2);
    assert_eq!((drawing.panes[0].area, drawing.panes[0].tab), (left, 3));
    assert_eq!((drawing.panes[1].area, drawing.panes[1].tab), (right, 5));
    let (areas, drawing) = draw_editor(&editor, rect(0, 0, 53, 28));
    assert_eq!(areas.halves, None);
    assert_eq!(drawing.panes.len(), 1);
}

#[test]
fn the_whole_screen_is_drawn() {
    let mut workspace = Workspace {
        root: path(&["w"]),
        root_text: "/w".to_owned(),
        sidebar_label: "files".to_owned(),
        focus: FocusPanel::Editor,
        sidebar: Sidebar::Files(explorer()),
        terminal_rows: 10,
        editor: Editor {
            focused: true,
            tabs: TabRow {
                tabs: Vec::new(),
                active: None,
                split: None,
                hover: HoverTarget::Nothing,
            },
            panes: Vec::new(),
        },
        terminal: terminal_panel(vec![1]),
        hover: hover_state(),
        quick: None,
        status: status(),
    };
    let area = rect(0, 0, 120, 40);
    let drawing = tscode::ui::draw(&workspace, area);
    assert_eq!(drawing.areas.status, rect(0, 39, 120, 1));
    assert_eq!(labels(&drawing.title), [" tscode  /w  sidebar:files  focus:editor "]);
    assert_eq!(drawing.sidebar.height, 36);
    assert_eq!(drawing.outline_selected, None);
    assert!(drawing.editor.is_some());
    assert_eq!(drawing.terminal.panes.len(), 1);
    assert_eq!(drawing.hover.len(), 3);
    assert!(drawing.quick.is_none());
    workspace.terminal.maximized = true;
    let drawing = tscode::ui::draw(&workspace, area);
    assert!(drawing.editor.is_none());
    assert!(drawing.hover.is_empty());
    assert_eq!(drawing.terminal.resize, None);
}

use vimax::action::{EditorAction, Motion};
use vimax::core_actions::CoreOutcome;
use vimax::diagnostics::{Diagnostic, Severity};
use vimax::floating_panel::{FloatingPanel, PanelBuffer, PanelEvent, PanelKind, PanelPosition};
use vimax::highlight::{HighlightGroup, capture_name_to_highlight, highlight_to_group};
use vimax::hover::{diagnostic_hover_text, split_lines, strip_markdown_fences};
use vimax::info_panel::{HoverContents, InfoPanel, InfoPanelKind, format_diagnostics, parse_hover_response};
use vimax::keys::{Key, KeyModifiers, NamedKey};
use vimax::registers::Registers;
use vimax::vim::mode::VimMode;

fn key(p: &mut PanelBuffer, c: &str) -> PanelEvent {
    let k = Key::Character(String::from(c));
    p.handle_key(&k, &k, &KeyModifiers::default(), Some(c))
}

#[test]
fn capture_names_fall_back_to_parents() {
    assert_eq!(capture_name_to_highlight("function.method"), Some(1));
    assert_eq!(capture_name_to_highlight("keyword.control.rust"), Some(0));
    assert_eq!(capture_name_to_highlight("constant.numeric.float"), Some(5));
    assert_eq!(capture_name_to_highlight("constant"), Some(12));
    assert_eq!(capture_name_to_highlight("label"), Some(7));
    assert_eq!(capture_name_to_highlight("unknown.thing"), None);
    assert_eq!(capture_name_to_highlight(""), None);
    assert_eq!(capture_name_to_highlight(".keyword"), None);
}

#[test]
fn highlight_indices_map_to_groups() {
    assert_eq!(highlight_to_group(5), HighlightGroup::Number);
    assert_eq!(highlight_to_group(13), HighlightGroup::Escape);
    assert_eq!(highlight_to_group(99), HighlightGroup::Variable);
}

#[test]
fn floating_panel_keys() {
    let mut p = PanelBuffer::new("line one\nline two", "Diagnostics");
    assert!(p.buffer.is_read_only());
    assert!(matches!(key(&mut p, "j"), PanelEvent::Noop));
    assert_eq!(p.window.cursor, 9);
    assert!(matches!(key(&mut p, "k"), PanelEvent::Noop));
    assert_eq!(p.window.cursor, 0);
    assert!(matches!(key(&mut p, "y"), PanelEvent::Noop));
    match key(&mut p, "y") {
        PanelEvent::YankToRegister(t) => assert_eq!(t, "line one\n"),
        _ => panic!("expected a yank"),
    }
    assert!(matches!(key(&mut p, "i"), PanelEvent::Noop));
    assert_eq!(p.vim.mode(), VimMode::Normal);
    assert!(matches!(key(&mut p, "q"), PanelEvent::Dismiss));
    let esc = Key::Named(NamedKey::Escape);
    assert!(matches!(p.handle_key(&esc, &esc, &KeyModifiers::default(), None), PanelEvent::Dismiss));
}

#[test]
fn floating_panel_search() {
    let mut p = PanelBuffer::new("ab ab ab", "Hover");
    key(&mut p, "/");
    key(&mut p, "a");
    key(&mut p, "b");
    let enter = Key::Named(NamedKey::Enter);
    p.handle_key(&enter, &enter, &KeyModifiers::default(), None);
    assert_eq!(p.search_pattern, "ab");
    assert_eq!(p.window.cursor, 3);
    key(&mut p, "n");
    assert_eq!(p.window.cursor, 6);
    key(&mut p, "n");
    assert_eq!(p.window.cursor, 0);
}

#[test]
fn floating_panel_construction() {
    let pos = PanelPosition::AtCursor { line: 3, col: 4, scroll_y: 0, scroll_x: 0 };
    let mut f = FloatingPanel::new("text", "Hover", PanelKind::LspHover, pos);
    assert!(!f.focused);
    assert_eq!(f.title, "Hover");
    assert_eq!(f.kind, PanelKind::LspHover);
    f.focus();
    assert!(f.focused);
    assert_eq!(f.panel_buffer.buffer.text(), "text");
}

#[test]
fn info_panel_actions() {
    let mut p = InfoPanel::new("alpha beta\ngamma", InfoPanelKind::LspHover);
    assert_eq!(p.buffer.name(), "*hover*");
    let mut regs = Registers::new();
    let out = p.execute_action(&EditorAction::SetSearchPattern(String::from("beta")), &mut regs);
    assert!(matches!(out, CoreOutcome::Unhandled));
    assert_eq!(p.window.search_matches, vec![6]);
    p.execute_action(&EditorAction::SearchNext { count: 1 }, &mut regs);
    assert_eq!(p.window.cursor, 6);
    let out = p.execute_action(&EditorAction::InsertChar('x'), &mut regs);
    assert!(matches!(out, CoreOutcome::Handled));
    assert_eq!(p.status_message, "Cannot edit read-only buffer");
    assert_eq!(p.buffer.text(), "alpha beta\ngamma");
    p.execute_action(&EditorAction::MoveCursor { motion: Motion::Down, count: 1 }, &mut regs);
    assert_eq!(p.window.cursor, 16);
    p.execute_action(&EditorAction::ClearSearch, &mut regs);
    assert_eq!(p.search_pattern, "");
    assert!(p.window.search_matches.is_empty());
    p.scroll_to(100);
    assert_eq!(p.window.scroll_y, 1);
    p.resize(10, 20);
    assert_eq!(p.window.visible_lines, 10);
    p.pin();
    assert!(p.pinned);
}

fn diag(line: usize, sev: Severity, msg: &str, source: Option<&str>) -> Diagnostic {
    Diagnostic {
        line,
        col_start: 0,
        col_end: 1,
        severity: sev,
        message: String::from(msg),
        source: source.map(String::from),
    }
}

#[test]
fn diagnostic_hover_text_for_line() {
    let ds = vec![
        diag(2, Severity::Error, "bad thing\nmore", Some("rustc")),
        diag(3, Severity::Hint, "elsewhere", None),
        diag(2, Severity::Warning, "also", None),
    ];
    assert_eq!(
        diagnostic_hover_text(&ds, 2),
        Some(String::from("[E] bad thing\n    more\n    [rustc]\n[W] also"))
    );
    assert_eq!(diagnostic_hover_text(&ds, 5), None);
}

#[test]
fn lines_split_like_str_lines() {
    assert_eq!(split_lines("a\r\nb\n\nc\n"), vec!["a", "b", "", "c"]);
    assert_eq!(split_lines(""), Vec::<String>::new());
    assert_eq!(split_lines("x\r"), vec!["x\r"]);
    assert_eq!(split_lines("\n"), vec![""]);
}

#[test]
fn markdown_fences_removed() {
    assert_eq!(strip_markdown_fences("```rust\nfn x()\n  ```\ntext"), vec!["fn x()", "text"]);
    assert_eq!(strip_markdown_fences("`` not a fence"), vec!["`` not a fence"]);
}

#[test]
fn info_panel_text_formats() {
    let ds = vec![diag(0, Severity::Error, "msg", None), diag(1, Severity::Hint, "h", Some("clippy"))];
    assert_eq!(format_diagnostics(&ds), "[error] unknown\nmsg\n\n[hint] clippy\nh");
    assert_eq!(format_diagnostics(&[]), "");
    let arr = HoverContents::Array(vec![String::from("a"), String::from("b")]);
    assert_eq!(parse_hover_response(&arr), Some(String::from("a\n\nb")));
    assert_eq!(parse_hover_response(&HoverContents::Markup(String::new())), None);
    assert_eq!(parse_hover_response(&HoverContents::Scalar(String::from("s"))), Some(String::from("s")));
}

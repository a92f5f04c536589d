use vimax::action::EditorAction;
use vimax::buffer::Buffer;
use vimax::completions::{
    CompletionEvent, CompletionItem, CompletionKind, CompletionState, Debounce, LspCompletion, finalize_completions,
    is_completion_key, parse_lsp_response, should_trigger_completion, strip_snippet_placeholders,
};
use vimax::diagnostics::{
    Diagnostic, DiagnosticStore, LspDiagnostic, Severity, lsp_col_to_char_col, parse_one_diagnostic,
    parse_publish_diagnostics,
};
use vimax::keys::{Key, KeyModifiers, NamedKey};
use vimax::layout::{LayoutNode, SplitDirection};
use vimax::lsp::{HeaderLine, detect_language_from_path, frame_message, get_config, language_for_extension, parse_header_line};
use vimax::picker::{Picker, PickerEvent, PickerItem};
use vimax::toast::{ToastLevel, ToastManager};
use vimax::workspace::Workspace;

fn item(label: &str) -> CompletionItem {
    CompletionItem {
        label: String::from(label),
        kind: None,
        detail: None,
        filter_text: String::from(label),
        insert_text: String::from(label),
    }
}

fn labels(s: &mut CompletionState) -> Vec<String> {
    let mut out = Vec::new();
    for _ in 0..s.visible_count() {
        match s.accept_selected() {
            Some(CompletionEvent::Accept { insert_text, .. }) => out.push(insert_text),
            _ => panic!("expected an item"),
        }
        s.move_down();
    }
    out
}

#[test]
fn completion_filter_prefers_prefix_matches() {
    let items = vec![item("print"), item("sprint"), item("Printer"), item("other")];
    let mut s = CompletionState::new(items, 0, "pri");
    assert_eq!(labels(&mut s), vec!["Printer", "print", "sprint"]);
    assert_eq!(s.visible_count(), 3);
    assert_eq!(s.prefix_len(), 3);
    assert!(!s.is_empty());
}

#[test]
fn completion_typing_and_deleting() {
    let items = vec![item("alpha"), item("beta"), item("alphabet")];
    let mut s = CompletionState::new(items, 7, "");
    assert_eq!(s.trigger_offset(), 7);
    assert_eq!(s.visible_count(), 3);
    s.push_char('b');
    assert_eq!(labels(&mut s), vec!["beta", "alphabet"]);
    s.push_char('z');
    assert!(s.is_empty());
    assert!(s.pop_char());
    assert!(s.pop_char());
    assert!(!s.pop_char());
    assert_eq!(s.visible_count(), 3);
}

#[test]
fn completion_selection_wraps_and_accepts() {
    let items = vec![item("a1"), item("a2"), item("a3")];
    let mut s = CompletionState::new(items, 0, "a");
    s.move_up();
    match s.accept_selected() {
        Some(CompletionEvent::Accept { insert_text, prefix_len }) => {
            assert_eq!(insert_text, "a3");
            assert_eq!(prefix_len, 1);
        },
        _ => panic!("expected accept"),
    }
    s.move_down();
    s.move_down();
    match s.accept_selected() {
        Some(CompletionEvent::Accept { insert_text, .. }) => assert_eq!(insert_text, "a2"),
        _ => panic!("expected accept"),
    }
}

#[test]
fn completion_keys() {
    let mut s = CompletionState::new(vec![item("x1"), item("x2")], 0, "");
    let none = KeyModifiers::default();
    assert!(matches!(s.handle_key(&Key::Named(NamedKey::Escape), &none), CompletionEvent::Dismiss));
    assert!(matches!(s.handle_key(&Key::Named(NamedKey::ArrowDown), &none), CompletionEvent::Noop));
    let ctrl = KeyModifiers { control: true, alt: false, command: false };
    assert!(matches!(s.handle_key(&Key::Character(String::from("n")), &ctrl), CompletionEvent::Noop));
    match s.handle_key(&Key::Named(NamedKey::Tab), &none) {
        CompletionEvent::Accept { insert_text, .. } => assert_eq!(insert_text, "x1"),
        _ => panic!("expected accept"),
    }
    let mut empty = CompletionState::new(vec![item("x1")], 0, "q");
    assert!(matches!(empty.handle_key(&Key::Named(NamedKey::Enter), &none), CompletionEvent::Dismiss));
}

#[test]
fn completion_popup_keys_are_intercepted() {
    let none = KeyModifiers::default();
    let ctrl = KeyModifiers { control: true, alt: false, command: false };
    assert!(is_completion_key(&Key::Named(NamedKey::Escape), &none));
    assert!(is_completion_key(&Key::Named(NamedKey::Tab), &none));
    assert!(is_completion_key(&Key::Named(NamedKey::ArrowUp), &none));
    assert!(!is_completion_key(&Key::Named(NamedKey::Backspace), &none));
    assert!(is_completion_key(&Key::Character(String::from("n")), &ctrl));
    assert!(is_completion_key(&Key::Character(String::from("p")), &ctrl));
    assert!(!is_completion_key(&Key::Character(String::from("n")), &none));
    assert!(!is_completion_key(&Key::Character(String::from("x")), &ctrl));
}

#[test]
fn completion_trigger_characters() {
    let triggers = vec![String::from("."), String::from("::")];
    assert!(should_trigger_completion('a', &triggers));
    assert!(should_trigger_completion('7', &triggers));
    assert!(should_trigger_completion('_', &triggers));
    assert!(should_trigger_completion('.', &triggers));
    assert!(!should_trigger_completion(':', &triggers));
    assert!(!should_trigger_completion(' ', &triggers));
    assert!(!should_trigger_completion('.', &[]));
}

#[test]
fn completion_popup_follows_typing() {
    let triggers = vec![String::from(".")];
    // Outside insert mode the popup closes and the wait is dropped.
    let mut open = Some(CompletionState::new(vec![item("alpha"), item("beta")], 0, "a"));
    assert_eq!(finalize_completions(&mut open, false, &[], &triggers), Debounce::Cancel);
    assert!(open.is_none());

    // Typing narrows the popup and keeps it open while something matches.
    let mut open = Some(CompletionState::new(vec![item("alpha"), item("alps"), item("beta")], 0, "a"));
    let r = finalize_completions(&mut open, true, &[EditorAction::InsertChar('l')], &triggers);
    assert_eq!(r, Debounce::Keep);
    assert_eq!(open.as_ref().map(|c| c.visible_count()), Some(2));
    let r = finalize_completions(&mut open, true, &[EditorAction::InsertChar('z')], &triggers);
    assert_eq!(r, Debounce::Keep);
    assert!(open.is_none());

    // Backspace widens the popup, and closes it once nothing is typed.
    let mut open = Some(CompletionState::new(vec![item("alpha"), item("beta")], 0, "al"));
    finalize_completions(&mut open, true, &[EditorAction::DeleteCharBackward], &triggers);
    assert_eq!(open.as_ref().map(|c| c.prefix_len()), Some(1));
    finalize_completions(&mut open, true, &[EditorAction::DeleteCharBackward], &triggers);
    assert!(open.is_none());

    // With no popup, a word character or a trigger character asks for one.
    let mut closed: Option<CompletionState> = None;
    assert_eq!(finalize_completions(&mut closed, true, &[EditorAction::InsertChar('x')], &triggers), Debounce::Start);
    assert_eq!(finalize_completions(&mut closed, true, &[EditorAction::InsertChar('.')], &triggers), Debounce::Start);
    assert_eq!(finalize_completions(&mut closed, true, &[EditorAction::InsertChar(' ')], &triggers), Debounce::Keep);
    assert_eq!(finalize_completions(&mut closed, true, &[EditorAction::InsertNewline], &triggers), Debounce::Keep);
    assert!(closed.is_none());
}

#[test]
fn completion_kind_badges_and_codes() {
    assert_eq!(CompletionKind::Function.badge(), "fn");
    assert_eq!(CompletionKind::Other.badge(), "  ");
    assert_eq!(CompletionKind::from_lsp(2), CompletionKind::Function);
    assert_eq!(CompletionKind::from_lsp(22), CompletionKind::Type);
    assert_eq!(CompletionKind::from_lsp(20), CompletionKind::Constant);
    assert_eq!(CompletionKind::from_lsp(1), CompletionKind::Other);
}

#[test]
fn snippet_placeholders_stripped() {
    assert_eq!(strip_snippet_placeholders("foo($1)$0"), "foo()");
    assert_eq!(strip_snippet_placeholders("let ${1:x} = ${2:{a}};"), "let x = {a};");
    assert_eq!(strip_snippet_placeholders("a${3}b"), "ab");
    assert_eq!(strip_snippet_placeholders("cost $ and $x"), "cost $ and $x");
    assert_eq!(strip_snippet_placeholders("$12"), "2");
    assert_eq!(strip_snippet_placeholders("end$"), "end$");
}

#[test]
fn lsp_completion_response_parsed() {
    let raw = vec![
        LspCompletion {
            label: String::from("push"),
            kind: Some(2),
            detail: Some(String::from("fn(&mut self, T)")),
            filter_text: None,
            insert_text: Some(String::from("push(${1:value})")),
        },
        LspCompletion { label: String::from("pop"), kind: None, detail: None, filter_text: None, insert_text: None },
    ];
    let mut s = parse_lsp_response(Some(raw), 10, "pu").unwrap();
    assert_eq!(labels(&mut s), vec!["push(value)"]);
    match s.accept_selected() {
        Some(CompletionEvent::Accept { insert_text, prefix_len }) => {
            assert_eq!(insert_text, "push(value)");
            assert_eq!(prefix_len, 2);
        },
        _ => panic!("expected accept"),
    }
    assert!(parse_lsp_response(None, 0, "").is_none());
    assert!(parse_lsp_response(Some(Vec::new()), 0, "").is_none());
}

fn diag(line: usize, col: usize, sev: Severity, msg: &str) -> Diagnostic {
    Diagnostic { line, col_start: col, col_end: col + 1, severity: sev, message: String::from(msg), source: None }
}

#[test]
fn diagnostic_store_sorts_and_counts() {
    let mut store = DiagnosticStore::new();
    store.set_for_buffer(
        2,
        vec![diag(5, 0, Severity::Warning, "w"), diag(1, 4, Severity::Error, "e2"), diag(1, 2, Severity::Error, "e1")],
    );
    let got: Vec<(usize, usize)> = store.get_for_buffer(2).iter().map(|d| (d.line, d.col_start)).collect();
    assert_eq!(got, vec![(1, 2), (1, 4), (5, 0)]);
    assert_eq!(store.counts_for_buffer(2), (2, 1));
    assert_eq!(store.counts_for_buffer(0), (0, 0));
    assert_eq!(store.get_for_buffer(9).len(), 0);
    let mid: Vec<usize> = store.for_line_range(2, 2, 5).iter().map(|d| d.line).collect();
    assert_eq!(mid, vec![5]);
    assert_eq!(store.for_line_range(2, 6, 9).len(), 0);
    store.remove_buffer(0);
    assert_eq!(store.counts_for_buffer(1), (2, 1));
}

#[test]
fn lsp_columns_convert_from_utf16() {
    let b = Buffer::from_str("a\u{1F600}b\nxy", "u", "/tmp/u", false);
    assert_eq!(lsp_col_to_char_col(&b, 0, 3), 2);
    assert_eq!(lsp_col_to_char_col(&b, 0, 1), 1);
    assert_eq!(lsp_col_to_char_col(&b, 1, 9), 2);
    assert_eq!(lsp_col_to_char_col(&b, 5, 1), 0);
}

#[test]
fn lsp_diagnostics_parsed() {
    let b = Buffer::from_str("let x = 1;\nlet y = 2;\n", "m", "/tmp/m.rs", false);
    let one = LspDiagnostic {
        start_line: 0,
        start_char: 4,
        end_line: 0,
        end_char: 4,
        severity: Some(2),
        message: String::from("unused"),
        source: Some(String::from("rustc")),
    };
    let d = parse_one_diagnostic(&one, &b);
    assert_eq!((d.line, d.col_start, d.col_end), (0, 4, 5));
    assert_eq!(d.severity, Severity::Warning);
    let multi = LspDiagnostic {
        start_line: 1,
        start_char: 0,
        end_line: 2,
        end_char: 0,
        severity: Some(9),
        message: String::from("spans"),
        source: None,
    };
    let d = parse_one_diagnostic(&multi, &b);
    assert_eq!((d.line, d.col_start, d.col_end), (1, 0, 10));
    assert_eq!(d.severity, Severity::Error);
    let bufs = vec![Buffer::new(), b];
    let (id, diags) = parse_publish_diagnostics("file:///tmp/m.rs", Some(vec![one]), &bufs).unwrap();
    assert_eq!(id, 1);
    assert_eq!(diags.len(), 1);
    assert!(parse_publish_diagnostics("http://x", Some(Vec::new()), &bufs).is_none());
    assert!(parse_publish_diagnostics("file:///nope.rs", Some(Vec::new()), &bufs).is_none());
    assert!(parse_publish_diagnostics("file:///tmp/m.rs", None, &bufs).is_none());
}

fn pick(text: &str) -> PickerItem {
    PickerItem {
        match_text: String::from(text),
        display: String::from(text),
        detail: None,
        group: None,
        action: EditorAction::OpenFile(String::from(text)),
        preview_action: None,
    }
}

#[test]
fn picker_filters_and_reports() {
    let mut p = Picker::new("Files", vec![pick("main.rs"), pick("lib.rs"), pick("Cargo.toml")], Some(0));
    assert_eq!(p.status_line(), "Files (3/3): ");
    p.type_char('l');
    p.type_char('i');
    p.type_char('b');
    assert_eq!(p.filtered, vec![1]);
    assert_eq!(p.status_line(), "Files (1/3): lib");
    assert_eq!(p.selected_item().unwrap().display, "lib.rs");
    p.backspace();
    p.backspace();
    p.backspace();
    assert_eq!(p.filtered.len(), 3);
}

#[test]
fn picker_moves_within_bounds() {
    let items: Vec<PickerItem> = (0..15).map(|i| pick(&format!("file{}.rs", i))).collect();
    let mut p = Picker::new("Files", items, None);
    p.move_up();
    assert_eq!(p.selected, 0);
    for _ in 0..12 {
        p.move_down();
    }
    assert_eq!(p.selected, 12);
    assert_eq!(p.scroll_offset, 3);
    let vis = p.visible_items();
    assert_eq!(vis.len(), 10);
    assert_eq!(vis[0], (3, 3));
    for _ in 0..5 {
        p.move_down();
    }
    assert_eq!(p.selected, 14);
    for _ in 0..14 {
        p.move_up();
    }
    assert_eq!(p.selected, 0);
    assert_eq!(p.scroll_offset, 0);
}

#[test]
fn toast_lifecycle() {
    let mut m = ToastManager::new();
    assert!(!m.has_active_toasts());
    m.push("saved", None, ToastLevel::Success, 1000, 0);
    m.push("oops", Some(String::from("details")), ToastLevel::Error, 5000, 10);
    assert_eq!(m.toasts().len(), 2);
    m.tick(1000);
    assert_eq!(m.toasts()[0].dismissing_at, Some(1000));
    assert!(!m.toasts()[0].is_expired(1100));
    assert!(m.toasts()[0].is_expired(1200));
    m.tick(1200);
    assert_eq!(m.toasts().len(), 1);
    assert_eq!(m.toasts()[0].title, "oops");
    m.dismiss(1, 1300);
    assert_eq!(m.toasts()[0].dismissing_at, Some(1300));
    m.dismiss(1, 1400);
    assert_eq!(m.toasts()[0].dismissing_at, Some(1300));
    m.tick(1500);
    assert!(!m.has_active_toasts());
}

#[test]
fn toast_limit_fades_oldest() {
    let mut m = ToastManager::new();
    for i in 0..6u64 {
        m.push("t", None, ToastLevel::Info, 10_000, i);
    }
    assert_eq!(m.toasts().len(), 6);
    assert_eq!(m.toasts()[0].dismissing_at, Some(5));
    let active = m.toasts().iter().filter(|t| t.dismissing_at.is_none()).count();
    assert_eq!(active, 5);
}

#[test]
fn language_detection_and_config() {
    assert_eq!(language_for_extension(Some("rs")), Some(String::from("rust")));
    assert_eq!(language_for_extension(Some("py")), None);
    assert_eq!(language_for_extension(None), None);
    assert_eq!(detect_language_from_path("/a/b/main.rs"), Some(String::from("rust")));
    assert_eq!(detect_language_from_path("/a/b/Makefile"), None);
    let c = get_config("rust").unwrap();
    assert_eq!(c.cmd, "rust-analyzer");
    assert!(get_config("cobol").is_none());
}

#[test]
fn lsp_headers_and_framing() {
    assert!(matches!(parse_header_line("Content-Length: 42\r\n"), HeaderLine::ContentLength(Some(42))));
    assert!(matches!(parse_header_line("Content-Length: x\r\n"), HeaderLine::ContentLength(None)));
    assert!(matches!(parse_header_line("\r\n"), HeaderLine::End));
    assert!(matches!(parse_header_line("Content-Type: json\r\n"), HeaderLine::Other));
    assert_eq!(frame_message("{}"), "Content-Length: 2\r\n\r\n{}");
    assert_eq!(frame_message("é"), "Content-Length: 2\r\n\r\né");
}

#[test]
fn layout_split_and_neighbors() {
    let mut l = LayoutNode::single(0);
    assert_eq!(l.leaf_count(), 1);
    assert!(l.split_leaf(0, 1, SplitDirection::Vertical));
    assert!(l.split_leaf(1, 2, SplitDirection::Horizontal));
    assert_eq!(l.leaves(), vec![0, 1, 2]);
    assert_eq!(l.first_leaf(), 0);
    assert_eq!(l.neighbor(0, SplitDirection::Vertical, true), Some(1));
    assert_eq!(l.neighbor(2, SplitDirection::Horizontal, false), Some(1));
    assert_eq!(l.neighbor(2, SplitDirection::Vertical, false), Some(0));
    assert_eq!(l.neighbor(0, SplitDirection::Vertical, false), None);
    assert!(!l.split_leaf(7, 8, SplitDirection::Vertical));
    assert!(l.remove_leaf(1));
    l.fix_ids_after_remove(1);
    assert_eq!(l.leaves(), vec![0, 1]);
    assert!(!l.remove_leaf(5));
}

#[test]
fn workspace_split_then_close_restores_layout() {
    let mut ws = Workspace::new(0, String::from("/w"));
    ws.window_mut().cursor = 4;
    ws.split(SplitDirection::Vertical);
    assert_eq!(ws.windows.len(), 2);
    assert_eq!(ws.active_window, 1);
    assert_eq!(ws.cursor(), 4);
    ws.close_window();
    assert_eq!(ws.windows.len(), 1);
    assert_eq!(ws.active_window, 0);
    assert!(matches!(ws.layout, LayoutNode::Leaf(0)));
}

#[test]
fn workspace_buffer_switching() {
    let mut ws = Workspace::new(0, String::from("/w"));
    ws.window_mut().cursor = 50;
    ws.switch_buffer(3, 10);
    assert_eq!(ws.window().buffer_id, 3);
    assert_eq!(ws.cursor(), 9);
    ws.reset_window_for_buffer(1);
    assert_eq!(ws.window().buffer_id, 1);
    assert_eq!(ws.cursor(), 0);
    ws.fix_buffer_ids_after_remove(0, 2);
    assert_eq!(ws.window().buffer_id, 0);
}

#[test]
fn picker_keys_move_filter_select_and_cancel() {
    let none = KeyModifiers::default();
    let ctrl = KeyModifiers { control: true, alt: false, command: false };
    let mut p = Picker::new("Files", vec![pick("main.rs"), pick("lib.rs"), pick("Cargo.toml")], Some(2));
    assert!(matches!(p.handle_key(&Key::Named(NamedKey::ArrowDown), &none, None), PickerEvent::PreviewChanged(None)));
    assert_eq!(p.selected, 1);
    assert!(matches!(p.handle_key(&Key::Character(String::from("p")), &ctrl, None), PickerEvent::PreviewChanged(None)));
    assert_eq!(p.selected, 0);
    match p.handle_key(&Key::Named(NamedKey::Enter), &none, Some("\r")) {
        PickerEvent::Select(EditorAction::OpenFile(path)) => assert_eq!(path, "main.rs"),
        _ => panic!("expected the selected item's action"),
    }
    // Typed text narrows the list; control chars in it are left out.
    p.handle_key(&Key::Character(String::from("l")), &none, Some("l\u{1}ib"));
    assert_eq!(p.query, "lib");
    assert_eq!(p.status_line(), "Files (1/3): lib");
    p.handle_key(&Key::Named(NamedKey::Backspace), &none, None);
    assert_eq!(p.query, "li");
    assert!(matches!(p.handle_key(&Key::Named(NamedKey::Shift), &none, None), PickerEvent::Noop));
    assert!(matches!(p.handle_key(&Key::Named(NamedKey::Escape), &none, None), PickerEvent::Cancel(Some(2))));
    // With nothing listed, enter only closes.
    let mut empty = Picker::new("Files", vec![pick("a.rs")], None);
    empty.handle_key(&Key::Character(String::from("z")), &none, Some("zz"));
    assert!(matches!(empty.handle_key(&Key::Named(NamedKey::Enter), &none, None), PickerEvent::Cancel(None)));
}

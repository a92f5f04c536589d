use vimax::action::EditorAction;
use vimax::buffer::Buffer;
use vimax::completions::{CompletionItem, CompletionState};
use vimax::core_actions::{execute_core, search_next_in, search_prev_in, CoreOutcome};
use vimax::diagnostics::{parse_publish_diagnostics, LspDiagnostic};
use vimax::floating_panel::PanelKind;
use vimax::registers::Registers;
use vimax::routing::{action_route, key_target, panel_after_actions, ActionRoute, KeyTarget, PanelDecision};
use vimax::scrollbar::{scroll_y_from_thumb_y, scrollbar_target_line, thumb_geometry};
use vimax::vim::mode::VimMode;
use vimax::window::Window;

#[test]
fn undo_of_multibyte_insert_restores_text() {
    let mut b = Buffer::from_str("abc", "b", "b", false);
    b.start_edit_group(0);
    assert_eq!(b.insert_str(0, "é"), 1);
    b.finish_edit_group();
    assert_eq!(b.text(), "éabc");
    assert_eq!(b.undo(), Some(0));
    assert_eq!(b.text(), "abc");
    assert!(b.redo().is_some());
    assert_eq!(b.text(), "éabc");
}

#[test]
fn redo_of_multibyte_delete_removes_one_char() {
    let mut b = Buffer::from_str("éb", "b", "b", false);
    let (_, removed) = b.delete_range(0, 0, 1);
    assert_eq!(removed, "é");
    assert_eq!(b.text(), "b");
    assert!(b.undo().is_some());
    assert_eq!(b.text(), "éb");
    assert!(b.redo().is_some());
    assert_eq!(b.text(), "b");
    assert!(b.undo().is_some());
    assert_eq!(b.text(), "éb");
}

#[test]
fn typed_text_after_multibyte_char_undoes_as_one() {
    let mut b = Buffer::from_str("", "b", "b", false);
    b.start_edit_group(0);
    b.insert_str(0, "é");
    b.insert_char(1, 'x');
    b.insert_char(2, 'y');
    b.finish_edit_group();
    assert_eq!(b.text(), "éxy");
    assert_eq!(b.undo(), Some(0));
    assert_eq!(b.text(), "");
    assert_eq!(b.undo(), None);
}

#[test]
fn find_all_gives_char_indexes() {
    let b = Buffer::from_str("éa", "b", "b", false);
    assert_eq!(b.find_all("a"), vec![1]);
    let b = Buffer::from_str("ééxéx", "b", "b", false);
    assert_eq!(b.find_all("éx"), vec![1, 3]);
    assert_eq!(b.find_all(""), Vec::<usize>::new());
    let b = Buffer::from_str("aaa", "b", "b", false);
    assert_eq!(b.find_all("aa"), vec![0, 1]);
}

#[test]
fn enter_on_empty_line_inserts_one_newline() {
    let mut win = Window::new(0);
    let mut buf = Buffer::from_str("\n", "b", "b", false);
    let mut regs = Registers::new();
    let mut st = String::new();
    let out = execute_core(&mut win, &mut buf, &mut regs, &mut st, &EditorAction::InsertNewline);
    assert!(matches!(out, CoreOutcome::Handled));
    assert_eq!(buf.text(), "\n\n");
    assert_eq!(win.cursor, 1);
}

#[test]
fn enter_copies_spaces_and_tabs_only() {
    let mut win = Window::new(0);
    let mut buf = Buffer::from_str(" \tx", "b", "b", false);
    win.cursor = 3;
    let mut regs = Registers::new();
    let mut st = String::new();
    execute_core(&mut win, &mut buf, &mut regs, &mut st, &EditorAction::InsertNewline);
    assert_eq!(buf.text(), " \tx\n \t");
    assert_eq!(win.cursor, 6);
    let mut win = Window::new(0);
    let mut buf = Buffer::from_str("\u{3000}x", "b", "b", false);
    win.cursor = 2;
    execute_core(&mut win, &mut buf, &mut regs, &mut st, &EditorAction::InsertNewline);
    assert_eq!(buf.text(), "\u{3000}x\n");
    assert_eq!(win.cursor, 3);
}

#[test]
fn visual_selection_leaves_status_alone() {
    let mut win = Window::new(0);
    let mut buf = Buffer::from_str("hello", "b", "b", false);
    let mut regs = Registers::new();
    let mut st = String::new();
    let a = EditorAction::UpdateVisualSelection { anchor: 2, mode: VimMode::Visual };
    let out = execute_core(&mut win, &mut buf, &mut regs, &mut st, &a);
    assert!(matches!(out, CoreOutcome::Handled));
    assert_eq!(win.selection, Some((0, 3)));
    assert_eq!(win.cursor, 0);
    assert_eq!(buf.text(), "hello");
    assert_eq!(st, "");
}

#[test]
fn read_only_refusal_changes_nothing_else() {
    let mut win = Window::new(0);
    win.cursor = 2;
    let mut buf = Buffer::from_str("hello", "b", "b", true);
    let mut regs = Registers::new();
    regs.unnamed = String::from("kept");
    let mut st = String::new();
    let out = execute_core(&mut win, &mut buf, &mut regs, &mut st, &EditorAction::DeleteLine { count: 1 });
    assert!(matches!(out, CoreOutcome::Handled));
    assert_eq!(st, "Cannot edit read-only buffer");
    assert_eq!(buf.text(), "hello");
    assert_eq!(buf.version(), 0);
    assert!(!buf.is_modified());
    assert_eq!(buf.undo(), None);
    assert_eq!(win.cursor, 2);
    assert_eq!(regs.unnamed, "kept");
}

fn diag() -> LspDiagnostic {
    LspDiagnostic {
        start_line: 0,
        start_char: 0,
        end_line: 0,
        end_char: 1,
        severity: Some(1),
        message: String::from("m"),
        source: None,
    }
}

#[test]
fn publish_picks_first_buffer_of_that_file() {
    let bufs = vec![
        Buffer::new(),
        Buffer::from_str("x", "other.rs", "/tmp/other.rs", false),
        Buffer::from_str("y", "m.rs", "/tmp/m.rs", false),
        Buffer::from_str("z", "m.rs", "/tmp/m.rs", false),
    ];
    let (id, ds) = parse_publish_diagnostics("file:///tmp/m.rs", Some(vec![diag()]), &bufs).unwrap();
    assert_eq!(id, 2);
    assert_eq!(ds.len(), 1);
    let (id, _) = parse_publish_diagnostics("file:///tmp/./m.rs", Some(vec![diag()]), &bufs).unwrap();
    assert_eq!(id, 2);
    assert!(parse_publish_diagnostics("file:///tmp/n.rs", Some(vec![diag()]), &bufs).is_none());
}

#[test]
fn keys_go_to_the_topmost_taker() {
    assert_eq!(key_target(true, true, true, true), KeyTarget::Panel);
    assert_eq!(key_target(false, true, true, true), KeyTarget::Picker);
    assert_eq!(key_target(false, false, true, true), KeyTarget::Completions);
    assert_eq!(key_target(false, false, true, false), KeyTarget::Vim);
    assert_eq!(key_target(false, false, false, true), KeyTarget::Vim);
}

#[test]
fn panel_pins_on_repeat_and_closes_otherwise() {
    assert_eq!(panel_after_actions(PanelKind::LspHover, &Vec::new()), PanelDecision::Wait);
    assert_eq!(panel_after_actions(PanelKind::LspHover, &vec![EditorAction::LspHover]), PanelDecision::Focus);
    assert_eq!(
        panel_after_actions(PanelKind::Diagnostic, &vec![EditorAction::InsertNewline, EditorAction::ShowDiagnosticHover]),
        PanelDecision::Focus
    );
    assert_eq!(panel_after_actions(PanelKind::Diagnostic, &vec![EditorAction::LspHover]), PanelDecision::Dismiss);
    assert_eq!(panel_after_actions(PanelKind::LspHover, &vec![EditorAction::InsertNewline]), PanelDecision::Dismiss);
}

#[test]
fn actions_are_routed() {
    assert_eq!(action_route(&EditorAction::OpenBufferPicker), ActionRoute::OpenPicker);
    assert_eq!(action_route(&EditorAction::OpenDiagnosticsPicker), ActionRoute::OpenPicker);
    assert_eq!(action_route(&EditorAction::ShowDiagnosticHover), ActionRoute::DiagnosticHover);
    assert_eq!(action_route(&EditorAction::LspHover), ActionRoute::Hover);
    assert_eq!(action_route(&EditorAction::InsertNewline), ActionRoute::Editor);
}

#[test]
fn scrollbar_thumb_geometry() {
    assert_eq!(thumb_geometry(0, 10, 0, 200), (0, 200));
    assert_eq!(thumb_geometry(0, 50, 100, 200), (0, 100));
    assert_eq!(thumb_geometry(25, 50, 100, 200), (50, 100));
    assert_eq!(thumb_geometry(50, 50, 100, 200), (100, 100));
    assert_eq!(thumb_geometry(0, 1, 1000, 200), (0, 20));
    assert_eq!(thumb_geometry(0, 10, 5, 200), (0, 200));
}

#[test]
fn scrollbar_click_jumps_to_line() {
    assert_eq!(scrollbar_target_line(100, 200, 50), 25);
    assert_eq!(scrollbar_target_line(0, 200, 50), 0);
    assert_eq!(scrollbar_target_line(500, 200, 50), 49);
    assert_eq!(scrollbar_target_line(10, 0, 50), 0);
    assert_eq!(scrollbar_target_line(10, 200, 0), 0);
}

#[test]
fn scrollbar_drag_sets_scroll() {
    assert_eq!(scroll_y_from_thumb_y(50, 50, 100, 200), 25);
    assert_eq!(scroll_y_from_thumb_y(-5, 50, 100, 200), 0);
    assert_eq!(scroll_y_from_thumb_y(1000, 50, 100, 200), 50);
    assert_eq!(scroll_y_from_thumb_y(50, 100, 100, 200), 0);
}

fn item(label: &str) -> CompletionItem {
    CompletionItem {
        label: String::from(label),
        kind: None,
        detail: None,
        filter_text: String::from(label),
        insert_text: String::from(label),
    }
}

#[test]
fn completion_pop_undoes_push() {
    let items = vec![item("foo"), item("fob"), item("bar")];
    let mut s = CompletionState::new(items, 0, "f");
    assert_eq!(s.visible_count(), 2);
    s.push_char('o');
    assert_eq!(s.visible_count(), 2);
    s.push_char('o');
    assert_eq!(s.visible_count(), 1);
    assert!(s.pop_char());
    assert_eq!(s.visible_count(), 2);
    assert!(s.pop_char());
    assert!(s.pop_char());
    assert_eq!(s.visible_count(), 3);
    assert!(!s.pop_char());
}

#[test]
fn search_next_then_prev_returns() {
    let b = Buffer::from_str("ab ab ab", "b", "b", false);
    let mut win = Window::new(0);
    win.update_search_cache(&b, "ab");
    assert_eq!(win.search_matches, vec![0, 3, 6]);
    win.cursor = 3;
    search_next_in(&mut win, "ab", 1);
    assert_eq!(win.cursor, 6);
    search_prev_in(&mut win, "ab", 1);
    assert_eq!(win.cursor, 3);
    search_next_in(&mut win, "ab", 1);
    search_next_in(&mut win, "ab", 1);
    assert_eq!(win.cursor, 0);
    search_prev_in(&mut win, "ab", 1);
    assert_eq!(win.cursor, 6);
}

#[test]
fn undo_readiness_follows_the_text() {
    let mut b = Buffer::from_str("ab", "b", "b", false);
    assert!(b.undo_ready());
    assert!(b.redo_ready());
    b.paste_before(2, "x");
    assert_eq!(b.text(), "abx");
    assert!(b.undo_ready());
    b.delete_char_backward(3);
    assert_eq!(b.text(), "ab");
    assert!(!b.undo_ready());
    let mut b = Buffer::from_str("ab", "b", "b", false);
    b.paste_before(2, "x");
    assert_eq!(b.undo(), Some(2));
    assert!(b.redo_ready());
    b.delete_char_backward(2);
    b.delete_char_backward(1);
    assert_eq!(b.text(), "");
    assert!(!b.redo_ready());
}

fn selected_text(s: &CompletionState) -> String {
    match s.accept_selected() {
        Some(vimax::completions::CompletionEvent::Accept { insert_text, .. }) => insert_text,
        _ => panic!("expected a selection"),
    }
}

#[test]
fn completion_down_then_up_returns() {
    let items: Vec<CompletionItem> = (0..10).map(|i| item(&format!("x{}", i))).collect();
    let mut s = CompletionState::new(items, 0, "");
    for _ in 0..8 {
        s.move_down();
    }
    assert_eq!(selected_text(&s), "x8");
    s.move_up();
    assert_eq!(selected_text(&s), "x7");
    s.move_down();
    s.move_down();
    s.move_down();
    assert_eq!(selected_text(&s), "x0");
    s.move_up();
    assert_eq!(selected_text(&s), "x9");
    s.move_down();
    assert_eq!(selected_text(&s), "x0");
}

#[test]
fn search_prev_then_next_returns() {
    let b = Buffer::from_str("ab ab ab", "b", "b", false);
    let mut win = Window::new(0);
    win.update_search_cache(&b, "ab");
    win.cursor = 0;
    search_prev_in(&mut win, "ab", 1);
    assert_eq!(win.cursor, 6);
    search_next_in(&mut win, "ab", 1);
    assert_eq!(win.cursor, 0);
}

#[test]
fn search_cache_keeps_pattern_on_hit() {
    let b = Buffer::from_str("ab ab", "b", "b", false);
    let mut win = Window::new(0);
    win.update_search_cache(&b, "ab");
    win.update_search_cache(&b, "ab");
    assert_eq!(win.search_cached_pattern, "ab");
    assert_eq!(win.search_matches, vec![0, 3]);
}

fn pick_item(text: &str) -> vimax::picker::PickerItem {
    vimax::picker::PickerItem {
        match_text: String::from(text),
        display: String::from(text),
        detail: None,
        group: None,
        action: EditorAction::OpenFile(String::from(text)),
        preview_action: None,
    }
}

#[test]
fn picker_over_long_query_matches_nothing() {
    let long = "a".repeat(1025);
    let mut p = vimax::picker::Picker::new("t", vec![pick_item(&long), pick_item("b")], None);
    assert_eq!(p.filtered, vec![0, 1]);
    p.query = long.clone();
    p.update_filter();
    assert!(p.filtered.is_empty());
    p.query = "a".repeat(1024);
    p.update_filter();
    assert_eq!(p.filtered, vec![0]);
}

#[test]
fn picker_longest_query_scores_without_overflow() {
    let text = "a/".repeat(600);
    let mut p = vimax::picker::Picker::new("t", vec![pick_item(&text), pick_item("b")], None);
    p.query = "a/".repeat(512);
    p.update_filter();
    assert_eq!(p.filtered, vec![0]);
    p.query = "/a".repeat(512);
    p.update_filter();
    assert_eq!(p.filtered, vec![0]);
}

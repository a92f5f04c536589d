use vimax::action::{EditorAction, Motion};
use vimax::buffer::Buffer;
use vimax::editor::{Editor, EditorEffect, JumpList, LspRequestKind};

fn editor_with(texts: &[(&str, &str)]) -> Editor {
    let mut e = Editor::new(String::from("/tmp"));
    for (name, text) in texts {
        let path = format!("/tmp/{}", name);
        e.buffers.push(Buffer::from_str(text, name, &path, false));
    }
    e
}

fn cur_buf_id(e: &Editor) -> usize {
    e.workspace().window().buffer_id
}

#[test]
fn editor_new_waits_for_a_buffer() {
    let e = Editor::new(String::from("/work"));
    assert!(e.buffers.is_empty());
    assert_eq!(e.mode_display, "NORMAL");
    assert_eq!(e.workspaces.len(), 1);
    assert_eq!(e.workspace().cwd, "/work");
    assert_eq!(e.status_message, "");
}

#[test]
fn editor_insert_notifies_change() {
    let mut e = editor_with(&[("a.txt", "hello")]);
    assert!(e.execute(EditorAction::StartEditGroup).is_empty());
    let fx = e.execute(EditorAction::InsertChar('x'));
    assert!(matches!(fx.as_slice(), [EditorEffect::NotifyDidChange(0)]));
    assert_eq!(e.buffer().text(), "xhello");
    assert_eq!(e.cursor(), 1);
    let fx = e.execute(EditorAction::MoveCursor { motion: Motion::LineEnd, count: 1 });
    assert!(fx.is_empty());
    assert_eq!(e.cursor(), 6);
}

#[test]
fn editor_read_only_refuses_edit() {
    let mut e = Editor::new(String::from("/tmp"));
    e.buffers.push(Buffer::new_readonly("text", "*info*"));
    let fx = e.execute(EditorAction::InsertChar('x'));
    assert!(fx.is_empty());
    assert_eq!(e.status_message, "Cannot edit read-only buffer");
    assert_eq!(e.buffer().text(), "text");
}

#[test]
fn editor_save_requests_write_then_finishes() {
    let mut e = editor_with(&[("a.rs", "fn main() {}")]);
    e.execute(EditorAction::StartEditGroup);
    e.execute(EditorAction::InsertChar(' '));
    assert!(e.has_unsaved_changes());
    let fx = e.execute(EditorAction::Save);
    match fx.as_slice() {
        [EditorEffect::WriteFile { buffer_id, path, text, quit_after }] => {
            assert_eq!(*buffer_id, 0);
            assert_eq!(path, "/tmp/a.rs");
            assert_eq!(text, " fn main() {}");
            assert!(!*quit_after);
        },
        _ => panic!("expected a write"),
    }
    let fx = e.save_finished(0, false, Ok(()));
    assert!(matches!(fx.as_slice(), [EditorEffect::NotifyDidSave(0)]));
    assert_eq!(e.status_message, "Written");
    assert!(!e.has_unsaved_changes());
}

#[test]
fn editor_save_failure_reports_error() {
    let mut e = editor_with(&[("a.rs", "x")]);
    let fx = e.save_finished(0, false, Err(String::from("disk full")));
    assert!(fx.is_empty());
    assert_eq!(e.status_message, "Error: disk full");
}

#[test]
fn editor_save_without_path_or_read_only() {
    let mut e = Editor::new(String::from("/tmp"));
    e.buffers.push(Buffer::new());
    assert!(e.execute(EditorAction::Save).is_empty());
    assert_eq!(e.status_message, "Error: Cannot save buffer without a file path");
    let mut r = Editor::new(String::from("/tmp"));
    r.buffers.push(Buffer::new_readonly("x", "*hover*"));
    assert!(r.execute(EditorAction::WriteQuit).is_empty());
    assert_eq!(r.status_message, "Error: Cannot save read-only buffer");
}

#[test]
fn editor_write_quit_exits_from_last_window() {
    let mut e = editor_with(&[("a.rs", "x")]);
    let fx = e.execute(EditorAction::WriteQuit);
    assert!(matches!(fx.as_slice(), [EditorEffect::WriteFile { quit_after: true, .. }]));
    let fx = e.save_finished(0, true, Ok(()));
    assert!(matches!(fx.as_slice(), [EditorEffect::NotifyDidSave(0), EditorEffect::Exit]));
}

#[test]
fn editor_write_quit_closes_split() {
    let mut e = editor_with(&[("a.rs", "x")]);
    e.execute(EditorAction::VSplit);
    let fx = e.save_finished(0, true, Ok(()));
    assert!(matches!(fx.as_slice(), [EditorEffect::NotifyDidSave(0)]));
    assert_eq!(e.workspace().windows.len(), 1);
}

#[test]
fn editor_quit_variants() {
    let mut e = editor_with(&[("a.rs", "x")]);
    assert!(e.execute(EditorAction::Quit { force: false }).is_empty());
    assert_eq!(e.status_message, "Use :qa! to force quit all, or :wq to save and close");
    assert!(matches!(e.execute(EditorAction::Quit { force: true }).as_slice(), [EditorEffect::Exit]));
    assert!(matches!(e.execute(EditorAction::ForceQuitApp).as_slice(), [EditorEffect::Exit]));
}

#[test]
fn editor_close_window_guards_unsaved_changes() {
    let mut e = editor_with(&[("a.rs", "x")]);
    assert!(matches!(e.execute(EditorAction::CloseWindow).as_slice(), [EditorEffect::Exit]));
    e.execute(EditorAction::StartEditGroup);
    e.execute(EditorAction::InsertChar('y'));
    assert!(e.execute(EditorAction::CloseWindow).is_empty());
    assert_eq!(e.status_message, "Unsaved changes! Use :q! to force quit, or :wq to save and close");
}

#[test]
fn editor_split_then_close_window() {
    let mut e = editor_with(&[("a.rs", "abc")]);
    e.execute(EditorAction::SetCursor(2));
    e.execute(EditorAction::HSplit);
    assert_eq!(e.workspace().windows.len(), 2);
    assert_eq!(e.workspace().active_window, 1);
    assert_eq!(e.cursor(), 2);
    e.execute(EditorAction::FocusUp);
    assert_eq!(e.workspace().active_window, 0);
    e.execute(EditorAction::FocusDown);
    assert_eq!(e.workspace().active_window, 1);
    e.execute(EditorAction::FocusLeft);
    assert_eq!(e.workspace().active_window, 1);
    assert!(e.execute(EditorAction::CloseWindow).is_empty());
    assert_eq!(e.workspace().windows.len(), 1);
    assert_eq!(e.workspace().active_window, 0);
}

#[test]
fn editor_buffers_cycle_and_return() {
    let mut e = editor_with(&[("a", "one"), ("b", "two"), ("c", "three")]);
    e.execute(EditorAction::NextBuffer);
    assert_eq!(cur_buf_id(&e), 1);
    assert_eq!(e.status_message, "\"b\"");
    e.execute(EditorAction::PrevBuffer);
    assert_eq!(cur_buf_id(&e), 0);
    e.execute(EditorAction::PrevBuffer);
    assert_eq!(cur_buf_id(&e), 2);
    assert_eq!(e.status_message, "\"c\"");
    e.execute(EditorAction::NextBuffer);
    assert_eq!(cur_buf_id(&e), 0);
}

#[test]
fn editor_single_buffer_cycle_is_noop() {
    let mut e = editor_with(&[("a", "one")]);
    e.execute(EditorAction::NextBuffer);
    assert_eq!(cur_buf_id(&e), 0);
    assert_eq!(e.status_message, "");
}

#[test]
fn editor_close_buffer() {
    let mut e = editor_with(&[("a", "one"), ("b", "two")]);
    let fx = e.execute(EditorAction::CloseBuffer);
    match fx.as_slice() {
        [EditorEffect::NotifyDidClose(p)] => assert_eq!(p, "/tmp/a"),
        _ => panic!("expected a close notice"),
    }
    assert_eq!(e.buffers.len(), 1);
    assert_eq!(cur_buf_id(&e), 0);
    assert_eq!(e.status_message, "\"b\"");
    assert!(e.execute(EditorAction::CloseBuffer).is_empty());
    assert_eq!(e.status_message, "Cannot close last buffer");
}

#[test]
fn editor_close_modified_buffer_refused() {
    let mut e = editor_with(&[("a", "one"), ("b", "two")]);
    e.execute(EditorAction::StartEditGroup);
    e.execute(EditorAction::InsertChar('z'));
    let fx = e.close_buffer();
    assert!(fx.is_empty());
    assert_eq!(e.status_message, "Unsaved changes! Use :bd! to force close");
    assert_eq!(e.buffers.len(), 2);
}

#[test]
fn editor_jump_back_then_forward() {
    let mut e = editor_with(&[("a", "first buffer"), ("b", "second")]);
    e.execute(EditorAction::SetCursor(3));
    let fx = e.execute(EditorAction::LspGotoDefinition);
    assert!(matches!(
        fx.as_slice(),
        [EditorEffect::LspRequest { kind: LspRequestKind::Definition, buffer_id: 0, cursor: 3 }]
    ));
    e.execute(EditorAction::SwitchToBuffer(1));
    assert_eq!(cur_buf_id(&e), 1);
    assert_eq!(e.cursor(), 3);
    e.execute(EditorAction::JumpBackward);
    assert_eq!(cur_buf_id(&e), 0);
    assert_eq!(e.cursor(), 3);
    e.execute(EditorAction::JumpForward);
    assert_eq!(cur_buf_id(&e), 1);
    assert_eq!(e.cursor(), 3);
    e.execute(EditorAction::JumpForward);
    assert_eq!(cur_buf_id(&e), 1);
}

#[test]
fn editor_switch_to_missing_buffer_is_noop() {
    let mut e = editor_with(&[("a", "x")]);
    e.execute(EditorAction::SwitchToBuffer(7));
    assert_eq!(cur_buf_id(&e), 0);
}

#[test]
fn editor_search_reports_position() {
    let mut e = editor_with(&[("a", "abc abc abc")]);
    assert!(e.execute(EditorAction::SearchNext { count: 1 }).is_empty());
    assert_eq!(e.status_message, "No search pattern");
    e.execute(EditorAction::SetSearchPattern(String::from("abc")));
    assert_eq!(e.search_len(), 3);
    e.execute(EditorAction::SearchNext { count: 1 });
    assert_eq!(e.cursor(), 4);
    assert_eq!(e.status_message, "/abc [2/3]");
    e.execute(EditorAction::SearchNext { count: 1 });
    assert_eq!(e.status_message, "/abc [3/3]");
    e.execute(EditorAction::SearchNext { count: 1 });
    assert_eq!(e.cursor(), 0);
    assert_eq!(e.status_message, "/abc [1/3] [wrapped]");
    e.execute(EditorAction::SearchPrev { count: 1 });
    assert_eq!(e.cursor(), 8);
    assert_eq!(e.status_message, "?abc [3/3] [wrapped]");
    e.execute(EditorAction::SearchPrev { count: 2 });
    assert_eq!(e.cursor(), 0);
    assert_eq!(e.status_message, "?abc [1/3]");
}

#[test]
fn editor_search_without_matches() {
    let mut e = editor_with(&[("a", "abc")]);
    e.execute(EditorAction::SetSearchPattern(String::from("zz")));
    e.execute(EditorAction::SearchPrev { count: 1 });
    assert_eq!(e.status_message, "?zz [0/0]");
    assert_eq!(e.cursor(), 0);
    e.execute(EditorAction::ClearSearch);
    assert_eq!(e.search_pattern, "");
    assert_eq!(e.status_message, "");
    assert!(e.workspace().window().search_matches.is_empty());
}

#[test]
fn editor_open_file_reads_then_shows() {
    let mut e = editor_with(&[("a", "x")]);
    let fx = e.execute(EditorAction::OpenFile(String::from("/tmp/notes.txt")));
    match fx.as_slice() {
        [EditorEffect::ReadFile { path, position: None }] => assert_eq!(path, "/tmp/notes.txt"),
        _ => panic!("expected a read"),
    }
    let fx = e.file_read("/tmp/notes.txt", Ok(String::from("some notes")), None);
    assert!(fx.is_empty());
    assert_eq!(e.buffers.len(), 2);
    assert_eq!(cur_buf_id(&e), 1);
    assert_eq!(e.buffer().text(), "some notes");
    assert_eq!(e.buffer().name(), "notes.txt");
    assert_eq!(e.status_message, "\"/tmp/notes.txt\"");
    e.execute(EditorAction::SwitchToBuffer(0));
    let fx = e.open_file("/tmp/notes.txt");
    assert!(fx.is_empty());
    assert_eq!(cur_buf_id(&e), 1);
}

#[test]
fn editor_open_rust_file_starts_language_server() {
    let mut e = Editor::new(String::from("/tmp"));
    let fx = e.file_read("/tmp/main.rs", Ok(String::from("fn main() {}\n")), None);
    assert!(matches!(fx.as_slice(), [EditorEffect::NotifyDidOpen(0)]));
    assert_eq!(e.buffers.len(), 1);
}

#[test]
fn editor_open_failure_reports_error() {
    let mut e = editor_with(&[("a", "abc\ndef")]);
    let fx = e.file_read("/tmp/missing", Err(String::from("not found")), Some((1, 2)));
    assert!(fx.is_empty());
    assert_eq!(e.status_message, "Error opening file: not found");
    assert_eq!(e.cursor(), 6);
}

#[test]
fn editor_open_file_at_position_of_open_buffer() {
    let mut e = editor_with(&[("a", "abc\ndef\nghi"), ("b", "x")]);
    e.execute(EditorAction::SwitchToBuffer(1));
    let fx = e.execute(EditorAction::OpenFileAtPosition { path: String::from("/tmp/a"), line: 2, col: 1 });
    assert!(fx.is_empty());
    assert_eq!(cur_buf_id(&e), 0);
    assert_eq!(e.cursor(), 9);
}

#[test]
fn editor_system_copy_and_paste() {
    let mut e = editor_with(&[("a", "one\ntwo")]);
    let fx = e.execute(EditorAction::SystemCopy);
    match fx.as_slice() {
        [EditorEffect::SetClipboard(t)] => assert_eq!(t, "one\n"),
        _ => panic!("expected clipboard text"),
    }
    assert_eq!(e.registers.unnamed, "one\n");
    assert!(matches!(e.execute(EditorAction::SystemPaste).as_slice(), [EditorEffect::PasteFromClipboard]));
    let fx = e.paste_from_clipboard("zz");
    assert!(matches!(fx.as_slice(), [EditorEffect::NotifyDidChange(0)]));
    assert_eq!(e.buffer().text(), "zzone\ntwo");
    assert_eq!(e.cursor(), 2);
    assert!(e.paste_from_clipboard("").is_empty());
}

#[test]
fn editor_lsp_request_unanswered() {
    let mut e = editor_with(&[("a", "x")]);
    e.lsp_request_answered(true);
    assert_eq!(e.status_message, "");
    e.lsp_request_answered(false);
    assert_eq!(e.status_message, "LSP not ready");
}

#[test]
fn editor_buffer_list_marks_modified() {
    let mut e = editor_with(&[("a", "x"), ("b", "y")]);
    e.execute(EditorAction::StartEditGroup);
    e.execute(EditorAction::InsertChar('q'));
    let list = e.buffer_list();
    assert_eq!(list, vec![(0, String::from("a [+]")), (1, String::from("b"))]);
}

#[test]
fn editor_set_mode_and_status() {
    let mut e = editor_with(&[("a", "x")]);
    e.execute(EditorAction::SetMode(String::from("INSERT")));
    assert_eq!(e.mode_display, "INSERT");
    e.execute(EditorAction::SetStatusMessage(String::from("hi")));
    assert_eq!(e.status_message, "hi");
    assert!(e.execute(EditorAction::OpenBufferPicker).is_empty());
}

#[test]
fn editor_keeps_cursor_visible() {
    let text = "l\n".repeat(100);
    let mut e = editor_with(&[("a", &text)]);
    e.execute(EditorAction::SetCursor(160));
    e.ensure_cursor_visible();
    assert_eq!(e.workspace().window().scroll_y, 80 + 5 + 1 - 40);
    e.update_search_cache();
    assert!(e.workspace().window().search_matches.is_empty());
}

#[test]
fn jump_list_walks_places() {
    let mut j = JumpList::new();
    assert_eq!(j.backward(0, 0), None);
    j.push(0, 5);
    j.push(1, 7);
    assert_eq!(j.backward(2, 9), Some((1, 7)));
    assert_eq!(j.backward(2, 9), Some((0, 5)));
    assert_eq!(j.backward(2, 9), None);
    assert_eq!(j.forward(), Some((1, 7)));
    assert_eq!(j.forward(), Some((2, 9)));
    assert_eq!(j.forward(), None);
}

#[test]
fn editor_search_in_multibyte_text() {
    let mut e = editor_with(&[("a", "ééb éb")]);
    e.execute(EditorAction::SetSearchPattern(String::from("éb")));
    assert_eq!(e.search_len(), 2);
    e.execute(EditorAction::SearchNext { count: 1 });
    assert_eq!(e.cursor(), 1);
    e.execute(EditorAction::SearchNext { count: 1 });
    assert_eq!(e.cursor(), 4);
}

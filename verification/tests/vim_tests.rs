use vimax::action::{EditorAction, Motion};
use vimax::buffer::Buffer;
use vimax::keys::{Key, KeyModifiers, NamedKey};
use vimax::vim::input::{History, InputState, TextObject, parse_text_object, resolve_text_object};
use vimax::vim::keymap::{Command, KeyPress, KeymapLookup, Keymaps, leader_key};
use vimax::vim::mode::VimMode;
use vimax::vim::VimLayer;

fn ch(c: &str) -> Key {
    Key::Character(String::from(c))
}

fn press(vim: &mut VimLayer, c: &str, buffer: &Buffer, cursor: usize) -> Vec<EditorAction> {
    let k = ch(c);
    vim.handle_key(&k, &k, &KeyModifiers::default(), Some(c), buffer, cursor)
}

fn press_named(vim: &mut VimLayer, n: NamedKey, buffer: &Buffer, cursor: usize) -> Vec<EditorAction> {
    let k = Key::Named(n);
    vim.handle_key(&k, &k, &KeyModifiers::default(), None, buffer, cursor)
}

#[test]
fn keymap_lookup_sequences() {
    let maps = Keymaps::new();
    let normal = maps.for_mode(VimMode::Normal);
    assert!(matches!(normal.lookup(&[KeyPress::char('g')]), KeymapLookup::Pending));
    assert!(matches!(
        normal.lookup(&[KeyPress::char('g'), KeyPress::char('g')]),
        KeymapLookup::Match(Command::CursorMoveToStart)
    ));
    assert!(matches!(normal.lookup(&[KeyPress::char('z')]), KeymapLookup::NoMatch));
    assert!(matches!(
        normal.lookup(&[leader_key(), KeyPress::char('b'), KeyPress::char('b')]),
        KeymapLookup::Match(Command::PickerBuffers)
    ));
    let global = maps.global();
    assert!(matches!(global.lookup(&[KeyPress::char('o').ctrl()]), KeymapLookup::Match(Command::JumpBackward)));
    assert!(matches!(global.lookup(&[KeyPress::char('w').ctrl()]), KeymapLookup::Pending));
    let visual = maps.for_mode(VimMode::Visual);
    assert!(matches!(visual.lookup(&[KeyPress::char('d')]), KeymapLookup::Match(Command::VisualDelete)));
    let insert = maps.for_mode(VimMode::Insert);
    assert!(matches!(
        insert.lookup(&[KeyPress::named(NamedKey::Enter)]),
        KeymapLookup::Match(Command::InsertNewline)
    ));
}

#[test]
fn command_classification() {
    assert!(Command::OpDelete.is_operator());
    assert!(!Command::CursorMoveLeft.is_operator());
    assert!(matches!(Command::CursorMoveLeft.as_motion(), Some((Motion::Left, _))));
    assert_eq!(Command::MotionFindCharForwardBefore.find_char_params(), Some((true, true)));
    assert_eq!(Command::EditUndo.find_char_params(), None);
}

#[test]
fn ex_commands_resolve() {
    assert!(matches!(InputState::resolve_ex_command("w").as_slice(), [EditorAction::Save]));
    assert!(matches!(InputState::resolve_ex_command(" wq ").as_slice(), [EditorAction::WriteQuit]));
    assert!(matches!(InputState::resolve_ex_command("q!").as_slice(), [EditorAction::Quit { force: true }]));
    assert!(matches!(InputState::resolve_ex_command("qa!").as_slice(), [EditorAction::ForceQuitApp]));
    assert!(matches!(InputState::resolve_ex_command("bprevious").as_slice(), [EditorAction::PrevBuffer]));
    assert!(matches!(InputState::resolve_ex_command("ls").as_slice(), [EditorAction::OpenBufferPicker]));
    match InputState::resolve_ex_command("e  src/main.rs ").as_slice() {
        [EditorAction::OpenFile(p)] => assert_eq!(p, "src/main.rs"),
        _ => panic!("expected OpenFile"),
    }
    match InputState::resolve_ex_command("frob").as_slice() {
        [EditorAction::SetStatusMessage(m)] => assert_eq!(m, "Unknown command: frob"),
        _ => panic!("expected unknown command"),
    }
    match InputState::resolve_ex_command("e").as_slice() {
        [EditorAction::SetStatusMessage(m)] => assert_eq!(m, "Unknown command: e"),
        _ => panic!("expected unknown command"),
    }
}

#[test]
fn vim_dd_deletes_whole_line() {
    let buffer = Buffer::from_str("a\nb\nc", "t", "/tmp/t", false);
    let mut vim = VimLayer::new();
    assert!(press(&mut vim, "d", &buffer, 0).is_empty());
    let acts = press(&mut vim, "d", &buffer, 0);
    assert!(matches!(acts.as_slice(), [EditorAction::DeleteRange(r)] if r.start == 0 && r.end == 2));
}

#[test]
fn vim_count_prefix_motion() {
    let buffer = Buffer::from_str("a\nb\nc\nd\n", "t", "/tmp/t", false);
    let mut vim = VimLayer::new();
    assert!(press(&mut vim, "3", &buffer, 0).is_empty());
    let acts = press(&mut vim, "j", &buffer, 0);
    assert!(matches!(acts.as_slice(), [EditorAction::MoveCursor { motion: Motion::Down, count: 3 }]));
}

#[test]
fn vim_operator_text_object() {
    let buffer = Buffer::from_str("hello world", "t", "/tmp/t", false);
    let mut vim = VimLayer::new();
    assert!(press(&mut vim, "d", &buffer, 1).is_empty());
    assert!(press(&mut vim, "i", &buffer, 1).is_empty());
    let acts = press(&mut vim, "w", &buffer, 1);
    assert!(matches!(acts.as_slice(), [EditorAction::DeleteRange(r)] if r.start == 0 && r.end == 5));
}

#[test]
fn vim_insert_mode_round_trip() {
    let buffer = Buffer::from_str("x", "t", "/tmp/t", false);
    let mut vim = VimLayer::new();
    let acts = press(&mut vim, "i", &buffer, 0);
    assert!(matches!(
        acts.as_slice(),
        [EditorAction::StartEditGroup, EditorAction::ClearSearch, EditorAction::SetMode(m)] if m == "INSERT"
    ));
    assert_eq!(vim.mode(), VimMode::Insert);
    let acts = press(&mut vim, "q", &buffer, 0);
    assert!(matches!(acts.as_slice(), [EditorAction::InsertChar('q')]));
    let acts = press_named(&mut vim, NamedKey::Escape, &buffer, 1);
    assert!(matches!(acts.as_slice(), [EditorAction::FinishEditGroup, EditorAction::SetMode(m)] if m == "NORMAL"));
    assert_eq!(vim.mode(), VimMode::Normal);
}

#[test]
fn vim_command_line_save() {
    let buffer = Buffer::from_str("x", "t", "/tmp/t", false);
    let mut vim = VimLayer::new();
    press(&mut vim, ":", &buffer, 0);
    assert_eq!(vim.mode(), VimMode::Command);
    assert_eq!(vim.status_line_override(), Some(String::from(":")));
    press(&mut vim, "w", &buffer, 0);
    assert_eq!(vim.status_line_override(), Some(String::from(":w")));
    let acts = press_named(&mut vim, NamedKey::Enter, &buffer, 0);
    assert!(matches!(acts.as_slice(), [EditorAction::SetMode(m), EditorAction::Save] if m == "NORMAL"));
    assert_eq!(vim.mode(), VimMode::Normal);
    assert_eq!(vim.status_line_override(), None);
}

#[test]
fn vim_find_char_motion() {
    let buffer = Buffer::from_str("abcabc", "t", "/tmp/t", false);
    let mut vim = VimLayer::new();
    assert!(press(&mut vim, "f", &buffer, 0).is_empty());
    let acts = press(&mut vim, "c", &buffer, 0);
    assert!(matches!(
        acts.as_slice(),
        [EditorAction::MoveCursor { motion: Motion::FindChar { ch: 'c', forward: true, stop_before: false }, count: 1 }]
    ));
}

#[test]
fn vim_force_mode_normal() {
    let mut vim = VimLayer::new();
    vim.force_mode(VimMode::Insert);
    assert_eq!(vim.mode(), VimMode::Insert);
    vim.force_mode(VimMode::Normal);
    assert_eq!(vim.mode(), VimMode::Normal);
}

#[test]
fn vim_mode_labels() {
    assert_eq!(VimMode::Normal.label(), "NORMAL");
    assert_eq!(VimMode::VisualLine.label(), "V-LINE");
}

#[test]
fn text_objects_parse_and_resolve() {
    assert!(matches!(parse_text_object('i', 'w'), Some(TextObject::InnerWord)));
    assert!(matches!(parse_text_object('a', '"'), Some(TextObject::ADoubleQuote)));
    assert!(parse_text_object('x', 'w').is_none());
    let buffer = Buffer::from_str("(ab)", "t", "/tmp/t", false);
    assert_eq!(resolve_text_object(&buffer, 1, TextObject::InnerParen), (1, 3));
    assert_eq!(resolve_text_object(&buffer, 1, TextObject::AParen), (0, 4));
}

#[test]
fn history_up_down_restores_draft() {
    let mut h = History::new();
    h.push(String::from("a"));
    h.push(String::from("b"));
    let mut current = String::from("draft");
    h.up(&mut current);
    assert_eq!(current, "b");
    h.up(&mut current);
    assert_eq!(current, "a");
    h.up(&mut current);
    assert_eq!(current, "a");
    h.down(&mut current);
    assert_eq!(current, "b");
    h.down(&mut current);
    assert_eq!(current, "draft");
    h.down(&mut current);
    assert_eq!(current, "draft");
}

#[test]
fn history_empty_up_keeps_current() {
    let mut h = History::new();
    let mut current = String::from("x");
    h.up(&mut current);
    assert_eq!(current, "x");
    h.reset();
    h.down(&mut current);
    assert_eq!(current, "x");
}

//! From a command to the actions it asks of the editor.
use vstd::prelude::*;
use crate::action::{EditorAction, Motion, action_views};
use crate::buffer::Buffer;
use crate::vim::input::{InputState, input_ok, resolve_view};
use crate::vim::keymap::Command;

verus! {

/// A list of one action.
fn one(a: EditorAction) -> (v: Vec<EditorAction>)
    ensures
        action_views(v@) == seq![a@],
{
    let ghost av = a@;
    let mut v = Vec::new();
    v.push(a);
    assert(action_views(v@) =~= seq![av]);
    v
}

/// No actions.
fn none() -> (v: Vec<EditorAction>)
    ensures
        action_views(v@) == Seq::<crate::action::ActionView>::empty(),
{
    let v: Vec<EditorAction> = Vec::new();
    assert(action_views(v@) =~= Seq::<crate::action::ActionView>::empty());
    v
}

/// Runs `cmd`, `count` times where a count applies: the actions it asks of
/// the editor, and what it changes in the key state.
#[verifier::rlimit(40)]
pub fn resolve(cmd: Command, count: usize, input: &mut InputState, buffer: &Buffer, cursor: usize) -> (r: Vec<EditorAction>)
    requires
        buffer.wf(),
        input_ok(old(input)@, buffer@, cursor as int),
    ensures
        (final(input)@, action_views(r@)) == resolve_view(cmd, count, old(input)@, buffer@, cursor as int),
{
    match cmd {
        Command::CursorMoveLeft => one(EditorAction::MoveCursor { motion: Motion::Left, count }),
        Command::CursorMoveRight => one(EditorAction::MoveCursor { motion: Motion::Right, count }),
        Command::CursorMoveUp => one(EditorAction::MoveCursor { motion: Motion::Up, count }),
        Command::CursorMoveDown => one(EditorAction::MoveCursor { motion: Motion::Down, count }),
        Command::CursorMoveWordForward => one(EditorAction::MoveCursor { motion: Motion::WordForward, count }),
        Command::CursorMoveWordBackward => one(EditorAction::MoveCursor { motion: Motion::WordBackward, count }),
        Command::CursorMoveWordEnd => one(EditorAction::MoveCursor { motion: Motion::WordEnd, count }),
        Command::CursorMoveLineStart => one(EditorAction::MoveCursor { motion: Motion::LineStart, count: 1 }),
        Command::CursorMoveLineEnd => one(EditorAction::MoveCursor { motion: Motion::LineEnd, count: 1 }),
        Command::CursorMoveFirstNonWhitespace => one(EditorAction::MoveCursor { motion: Motion::FirstNonWhitespace, count: 1 }),
        Command::CursorMoveToStart => one(EditorAction::MoveCursor { motion: Motion::FileStart, count: 1 }),
        Command::CursorMoveToEnd => one(EditorAction::MoveCursor { motion: Motion::FileEnd, count: 1 }),
        Command::ScrollHalfDown => one(EditorAction::MoveCursor { motion: Motion::HalfPageDown, count }),
        Command::ScrollHalfUp => one(EditorAction::MoveCursor { motion: Motion::HalfPageUp, count }),
        Command::EditDeleteTillEol => one(EditorAction::DeleteTillEndOfLine),
        Command::EditDeleteCharForward => one(EditorAction::DeleteCharForward { count }),
        Command::EditDeleteLine => one(EditorAction::DeleteLine { count }),
        Command::EditUndo => one(EditorAction::Undo),
        Command::EditRedo => one(EditorAction::Redo),
        Command::EditPasteAfter => one(EditorAction::Paste { before: false }),
        Command::EditPasteBefore => one(EditorAction::Paste { before: true }),
        Command::InsertBackspace => one(EditorAction::DeleteCharBackward),
        Command::InsertDelete => one(EditorAction::DeleteCharForward { count: 1 }),
        Command::InsertNewline => one(EditorAction::InsertNewline),
        Command::InsertTab => one(EditorAction::InsertTab),
        Command::VimClearSearch => one(EditorAction::ClearSearch),
        Command::LspGotoDefinition => one(EditorAction::LspGotoDefinition),
        Command::LspGotoReferences => one(EditorAction::LspReferences),
        Command::LspGotoImplementation => one(EditorAction::LspImplementation),
        Command::LspGotoDeclaration => one(EditorAction::LspDeclaration),
        Command::SearchNext => one(EditorAction::SearchNext { count }),
        Command::SearchPrev => one(EditorAction::SearchPrev { count }),
        Command::JumpBackward => one(EditorAction::JumpBackward),
        Command::JumpForward => one(EditorAction::JumpForward),
        Command::BufferSave => one(EditorAction::Save),
        Command::BufferQuit => one(EditorAction::Quit { force: false }),
        Command::BufferForceQuit => one(EditorAction::Quit { force: true }),
        Command::BufferWriteQuit => one(EditorAction::WriteQuit),
        Command::WindowVsplit => one(EditorAction::VSplit),
        Command::WindowHsplit => one(EditorAction::HSplit),
        Command::WindowClose => one(EditorAction::CloseWindow),
        Command::WindowFocusLeft => one(EditorAction::FocusLeft),
        Command::WindowFocusRight => one(EditorAction::FocusRight),
        Command::WindowFocusUp => one(EditorAction::FocusUp),
        Command::WindowFocusDown => one(EditorAction::FocusDown),
        Command::SystemCopy => one(EditorAction::SystemCopy),
        Command::SystemCut => one(EditorAction::SystemCut),
        Command::SystemPaste => one(EditorAction::SystemPaste),
        Command::PickerDiagnostics => one(EditorAction::OpenDiagnosticsPicker),
        Command::LspHover => one(EditorAction::LspHover),
        Command::DiagnosticHover => one(EditorAction::ShowDiagnosticHover),
        Command::EditReplaceChar => {
            input.pending_replace = true;
            none()
        },
        Command::VimEnterInsertMode => input.enter_insert(),
        Command::VimEnterInsertAfter => input.enter_insert_after(),
        Command::VimEnterInsertLineEnd => input.enter_insert_line_end(),
        Command::VimEnterInsertLineStart => input.enter_insert_line_start(),
        Command::VimOpenBelow => input.open_below(),
        Command::VimOpenAbove => input.open_above(),
        Command::VimExitInsertMode => input.exit_insert(),
        Command::VimEnterCommandMode => {
            input.enter_command();
            none()
        },
        Command::VimEnterVisualMode => {
            input.enter_visual(cursor);
            none()
        },
        Command::VimEnterVisualLine => {
            input.enter_visual_line(cursor);
            none()
        },
        Command::VimExitVisualMode => input.exit_visual(),
        Command::VimEnterSearchMode => {
            input.enter_search();
            none()
        },
        Command::PickerBuffers => input.open_buffer_picker(),
        Command::PickerProjectFiles => input.open_project_files_picker(false),
        Command::PickerProjectFilesShowIgnored => input.open_project_files_picker(true),
        Command::OpDelete | Command::OpChange | Command::OpYank => none(),
        Command::VisualDelete => input.visual_delete(buffer, cursor),
        Command::VisualYank => input.visual_yank(buffer, cursor),
        Command::VisualChange => input.visual_change(buffer, cursor),
        Command::MotionFindCharForward => {
            input.pending_find_char = Some((true, false));
            none()
        },
        Command::MotionFindCharBackward => {
            input.pending_find_char = Some((false, false));
            none()
        },
        Command::MotionFindCharForwardBefore => {
            input.pending_find_char = Some((true, true));
            none()
        },
        Command::MotionFindCharBackwardBefore => {
            input.pending_find_char = Some((false, true));
            none()
        },
        Command::MotionRepeatFindChar => {
            if let Some((ch, forward, stop_before)) = input.last_find_char {
                one(EditorAction::MoveCursor { motion: Motion::FindChar { ch, forward, stop_before }, count })
            } else {
                none()
            }
        },
        Command::MotionRepeatFindCharReverse => {
            if let Some((ch, forward, stop_before)) = input.last_find_char {
                one(EditorAction::MoveCursor { motion: Motion::FindChar { ch, forward: !forward, stop_before }, count })
            } else {
                none()
            }
        },
    }
}

} // verus!

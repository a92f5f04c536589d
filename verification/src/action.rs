//! Cursor motions and the actions that key handling asks the editor to
//! perform.
use vstd::prelude::*;
use crate::vim::mode::VimMode;
use crate::strs::str_to_string;

verus! {

/// A cursor motion.
#[derive(Debug, Clone, Copy, PartialEq, Eq, Structural)]
pub enum Motion {
    Left,
    Right,
    Up,
    Down,
    WordForward,
    WordBackward,
    WordEnd,
    LineStart,
    LineEnd,
    FirstNonWhitespace,
    FileStart,
    FileEnd,
    FindChar { ch: char, forward: bool, stop_before: bool },
    HalfPageDown,
    HalfPageUp,
}

/// A half-open range of char indices.
#[derive(Debug, Clone, Copy, PartialEq, Eq, Structural)]
pub struct Range {
    pub start: usize,
    pub end: usize,
}

/// What the editor is asked to do.
#[derive(Debug, Clone)]
pub enum EditorAction {
    MoveCursor { motion: Motion, count: usize },
    SetCursor(usize),
    InsertChar(char),
    InsertNewline,
    InsertTab,
    DeleteTillEndOfLine,
    DeleteCharForward { count: usize },
    DeleteCharBackward,
    DeleteWordBackward,
    DeleteLine { count: usize },
    DeleteRange(Range),
    ChangeRange(Range),
    YankRange(Range),
    ReplaceChar(char),
    Paste { before: bool },
    Undo,
    Redo,
    StartEditGroup,
    FinishEditGroup,
    SetSearchPattern(String),
    SearchNext { count: usize },
    SearchPrev { count: usize },
    ClearSearch,
    Save,
    Quit { force: bool },
    WriteQuit,
    SetMode(String),
    SetStatusMessage(String),
    SetSelection(Option<(usize, usize)>),
    UpdateVisualSelection { anchor: usize, mode: VimMode },
    OpenFile(String),
    NextBuffer,
    PrevBuffer,
    CloseBuffer,
    VSplit,
    HSplit,
    CloseWindow,
    FocusLeft,
    FocusRight,
    FocusUp,
    FocusDown,
    SystemCopy,
    SystemCut,
    SystemPaste,
    ForceQuitApp,
    OpenBufferPicker,
    OpenFilePicker { show_ignored: bool, max_results: usize },
    OpenFileAtPosition { path: String, line: usize, col: usize },
    SwitchToBuffer(usize),
    LspGotoDefinition,
    LspReferences,
    LspImplementation,
    LspDeclaration,
    JumpBackward,
    JumpForward,
    OpenDiagnosticsPicker,
    LspApplyCompletion { delete_backward: usize, insert_text: String },
    LspHover,
    ShowDiagnosticHover,
}

/// An action as a value: the text of each string it carries.
pub enum ActionView {
    MoveCursor { motion: Motion, count: usize },
    SetCursor(usize),
    InsertChar(char),
    InsertNewline,
    InsertTab,
    DeleteTillEndOfLine,
    DeleteCharForward { count: usize },
    DeleteCharBackward,
    DeleteWordBackward,
    DeleteLine { count: usize },
    DeleteRange(Range),
    ChangeRange(Range),
    YankRange(Range),
    ReplaceChar(char),
    Paste { before: bool },
    Undo,
    Redo,
    StartEditGroup,
    FinishEditGroup,
    SetSearchPattern(Seq<char>),
    SearchNext { count: usize },
    SearchPrev { count: usize },
    ClearSearch,
    Save,
    Quit { force: bool },
    WriteQuit,
    SetMode(Seq<char>),
    SetStatusMessage(Seq<char>),
    SetSelection(Option<(usize, usize)>),
    UpdateVisualSelection { anchor: usize, mode: VimMode },
    OpenFile(Seq<char>),
    NextBuffer,
    PrevBuffer,
    CloseBuffer,
    VSplit,
    HSplit,
    CloseWindow,
    FocusLeft,
    FocusRight,
    FocusUp,
    FocusDown,
    SystemCopy,
    SystemCut,
    SystemPaste,
    ForceQuitApp,
    OpenBufferPicker,
    OpenFilePicker { show_ignored: bool, max_results: usize },
    OpenFileAtPosition { path: Seq<char>, line: usize, col: usize },
    SwitchToBuffer(usize),
    LspGotoDefinition,
    LspReferences,
    LspImplementation,
    LspDeclaration,
    JumpBackward,
    JumpForward,
    OpenDiagnosticsPicker,
    LspApplyCompletion { delete_backward: usize, insert_text: Seq<char> },
    LspHover,
    ShowDiagnosticHover,
}

impl View for EditorAction {
    type V = ActionView;

    open spec fn view(&self) -> ActionView {
        match *self {
            EditorAction::MoveCursor { motion, count } => ActionView::MoveCursor { motion: motion, count: count },
            EditorAction::SetCursor(x) => ActionView::SetCursor(x),
            EditorAction::InsertChar(x) => ActionView::InsertChar(x),
            EditorAction::InsertNewline => ActionView::InsertNewline,
            EditorAction::InsertTab => ActionView::InsertTab,
            EditorAction::DeleteTillEndOfLine => ActionView::DeleteTillEndOfLine,
            EditorAction::DeleteCharForward { count } => ActionView::DeleteCharForward { count: count },
            EditorAction::DeleteCharBackward => ActionView::DeleteCharBackward,
            EditorAction::DeleteWordBackward => ActionView::DeleteWordBackward,
            EditorAction::DeleteLine { count } => ActionView::DeleteLine { count: count },
            EditorAction::DeleteRange(x) => ActionView::DeleteRange(x),
            EditorAction::ChangeRange(x) => ActionView::ChangeRange(x),
            EditorAction::YankRange(x) => ActionView::YankRange(x),
            EditorAction::ReplaceChar(x) => ActionView::ReplaceChar(x),
            EditorAction::Paste { before } => ActionView::Paste { before: before },
            EditorAction::Undo => ActionView::Undo,
            EditorAction::Redo => ActionView::Redo,
            EditorAction::StartEditGroup => ActionView::StartEditGroup,
            EditorAction::FinishEditGroup => ActionView::FinishEditGroup,
            EditorAction::SetSearchPattern(x) => ActionView::SetSearchPattern(x@),
            EditorAction::SearchNext { count } => ActionView::SearchNext { count: count },
            EditorAction::SearchPrev { count } => ActionView::SearchPrev { count: count },
            EditorAction::ClearSearch => ActionView::ClearSearch,
            EditorAction::Save => ActionView::Save,
            EditorAction::Quit { force } => ActionView::Quit { force: force },
            EditorAction::WriteQuit => ActionView::WriteQuit,
            EditorAction::SetMode(x) => ActionView::SetMode(x@),
            EditorAction::SetStatusMessage(x) => ActionView::SetStatusMessage(x@),
            EditorAction::SetSelection(x) => ActionView::SetSelection(x),
            EditorAction::UpdateVisualSelection { anchor, mode } => ActionView::UpdateVisualSelection { anchor: anchor, mode: mode },
            EditorAction::OpenFile(x) => ActionView::OpenFile(x@),
            EditorAction::NextBuffer => ActionView::NextBuffer,
            EditorAction::PrevBuffer => ActionView::PrevBuffer,
            EditorAction::CloseBuffer => ActionView::CloseBuffer,
            EditorAction::VSplit => ActionView::VSplit,
            EditorAction::HSplit => ActionView::HSplit,
            EditorAction::CloseWindow => ActionView::CloseWindow,
            EditorAction::FocusLeft => ActionView::FocusLeft,
            EditorAction::FocusRight => ActionView::FocusRight,
            EditorAction::FocusUp => ActionView::FocusUp,
            EditorAction::FocusDown => ActionView::FocusDown,
            EditorAction::SystemCopy => ActionView::SystemCopy,
            EditorAction::SystemCut => ActionView::SystemCut,
            EditorAction::SystemPaste => ActionView::SystemPaste,
            EditorAction::ForceQuitApp => ActionView::ForceQuitApp,
            EditorAction::OpenBufferPicker => ActionView::OpenBufferPicker,
            EditorAction::OpenFilePicker { show_ignored, max_results } => ActionView::OpenFilePicker { show_ignored: show_ignored, max_results: max_results },
            EditorAction::OpenFileAtPosition { path, line, col } => ActionView::OpenFileAtPosition { path: path@, line: line, col: col },
            EditorAction::SwitchToBuffer(x) => ActionView::SwitchToBuffer(x),
            EditorAction::LspGotoDefinition => ActionView::LspGotoDefinition,
            EditorAction::LspReferences => ActionView::LspReferences,
            EditorAction::LspImplementation => ActionView::LspImplementation,
            EditorAction::LspDeclaration => ActionView::LspDeclaration,
            EditorAction::JumpBackward => ActionView::JumpBackward,
            EditorAction::JumpForward => ActionView::JumpForward,
            EditorAction::OpenDiagnosticsPicker => ActionView::OpenDiagnosticsPicker,
            EditorAction::LspApplyCompletion { delete_backward, insert_text } => ActionView::LspApplyCompletion { delete_backward: delete_backward, insert_text: insert_text@ },
            EditorAction::LspHover => ActionView::LspHover,
            EditorAction::ShowDiagnosticHover => ActionView::ShowDiagnosticHover,
        }
    }
}

/// A list of actions as values.
pub open spec fn action_views(s: Seq<EditorAction>) -> Seq<ActionView> {
    s.map_values(|a: EditorAction| a@)
}

impl EditorAction {
    /// The actions that change a buffer's text or its edit grouping.
    pub open spec fn is_mutation_spec(&self) -> bool {
        match self {
            EditorAction::InsertChar(_) | EditorAction::InsertNewline | EditorAction::InsertTab
            | EditorAction::DeleteTillEndOfLine | EditorAction::DeleteCharForward { .. }
            | EditorAction::DeleteCharBackward | EditorAction::DeleteWordBackward
            | EditorAction::DeleteLine { .. } | EditorAction::DeleteRange(_)
            | EditorAction::ChangeRange(_) | EditorAction::ReplaceChar(_)
            | EditorAction::Paste { .. } | EditorAction::Undo | EditorAction::Redo
            | EditorAction::StartEditGroup | EditorAction::FinishEditGroup
            | EditorAction::LspApplyCompletion { .. } => true,
            _ => false,
        }
    }

    /// Whether the action changes a buffer's text or its edit grouping.
    pub fn is_mutation(&self) -> (r: bool)
        ensures
            r == self.is_mutation_spec(),
    {
        match self {
            EditorAction::InsertChar(_) | EditorAction::InsertNewline | EditorAction::InsertTab
            | EditorAction::DeleteTillEndOfLine | EditorAction::DeleteCharForward { .. }
            | EditorAction::DeleteCharBackward | EditorAction::DeleteWordBackward
            | EditorAction::DeleteLine { .. } | EditorAction::DeleteRange(_)
            | EditorAction::ChangeRange(_) | EditorAction::ReplaceChar(_)
            | EditorAction::Paste { .. } | EditorAction::Undo | EditorAction::Redo
            | EditorAction::StartEditGroup | EditorAction::FinishEditGroup
            | EditorAction::LspApplyCompletion { .. } => true,
            _ => false,
        }
    }
}


/// A copy of an action.
pub fn copy_action(a: &EditorAction) -> (r: EditorAction)
    ensures
        r@ == a@,
{
    match a {
        EditorAction::MoveCursor { motion, count } => EditorAction::MoveCursor { motion: *motion, count: *count },
        EditorAction::SetCursor(x) => EditorAction::SetCursor(*x),
        EditorAction::InsertChar(x) => EditorAction::InsertChar(*x),
        EditorAction::InsertNewline => EditorAction::InsertNewline,
        EditorAction::InsertTab => EditorAction::InsertTab,
        EditorAction::DeleteTillEndOfLine => EditorAction::DeleteTillEndOfLine,
        EditorAction::DeleteCharForward { count } => EditorAction::DeleteCharForward { count: *count },
        EditorAction::DeleteCharBackward => EditorAction::DeleteCharBackward,
        EditorAction::DeleteWordBackward => EditorAction::DeleteWordBackward,
        EditorAction::DeleteLine { count } => EditorAction::DeleteLine { count: *count },
        EditorAction::DeleteRange(x) => EditorAction::DeleteRange(*x),
        EditorAction::ChangeRange(x) => EditorAction::ChangeRange(*x),
        EditorAction::YankRange(x) => EditorAction::YankRange(*x),
        EditorAction::ReplaceChar(x) => EditorAction::ReplaceChar(*x),
        EditorAction::Paste { before } => EditorAction::Paste { before: *before },
        EditorAction::Undo => EditorAction::Undo,
        EditorAction::Redo => EditorAction::Redo,
        EditorAction::StartEditGroup => EditorAction::StartEditGroup,
        EditorAction::FinishEditGroup => EditorAction::FinishEditGroup,
        EditorAction::SetSearchPattern(x) => EditorAction::SetSearchPattern(str_to_string(x.as_str())),
        EditorAction::SearchNext { count } => EditorAction::SearchNext { count: *count },
        EditorAction::SearchPrev { count } => EditorAction::SearchPrev { count: *count },
        EditorAction::ClearSearch => EditorAction::ClearSearch,
        EditorAction::Save => EditorAction::Save,
        EditorAction::Quit { force } => EditorAction::Quit { force: *force },
        EditorAction::WriteQuit => EditorAction::WriteQuit,
        EditorAction::SetMode(x) => EditorAction::SetMode(str_to_string(x.as_str())),
        EditorAction::SetStatusMessage(x) => EditorAction::SetStatusMessage(str_to_string(x.as_str())),
        EditorAction::SetSelection(x) => EditorAction::SetSelection(*x),
        EditorAction::UpdateVisualSelection { anchor, mode } => EditorAction::UpdateVisualSelection { anchor: *anchor, mode: *mode },
        EditorAction::OpenFile(x) => EditorAction::OpenFile(str_to_string(x.as_str())),
        EditorAction::NextBuffer => EditorAction::NextBuffer,
        EditorAction::PrevBuffer => EditorAction::PrevBuffer,
        EditorAction::CloseBuffer => EditorAction::CloseBuffer,
        EditorAction::VSplit => EditorAction::VSplit,
        EditorAction::HSplit => EditorAction::HSplit,
        EditorAction::CloseWindow => EditorAction::CloseWindow,
        EditorAction::FocusLeft => EditorAction::FocusLeft,
        EditorAction::FocusRight => EditorAction::FocusRight,
        EditorAction::FocusUp => EditorAction::FocusUp,
        EditorAction::FocusDown => EditorAction::FocusDown,
        EditorAction::SystemCopy => EditorAction::SystemCopy,
        EditorAction::SystemCut => EditorAction::SystemCut,
        EditorAction::SystemPaste => EditorAction::SystemPaste,
        EditorAction::ForceQuitApp => EditorAction::ForceQuitApp,
        EditorAction::OpenBufferPicker => EditorAction::OpenBufferPicker,
        EditorAction::OpenFilePicker { show_ignored, max_results } => EditorAction::OpenFilePicker { show_ignored: *show_ignored, max_results: *max_results },
        EditorAction::OpenFileAtPosition { path, line, col } => EditorAction::OpenFileAtPosition { path: str_to_string(path.as_str()), line: *line, col: *col },
        EditorAction::SwitchToBuffer(x) => EditorAction::SwitchToBuffer(*x),
        EditorAction::LspGotoDefinition => EditorAction::LspGotoDefinition,
        EditorAction::LspReferences => EditorAction::LspReferences,
        EditorAction::LspImplementation => EditorAction::LspImplementation,
        EditorAction::LspDeclaration => EditorAction::LspDeclaration,
        EditorAction::JumpBackward => EditorAction::JumpBackward,
        EditorAction::JumpForward => EditorAction::JumpForward,
        EditorAction::OpenDiagnosticsPicker => EditorAction::OpenDiagnosticsPicker,
        EditorAction::LspApplyCompletion { delete_backward, insert_text } => EditorAction::LspApplyCompletion { delete_backward: *delete_backward, insert_text: str_to_string(insert_text.as_str()) },
        EditorAction::LspHover => EditorAction::LspHover,
        EditorAction::ShowDiagnosticHover => EditorAction::ShowDiagnosticHover,
    }
}

} // verus!

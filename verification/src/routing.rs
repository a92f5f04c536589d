//! Where a key goes while things float over the text, and what the
//! actions of a key do to an open panel and to the application.
use vstd::prelude::*;
use crate::action::{ActionView, EditorAction};
use crate::floating_panel::PanelKind;

verus! {

/// What handles a key.
#[derive(Debug, Clone, Copy, PartialEq, Eq, Structural)]
pub enum KeyTarget {
    /// The focused panel, which takes every key.
    Panel,
    /// The open picker, which takes every key.
    Picker,
    /// The open completion popup, which takes its own keys.
    Completions,
    /// Vim key handling.
    Vim,
}

/// Where a key goes: a focused panel takes it, else an open picker, else
/// the completion popup when it is open and the key is one of its keys,
/// else vim key handling.
pub fn key_target(panel_focused: bool, picker_open: bool, completions_open: bool, completion_key: bool) -> (r:
    KeyTarget)
    ensures
        r == (if panel_focused {
            KeyTarget::Panel
        } else if picker_open {
            KeyTarget::Picker
        } else if completions_open && completion_key {
            KeyTarget::Completions
        } else {
            KeyTarget::Vim
        }),
{
    if panel_focused {
        KeyTarget::Panel
    } else if picker_open {
        KeyTarget::Picker
    } else if completions_open && completion_key {
        KeyTarget::Completions
    } else {
        KeyTarget::Vim
    }
}

/// What an open, unfocused panel does after a key.
#[derive(Debug, Clone, Copy, PartialEq, Eq, Structural)]
pub enum PanelDecision {
    /// The key began a sequence: keep the panel and do nothing more.
    Wait,
    /// The key asked again for what the panel shows: focus (pin) it.
    Focus,
    /// Anything else: close it, then carry out the actions.
    Dismiss,
}

/// Whether action `a` asks for what a panel of `kind` shows.
pub open spec fn retriggers(a: ActionView, kind: PanelKind) -> bool {
    (a is LspHover && kind == PanelKind::LspHover) || (a is ShowDiagnosticHover && kind == PanelKind::Diagnostic)
}

/// What an open, unfocused panel of `kind` does after a key whose
/// actions are `actions`.
pub fn panel_after_actions(kind: PanelKind, actions: &Vec<EditorAction>) -> (r: PanelDecision)
    ensures
        actions@.len() == 0 ==> r == PanelDecision::Wait,
        actions@.len() > 0 && (exists|i: int| 0 <= i < actions@.len() && retriggers(#[trigger] actions@[i]@, kind))
            ==> r == PanelDecision::Focus,
        actions@.len() > 0 && !(exists|i: int| 0 <= i < actions@.len() && retriggers(#[trigger] actions@[i]@, kind))
            ==> r == PanelDecision::Dismiss,
{
    if actions.len() == 0 {
        return PanelDecision::Wait;
    }
    let mut i: usize = 0;
    while i < actions.len()
        invariant
            i <= actions@.len(),
            forall|j: int| 0 <= j < i ==> !retriggers(#[trigger] actions@[j]@, kind),
        decreases actions@.len() - i,
    {
        let hit = match &actions[i] {
            EditorAction::LspHover => kind == PanelKind::LspHover,
            EditorAction::ShowDiagnosticHover => kind == PanelKind::Diagnostic,
            _ => false,
        };
        if hit {
            assert(retriggers(actions@[i as int]@, kind));
            return PanelDecision::Focus;
        }
        i = i + 1;
    }
    PanelDecision::Dismiss
}

/// Who carries out an action.
#[derive(Debug, Clone, Copy, PartialEq, Eq, Structural)]
pub enum ActionRoute {
    /// Open a picker (buffers, files or diagnostics) and stop.
    OpenPicker,
    /// Show the diagnostics of the cursor's line in a panel and stop.
    DiagnosticHover,
    /// Ask the language server for hover information.
    Hover,
    /// The editor.
    Editor,
}

/// Who carries out action `a`.
pub open spec fn route_of(a: ActionView) -> ActionRoute {
    match a {
        ActionView::OpenBufferPicker | ActionView::OpenFilePicker { .. } | ActionView::OpenDiagnosticsPicker => {
            ActionRoute::OpenPicker
        },
        ActionView::ShowDiagnosticHover => ActionRoute::DiagnosticHover,
        ActionView::LspHover => ActionRoute::Hover,
        _ => ActionRoute::Editor,
    }
}

/// Who carries out action `a`: pickers and the diagnostic panel are the
/// application's (and end the key's actions), hover asks the language
/// server, the rest goes to the editor.
pub fn action_route(a: &EditorAction) -> (r: ActionRoute)
    ensures
        r == route_of(a@),
{
    match a {
        EditorAction::OpenBufferPicker | EditorAction::OpenFilePicker { .. } | EditorAction::OpenDiagnosticsPicker => {
            ActionRoute::OpenPicker
        },
        EditorAction::ShowDiagnosticHover => ActionRoute::DiagnosticHover,
        EditorAction::LspHover => ActionRoute::Hover,
        _ => ActionRoute::Editor,
    }
}

} // verus!

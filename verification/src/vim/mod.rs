//! Vim-style modal key handling.
pub mod mode;
pub mod keymap;
pub mod input;
pub mod commands;

use vstd::prelude::*;
use crate::action::{ActionView, EditorAction, action_views};
use crate::buffer::Buffer;
use crate::keys::{Key, KeyModifiers};
use crate::vim::input::{InputState, InputView, input_ok, key_view, text_view};
use crate::vim::keymap::{Keymaps, built_from_table, global_scopes, normal_scopes, insert_scopes, visual_scopes};
use crate::vim::mode::VimMode;

verus! {

/// Whether `acts` sets the selection itself.
pub open spec fn sets_selection(acts: Seq<ActionView>) -> bool {
    exists|i: int| 0 <= i < acts.len() && acts[i] is SetSelection
}

/// The actions of a key with, in visual mode, the selection brought up to
/// date when the key's own actions did not set it.
pub open spec fn with_visual_update(s: InputView, acts: Seq<ActionView>) -> Seq<ActionView> {
    if (s.mode == VimMode::Visual || s.mode == VimMode::VisualLine) && !sets_selection(acts)
        && s.selection_anchor is Some {
        acts.push(ActionView::UpdateVisualSelection { anchor: s.selection_anchor->0, mode: s.mode })
    } else {
        acts
    }
}

/// Modal key handling with its keymaps.
pub struct VimLayer {
    input: InputState,
    keymaps: Keymaps,
}

impl VimLayer {
    /// The key state.
    pub closed spec fn input_view(&self) -> InputView {
        self.input@
    }

    /// The keymaps.
    pub closed spec fn keymaps_spec(&self) -> Keymaps {
        self.keymaps
    }

    /// Normal mode, nothing pending, the built-in keymaps.
    pub fn new() -> (v: Self)
        ensures
            v.input_view().mode == VimMode::Normal,
            v.input_view().selection_anchor is None,
            v.input_view().pending_keys.len() == 0,
            v.input_view().pending_global_keys.len() == 0,
            v.input_view().count_accum is None,
            v.input_view().pending_operator is None,
            !v.input_view().pending_replace,
            v.input_view().pending_find_char is None,
            v.input_view().search_history.wf(),
            v.input_view().command_history.wf(),
            built_from_table(v.keymaps_spec().global_keymap(), global_scopes()),
            built_from_table(v.keymaps_spec().mode_keymap(VimMode::Normal), normal_scopes()),
            built_from_table(v.keymaps_spec().mode_keymap(VimMode::Insert), insert_scopes()),
            built_from_table(v.keymaps_spec().mode_keymap(VimMode::Visual), visual_scopes()),
    {
        VimLayer { input: InputState::new(), keymaps: Keymaps::new() }
    }

    /// Handles one key with the global keymap and the current mode's; in
    /// visual mode the selection is then brought up to date.
    pub fn handle_key(
        &mut self,
        key: &Key,
        modified_key: &Key,
        modifiers: &KeyModifiers,
        text: Option<&str>,
        buffer: &Buffer,
        cursor: usize,
    ) -> (r: Vec<EditorAction>)
        requires
            buffer.wf(),
            input_ok(old(self).input_view(), buffer@, cursor as int),
        ensures
            ({
                let (s, acts) = key_view(
                    old(self).input_view(),
                    *key,
                    *modified_key,
                    *modifiers,
                    text_view(text),
                    old(self).keymaps_spec().global_keymap(),
                    old(self).keymaps_spec().mode_keymap(old(self).input_view().mode),
                    buffer@,
                    cursor as int,
                );
                &&& final(self).input_view() == s
                &&& action_views(r@) == with_visual_update(s, acts)
            }),
            final(self).keymaps_spec() == old(self).keymaps_spec(),
    {
        let mode = self.input.mode;
        let global = self.keymaps.global();
        let mode_keymap = self.keymaps.for_mode(mode);
        let mut actions = self.input.handle_key(key, modified_key, modifiers, text, global, mode_keymap, buffer, cursor);
        if self.input.mode == VimMode::Visual || self.input.mode == VimMode::VisualLine {
            let mut found = false;
            let mut i: usize = 0;
            while i < actions.len()
                invariant
                    i <= actions@.len(),
                    found == exists|j: int| 0 <= j < i && action_views(actions@)[j] is SetSelection,
                decreases actions@.len() - i,
            {
                let is_sel = matches!(actions[i], EditorAction::SetSelection(_));
                proof {
                    assert(action_views(actions@)[i as int] == actions@[i as int]@);
                    assert(is_sel == (action_views(actions@)[i as int] is SetSelection));
                }
                if is_sel {
                    found = true;
                }
                i = i + 1;
            }
            if !found {
                if let Some(anchor) = self.input.selection_anchor {
                    let ghost a0 = action_views(actions@);
                    actions.push(EditorAction::UpdateVisualSelection { anchor, mode: self.input.mode });
                    assert(action_views(actions@) =~= a0.push(ActionView::UpdateVisualSelection { anchor, mode: self.input.mode }));
                }
            }
        }
        actions
    }

    /// Puts key handling in `mode`, dropping any visual anchor.
    pub fn force_mode(&mut self, mode: VimMode)
        ensures
            final(self).input_view() == (InputView { mode, selection_anchor: None, ..old(self).input_view() }),
            final(self).keymaps_spec() == old(self).keymaps_spec(),
    {
        self.input.mode = mode;
        self.input.selection_anchor = None;
    }

    /// The current mode.
    pub fn mode(&self) -> (m: VimMode)
        ensures
            m == self.input_view().mode,
    {
        self.input.mode
    }

    /// What the status line shows instead of the mode, in command and
    /// search mode.
    pub fn status_line_override(&self) -> (r: Option<String>)
        ensures
            self.input_view().mode == VimMode::Command ==> r is Some && r->0@ == seq![':'] + self.input_view().command_line,
            self.input_view().mode == VimMode::Search ==> r is Some && r->0@ == seq!['/'] + self.input_view().search_query,
            self.input_view().mode != VimMode::Command && self.input_view().mode != VimMode::Search ==> r is None,
    {
        self.input.status_line_override()
    }
}

} // verus!

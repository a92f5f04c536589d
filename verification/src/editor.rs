//! The editor: buffers, workspaces, registers and search state, and what
//! an action does to them. Work outside the editor (files, the clipboard,
//! language servers, quitting) is handed back as effects for the caller to
//! perform; what the editor does with the outcome is a method of its own.
use vstd::prelude::*;
use crate::action::EditorAction;
use crate::buffer::Buffer;
use crate::diagnostics::DiagnosticStore;
use crate::registers::Registers;
use crate::window::{Window, scroll_y_for, scroll_x_for};
use crate::workspace::{Workspace, focus_after_close, shifted_id};
use crate::strs::{str_to_string, string_push_str, push_decimal, decimal, str_eq};
use crate::buffer::occurrences;
use crate::core_actions::{search_next_in, search_prev_in, next_iter, prev_iter};
use crate::text::{nl_count, line_start, line_len_nn, line_of, col_of, line_count};
use crate::core_actions::{paste_clipboard_text, execute_core, CoreOutcome, is_core, is_core_action, core_pre, core_post};
use crate::layout::SplitDirection;
use crate::strs::byte_len;
use crate::lsp::detect_language_from_path;
use crate::paths::path_file_name;
use vstd::utf8::encode_utf8;

verus! {

/// Places jumped from, to go back and forth between.
pub struct JumpList {
    entries: Vec<(usize, usize)>,
    pos: usize,
}

impl JumpList {
    /// The places, oldest first, as (buffer id, cursor).
    pub closed spec fn entries_view(&self) -> Seq<(usize, usize)> {
        self.entries@
    }

    /// How far back the list has been walked: the index of the place shown,
    /// or the length when at the newest.
    pub closed spec fn pos_view(&self) -> usize {
        self.pos
    }

    /// The position lies within the list.
    pub open spec fn wf(&self) -> bool {
        self.pos_view() <= self.entries_view().len()
    }

    /// An empty list.
    pub fn new() -> (j: Self)
        ensures
            j.wf(),
            j.entries_view() == Seq::<(usize, usize)>::empty(),
            j.pos_view() == 0,
    {
        JumpList { entries: Vec::new(), pos: 0 }
    }

    /// Records a jump from `cursor` in buffer `buffer_id`, dropping the
    /// places ahead of the current one.
    pub fn push(&mut self, buffer_id: usize, cursor: usize)
        requires
            old(self).wf(),
        ensures
            final(self).wf(),
            final(self).entries_view() == old(self).entries_view().take(old(self).pos_view() as int).push(
                (buffer_id, cursor),
            ),
            final(self).pos_view() == old(self).pos_view() + 1,
    {
        self.entries.truncate(self.pos);
        self.entries.push((buffer_id, cursor));
        self.pos = self.entries.len();
    }

    /// Goes one place back, remembering the current place first when at the
    /// newest; none when there is nowhere back to go.
    pub fn backward(&mut self, current_buf: usize, current_cursor: usize) -> (r: Option<(usize, usize)>)
        requires
            old(self).wf(),
        ensures
            final(self).wf(),
            ({
                let e0 = old(self).entries_view();
                let p0 = old(self).pos_view();
                let e1 = if p0 == e0.len() && e0.len() > 0 { e0.push((current_buf, current_cursor)) } else { e0 };
                &&& final(self).entries_view() == e1
                &&& p0 > 0 ==> final(self).pos_view() == p0 - 1 && r == Some(e1[p0 - 1])
                &&& p0 == 0 ==> final(self).pos_view() == 0 && r is None
            }),
    {
        if self.pos == self.entries.len() && self.entries.len() > 0 {
            self.entries.push((current_buf, current_cursor));
        }
        if self.pos > 0 {
            self.pos = self.pos - 1;
            Some(self.entries[self.pos])
        } else {
            None
        }
    }

    /// Goes one place forward, if there is one.
    pub fn forward(&mut self) -> (r: Option<(usize, usize)>)
        requires
            old(self).wf(),
        ensures
            final(self).wf(),
            final(self).entries_view() == old(self).entries_view(),
            old(self).pos_view() + 1 < old(self).entries_view().len() ==> final(self).pos_view() == old(self).pos_view() + 1
                && r == Some(old(self).entries_view()[old(self).pos_view() + 1]),
            !(old(self).pos_view() + 1 < old(self).entries_view().len()) ==> final(self).pos_view() == old(self).pos_view()
                && r is None,
    {
        if self.entries.len() > 0 && self.pos < self.entries.len() - 1 {
            self.pos = self.pos + 1;
            Some(self.entries[self.pos])
        } else {
            None
        }
    }
}

/// Going back from the newest place and then forward again returns to the
/// place gone back from.
pub proof fn law_jump_back_then_forward(e: Seq<(usize, usize)>, b: usize, c: usize)
    requires
        e.len() > 0,
    ensures
        ({
            let e1 = e.push((b, c));
            let p1 = (e.len() - 1) as int;
            &&& e1[p1] == e[e.len() - 1]
            &&& p1 + 1 < e1.len()
            &&& e1[p1 + 1] == (b, c)
        }),
{
}


/// The kinds of language-server request that an action sends.
#[derive(Debug, Clone, Copy, PartialEq, Eq, Structural)]
pub enum LspRequestKind {
    Definition,
    References,
    Implementation,
    Declaration,
}

/// Work that an action leaves to the caller.
pub enum EditorEffect {
    /// Quit the application.
    Exit,
    /// Put the text on the system clipboard.
    SetClipboard(String),
    /// Read the system clipboard and hand its text to
    /// `Editor::paste_from_clipboard`.
    PasteFromClipboard,
    /// Start the language server of the buffer with this id if it is not
    /// running, and tell it that the buffer was opened.
    NotifyDidOpen(usize),
    /// Tell the buffer's language server that its text changed.
    NotifyDidChange(usize),
    /// Tell the buffer's language server that it was saved.
    NotifyDidSave(usize),
    /// Tell the language server that the file at this path was closed.
    NotifyDidClose(String),
    /// Write `text` to `path`, then hand the outcome to
    /// `Editor::save_finished` with `buffer_id` and `quit_after`.
    WriteFile { buffer_id: usize, path: String, text: String, quit_after: bool },
    /// Read the file at `path`, then hand the outcome to
    /// `Editor::file_read` with `path` and `position`.
    ReadFile { path: String, position: Option<(usize, usize)> },
    /// Send the request for the buffer with this id at `cursor`, then tell
    /// `Editor::lsp_request_answered` whether a server took it.
    LspRequest { kind: LspRequestKind, buffer_id: usize, cursor: usize },
}

/// The editor's state.
pub struct Editor {
    pub buffers: Vec<Buffer>,
    pub diagnostics: DiagnosticStore,
    pub workspaces: Vec<Workspace>,
    pub active_workspace: usize,
    pub registers: Registers,
    pub search_pattern: String,
    pub mode_display: String,
    pub status_message: String,
    pub jump_list: JumpList,
}

/// `"` + `s` + `"`.
pub open spec fn quoted(s: Seq<char>) -> Seq<char> {
    seq!['"'] + s + seq!['"']
}

impl Editor {
    /// The places of the jump list, oldest first.
    pub open spec fn jumps(self) -> Seq<(usize, usize)> {
        self.jump_list.entries_view()
    }

    /// How far back the jump list has been walked.
    pub open spec fn jump_pos(self) -> usize {
        self.jump_list.pos_view()
    }

    /// The focused workspace.
    pub open spec fn cur_ws(self) -> Workspace {
        self.workspaces@[self.active_workspace as int]
    }

    /// The focused window.
    pub open spec fn cur_win(self) -> Window {
        self.cur_ws().windows@[self.cur_ws().active_window as int]
    }

    /// The id of the buffer in the focused window.
    pub open spec fn cur_buf_id(self) -> usize {
        self.cur_win().buffer_id
    }

    /// The buffer in the focused window.
    pub open spec fn cur_buf(self) -> Buffer {
        self.buffers@[self.cur_buf_id() as int]
    }

    /// Every window shows a buffer id below `n`.
    pub open spec fn ids_below(self, n: nat) -> bool {
        forall|i: int, j: int|
            0 <= i < self.workspaces@.len() && 0 <= j < self.workspaces@[i].windows@.len()
                ==> #[trigger] self.workspaces@[i].windows@[j].buffer_id < n
    }

    /// The parts are well formed, whatever the buffers shown.
    pub open spec fn shape_ok(self) -> bool {
        &&& self.active_workspace < self.workspaces@.len()
        &&& forall|i: int| 0 <= i < self.workspaces@.len() ==> (#[trigger] self.workspaces@[i]).wf()
        &&& forall|b: int| 0 <= b < self.buffers@.len() ==> (#[trigger] self.buffers@[b]).wf()
        &&& self.diagnostics.wf()
        &&& self.jump_pos() <= self.jumps().len()
    }

    /// Well formed, with at least one buffer and every window on one.
    pub open spec fn wf(self) -> bool {
        &&& self.shape_ok()
        &&& self.buffers@.len() > 0
        &&& self.ids_below(self.buffers@.len())
    }

    /// As made by `new`: well formed but for having no buffer yet; every
    /// window waits for the first.
    pub open spec fn fresh(self) -> bool {
        &&& self.shape_ok()
        &&& self.buffers@.len() == 0
        &&& self.ids_below(1)
    }

    /// An editor with no buffers yet, one workspace at `cwd` whose one
    /// window waits for the first buffer, in normal mode.
    pub fn new(cwd: String) -> (e: Self)
        ensures
            e.fresh(),
            e.workspaces@.len() == 1,
            e.active_workspace == 0,
            e.cur_ws().cwd@ == cwd@,
            e.cur_ws().windows@.len() == 1,
            e.registers.unnamed@ == Seq::<char>::empty(),
            e.search_pattern@ == Seq::<char>::empty(),
            e.mode_display@ == "NORMAL"@,
            e.status_message@ == Seq::<char>::empty(),
            e.jumps() == Seq::<(usize, usize)>::empty(),
            e.jump_pos() == 0,
            e.diagnostics.entries_view() == Seq::<Seq<crate::diagnostics::DiagnosticView>>::empty(),
    {
        let workspace = Workspace::new(0, cwd);
        let e = Editor {
            buffers: Vec::new(),
            diagnostics: DiagnosticStore::new(),
            workspaces: vec![workspace],
            active_workspace: 0,
            registers: Registers::new(),
            search_pattern: String::new(),
            mode_display: str_to_string("NORMAL"),
            status_message: String::new(),
            jump_list: JumpList::new(),
        };
        proof {
            assert(e.workspaces@[0] == workspace);
        }
        e
    }

    /// Gives a fresh editor its first buffer, which every window shows.
    pub fn push_first_buffer(&mut self, buffer: Buffer)
        requires
            old(self).fresh(),
            buffer.wf(),
        ensures
            final(self).wf(),
            final(self).buffers@ == seq![buffer],
            final(self).workspaces == old(self).workspaces,
            final(self).active_workspace == old(self).active_workspace,
            final(self).diagnostics == old(self).diagnostics,
            final(self).registers == old(self).registers,
            final(self).search_pattern == old(self).search_pattern,
            final(self).mode_display == old(self).mode_display,
            final(self).status_message == old(self).status_message,
            same_jumps(*old(self), *final(self)),
    {
        self.buffers.push(buffer);
        assert(self.buffers@ =~= seq![buffer]);
    }

    /// The focused workspace.
    pub fn workspace(&self) -> (r: &Workspace)
        requires
            self.shape_ok(),
        ensures
            *r == self.cur_ws(),
    {
        &self.workspaces[self.active_workspace]
    }

    /// The focused workspace, for changing it.
    pub fn workspace_mut(&mut self) -> (r: &mut Workspace)
        requires
            old(self).shape_ok(),
        ensures
            *r == old(self).cur_ws(),
            final(self).workspaces@ == old(self).workspaces@.update(old(self).active_workspace as int, *final(r)),
            final(self).active_workspace == old(self).active_workspace,
            final(self).buffers@ == old(self).buffers@,
            final(self).diagnostics == old(self).diagnostics,
            final(self).registers == old(self).registers,
            final(self).search_pattern == old(self).search_pattern,
            final(self).mode_display == old(self).mode_display,
            final(self).status_message == old(self).status_message,
            final(self).jumps() == old(self).jumps(),
            final(self).jump_pos() == old(self).jump_pos(),
    {
        &mut self.workspaces[self.active_workspace]
    }

    /// The buffer in the focused window.
    pub fn buffer(&self) -> (r: &Buffer)
        requires
            self.wf(),
        ensures
            *r == self.cur_buf(),
    {
        let ws = &self.workspaces[self.active_workspace];
        let buf_id = ws.window().buffer_id;
        &self.buffers[buf_id]
    }

    /// The focused window's cursor.
    pub fn cursor(&self) -> (c: usize)
        requires
            self.shape_ok(),
        ensures
            c == self.cur_win().cursor,
    {
        self.workspaces[self.active_workspace].cursor()
    }

    /// Whether any buffer has changes not yet saved.
    pub fn has_unsaved_changes(&self) -> (r: bool)
        requires
            self.shape_ok(),
        ensures
            r == exists|b: int| 0 <= b < self.buffers@.len() && (#[trigger] self.buffers@[b]).modified_flag(),
    {
        let mut i: usize = 0;
        while i < self.buffers.len()
            invariant
                i <= self.buffers@.len(),
                self.shape_ok(),
                forall|b: int| 0 <= b < i ==> !(#[trigger] self.buffers@[b]).modified_flag(),
            decreases self.buffers@.len() - i,
        {
            if self.buffers[i].is_modified() {
                return true;
            }
            i = i + 1;
        }
        false
    }
}


/// Every part but the jump list is as in `e0`.
pub open spec fn same_but_jumps(e0: Editor, e1: Editor) -> bool {
    &&& e1.buffers == e0.buffers
    &&& e1.diagnostics == e0.diagnostics
    &&& e1.workspaces == e0.workspaces
    &&& e1.active_workspace == e0.active_workspace
    &&& e1.registers == e0.registers
    &&& e1.search_pattern == e0.search_pattern
    &&& e1.mode_display == e0.mode_display
    &&& e1.status_message == e0.status_message
}

/// The texts, diagnostics, registers, search pattern and mode are as in
/// `e0`.
pub open spec fn same_content(e0: Editor, e1: Editor) -> bool {
    &&& e1.buffers == e0.buffers
    &&& e1.diagnostics == e0.diagnostics
    &&& e1.registers == e0.registers
    &&& e1.search_pattern == e0.search_pattern
    &&& e1.mode_display == e0.mode_display
}

/// The jump list is as in `e0`.
pub open spec fn same_jumps(e0: Editor, e1: Editor) -> bool {
    &&& e1.jumps() == e0.jumps()
    &&& e1.jump_pos() == e0.jump_pos()
}

/// Of all the windows, only the focused one may differ from `e0`; the
/// workspaces' layouts, focus and directories are as they were.
pub open spec fn only_cur_win_changed(e0: Editor, e1: Editor) -> bool {
    let a = e0.active_workspace as int;
    let w = e0.cur_ws().active_window as int;
    &&& e1.active_workspace == e0.active_workspace
    &&& e1.workspaces@.len() == e0.workspaces@.len()
    &&& forall|i: int| 0 <= i < e0.workspaces@.len() && i != a ==> e1.workspaces@[i] == e0.workspaces@[i]
    &&& e1.cur_ws().active_window == e0.cur_ws().active_window
    &&& e1.cur_ws().layout == e0.cur_ws().layout
    &&& e1.cur_ws().cwd == e0.cur_ws().cwd
    &&& e1.cur_ws().windows@.len() == e0.cur_ws().windows@.len()
    &&& forall|j: int|
        0 <= j < e0.cur_ws().windows@.len() && j != w ==> e1.cur_ws().windows@[j] == e0.cur_ws().windows@[j]
}

/// `c` moved back onto the last of `len` chars if it lies beyond.
pub open spec fn clamp_to(len: nat, c: int) -> int {
    if len == 0 {
        0
    } else if c < len - 1 {
        c
    } else {
        len - 1
    }
}

/// Window `w1` is `w0` switched to buffer `id` with the cursor at `c`, no
/// selection and the same scroll and size.
pub open spec fn shows_at(w0: Window, w1: Window, id: usize, c: int) -> bool {
    &&& w1.buffer_id == id
    &&& w1.cursor == c
    &&& w1.selection is None
    &&& w1.scroll_y == w0.scroll_y
    &&& w1.scroll_x == w0.scroll_x
    &&& w1.visible_lines == w0.visible_lines
    &&& w1.visible_cols == w0.visible_cols
}

/// The focused window of `e1` shows buffer `id` of `e0` with the cursor
/// `c` clamped onto its text, and nothing else changed.
pub open spec fn switched_to(e0: Editor, e1: Editor, id: usize, c: int) -> bool {
    &&& only_cur_win_changed(e0, e1)
    &&& shows_at(e0.cur_win(), e1.cur_win(), id, clamp_to(e0.buffers@[id as int]@.len(), c))
    &&& same_content(e0, e1)
    &&& e1.status_message == e0.status_message
}

/// The jump list's places after going back from `cur` at position `p`.
pub open spec fn back_entries(e: Seq<(usize, usize)>, p: usize, cur: (usize, usize)) -> Seq<(usize, usize)> {
    if p == e.len() && e.len() > 0 { e.push(cur) } else { e }
}

/// What going back in the jump list does, from `e0` to `e1`.
pub open spec fn jump_back_post(e0: Editor, e1: Editor) -> bool {
    let e = back_entries(e0.jumps(), e0.jump_pos(), (e0.cur_buf_id(), e0.cur_win().cursor));
    let p = e0.jump_pos();
    &&& e1.jumps() == e
    &&& e1.jump_pos() == (if p > 0 { p - 1 } else { 0 })
    &&& if p > 0 && e[p - 1].0 < e0.buffers@.len() {
        switched_to(e0, e1, e[p - 1].0, e[p - 1].1 as int)
    } else {
        same_but_jumps(e0, e1)
    }
}

/// What going forward in the jump list does, from `e0` to `e1`.
pub open spec fn jump_forward_post(e0: Editor, e1: Editor) -> bool {
    let e = e0.jumps();
    let p = e0.jump_pos();
    &&& e1.jumps() == e
    &&& if p + 1 < e.len() {
        &&& e1.jump_pos() == p + 1
        &&& if e[p + 1].0 < e0.buffers@.len() {
            switched_to(e0, e1, e[p + 1].0, e[p + 1].1 as int)
        } else {
            same_but_jumps(e0, e1)
        }
    } else {
        e1.jump_pos() == p && same_but_jumps(e0, e1)
    }
}

/// `e1`'s jump list is `e0`'s with the focused window's place recorded.
pub open spec fn jump_pushed(e0: Editor, e1: Editor) -> bool {
    &&& e1.jumps() == e0.jumps().take(e0.jump_pos() as int).push((e0.cur_buf_id(), e0.cur_win().cursor))
    &&& e1.jump_pos() == e0.jump_pos() + 1
}

/// The buffer after `id` in a list of `n`, wrapping around.
pub open spec fn next_id(id: usize, n: nat) -> usize {
    ((id + 1) % (n as int)) as usize
}

/// The buffer before `id` in a list of `n`, wrapping around.
pub open spec fn prev_id(id: usize, n: nat) -> usize {
    if id == 0 { (n - 1) as usize } else { (id - 1) as usize }
}

/// `e1` shows buffer `id` of `e0` in the focused window, cursor kept on
/// its text, and names it in the status line.
pub open spec fn cycled_to(e0: Editor, e1: Editor, id: usize) -> bool {
    &&& only_cur_win_changed(e0, e1)
    &&& shows_at(e0.cur_win(), e1.cur_win(), id, clamp_to(e0.buffers@[id as int]@.len(), e0.cur_win().cursor as int))
    &&& same_content(e0, e1)
    &&& same_jumps(e0, e1)
    &&& e1.status_message@ == quoted(e0.buffers@[id as int].name_chars())
}

impl Editor {
    /// Records the focused window's place in the jump list.
    fn push_jump(&mut self)
        requires
            old(self).wf(),
        ensures
            same_but_jumps(*old(self), *final(self)),
            final(self).jumps() == old(self).jumps().take(old(self).jump_pos() as int).push(
                (old(self).cur_buf_id(), old(self).cur_win().cursor),
            ),
            final(self).jump_pos() == old(self).jump_pos() + 1,
    {
        let ws = &self.workspaces[self.active_workspace];
        let buffer_id = ws.window().buffer_id;
        let cursor = ws.cursor();
        self.jump_list.push(buffer_id, cursor);
    }

    /// Shows buffer `buf_id` in the focused window with the cursor at
    /// `cursor`, kept on its text.
    fn show_buffer_at(&mut self, buf_id: usize, cursor: usize)
        requires
            old(self).wf(),
            buf_id < old(self).buffers@.len(),
        ensures
            final(self).wf(),
            switched_to(*old(self), *final(self), buf_id, cursor as int),
            same_jumps(*old(self), *final(self)),
    {
        let aw = self.active_workspace;
        let len_chars = self.buffers[buf_id].len_chars();
        self.workspaces[aw].switch_buffer(buf_id, len_chars);
        let c = self.buffers[buf_id].clamp_cursor(cursor);
        self.workspaces[aw].window_mut().cursor = c;
        proof {
            let e0 = *old(self);
            assert forall|i: int, j: int|
                0 <= i < self.workspaces@.len() && 0 <= j < self.workspaces@[i].windows@.len()
                    implies #[trigger] self.workspaces@[i].windows@[j].buffer_id < self.buffers@.len() by {
                if i != aw as int {
                    assert(self.workspaces@[i] == e0.workspaces@[i]);
                } else if j != e0.cur_ws().active_window as int {
                    assert(self.workspaces@[i].windows@[j] == e0.workspaces@[i].windows@[j]);
                }
            }
            assert forall|i: int| 0 <= i < self.workspaces@.len() implies (#[trigger] self.workspaces@[i]).wf() by {
                if i != aw as int {
                    assert(self.workspaces@[i] == e0.workspaces@[i]);
                }
            }
        }
    }

    /// Goes back one place in the jump list, remembering the focused
    /// window's place first when at the newest.
    fn jump_backward(&mut self)
        requires
            old(self).wf(),
        ensures
            final(self).wf(),
            jump_back_post(*old(self), *final(self)),
    {
        let ws = &self.workspaces[self.active_workspace];
        let cur_buf = ws.window().buffer_id;
        let cur_cursor = ws.cursor();
        let ghost mid = *self;
        if let Some((buf_id, cursor)) = self.jump_list.backward(cur_buf, cur_cursor) {
            if buf_id < self.buffers.len() {
                self.show_buffer_at(buf_id, cursor);
            }
        }
    }

    /// Goes forward one place in the jump list, if there is one.
    fn jump_forward(&mut self)
        requires
            old(self).wf(),
        ensures
            final(self).wf(),
            jump_forward_post(*old(self), *final(self)),
    {
        if let Some((buf_id, cursor)) = self.jump_list.forward() {
            if buf_id < self.buffers.len() {
                self.show_buffer_at(buf_id, cursor);
            }
        }
    }

    /// Sets the status line to the name of buffer `id` in quotes.
    fn announce_buffer(&mut self, id: usize)
        requires
            old(self).shape_ok(),
            id < old(self).buffers@.len(),
        ensures
            final(self).status_message@ == quoted(old(self).buffers@[id as int].name_chars()),
            final(self).buffers == old(self).buffers,
            final(self).diagnostics == old(self).diagnostics,
            final(self).workspaces == old(self).workspaces,
            final(self).active_workspace == old(self).active_workspace,
            final(self).registers == old(self).registers,
            final(self).search_pattern == old(self).search_pattern,
            final(self).mode_display == old(self).mode_display,
            final(self).jump_list == old(self).jump_list,
    {
        let mut msg = str_to_string("\"");
        string_push_str(&mut msg, self.buffers[id].name());
        string_push_str(&mut msg, "\"");
        proof {
            reveal_strlit("\"");
        }
        self.status_message = msg;
    }

    /// Shows the next buffer in the focused window, wrapping around; with
    /// one buffer nothing happens.
    pub fn next_buffer(&mut self)
        requires
            old(self).wf(),
        ensures
            final(self).wf(),
            old(self).buffers@.len() <= 1 ==> *final(self) == *old(self),
            old(self).buffers@.len() > 1 ==> cycled_to(
                *old(self),
                *final(self),
                next_id(old(self).cur_buf_id(), old(self).buffers@.len()),
            ),
    {
        if self.buffers.len() <= 1 {
            return;
        }
        let current = self.workspaces[self.active_workspace].window().buffer_id;
        let next = (current + 1) % self.buffers.len();
        let c = self.workspaces[self.active_workspace].cursor();
        let len_chars = self.buffers[next].len_chars();
        self.workspaces[self.active_workspace].switch_buffer(next, len_chars);
        proof {
            let e0 = *old(self);
            let aw = e0.active_workspace as int;
            assert forall|i: int, j: int|
                0 <= i < self.workspaces@.len() && 0 <= j < self.workspaces@[i].windows@.len()
                    implies #[trigger] self.workspaces@[i].windows@[j].buffer_id < self.buffers@.len() by {
                if i != aw {
                    assert(self.workspaces@[i] == e0.workspaces@[i]);
                } else if j != e0.cur_ws().active_window as int {
                    assert(self.workspaces@[i].windows@[j] == e0.workspaces@[i].windows@[j]);
                }
            }
            assert forall|i: int| 0 <= i < self.workspaces@.len() implies (#[trigger] self.workspaces@[i]).wf() by {
                if i != aw {
                    assert(self.workspaces@[i] == e0.workspaces@[i]);
                }
            }
        }
        self.announce_buffer(next);
    }
}


/// Workspace `n` is `o` after buffer `removed` was closed leaving `count`
/// buffers: windows on it show the buffer now at its index (or the last
/// one) from the start, windows on later buffers follow their buffer down.
pub open spec fn ws_after_close(o: Workspace, n: Workspace, removed: usize, count: nat) -> bool {
    &&& n.windows@.len() == o.windows@.len()
    &&& n.active_window == o.active_window
    &&& n.layout == o.layout
    &&& n.cwd == o.cwd
    &&& forall|j: int| 0 <= j < o.windows@.len() ==> {
        let ow = #[trigger] o.windows@[j];
        let nw = n.windows@[j];
        &&& ow.buffer_id == removed ==> nw.buffer_id == (if removed < count - 1 { removed as int } else { count - 1 })
            && nw.cursor == 0 && nw.selection is None
        &&& ow.buffer_id > removed ==> nw.buffer_id == ow.buffer_id - 1 && nw.cursor == ow.cursor
            && nw.selection == ow.selection
        &&& ow.buffer_id < removed ==> nw.buffer_id == ow.buffer_id && nw.cursor == ow.cursor
            && nw.selection == ow.selection
        &&& nw.scroll_y == ow.scroll_y && nw.scroll_x == ow.scroll_x
    }
}

/// What closing the focused buffer does, from `e0` to `e1` with effects
/// `r`.
pub open spec fn close_buffer_post(e0: Editor, e1: Editor, r: Seq<EditorEffect>) -> bool {
    let id = e0.cur_buf_id();
    let b = e0.cur_buf();
    if e0.buffers@.len() <= 1 {
        &&& e1.status_message@ == "Cannot close last buffer"@
        &&& r.len() == 0
        &&& same_content(e0, e1) && same_jumps(e0, e1)
        &&& e1.workspaces == e0.workspaces && e1.active_workspace == e0.active_workspace
    } else if b.modified_flag() {
        &&& e1.status_message@ == "Unsaved changes! Use :bd! to force close"@
        &&& r.len() == 0
        &&& same_content(e0, e1) && same_jumps(e0, e1)
        &&& e1.workspaces == e0.workspaces && e1.active_workspace == e0.active_workspace
    } else {
        &&& e1.buffers@ == e0.buffers@.remove(id as int)
        &&& id < e0.diagnostics.entries_view().len() ==> e1.diagnostics.entries_view()
            == e0.diagnostics.entries_view().remove(id as int)
        &&& id >= e0.diagnostics.entries_view().len() ==> e1.diagnostics.entries_view()
            == e0.diagnostics.entries_view()
        &&& e1.active_workspace == e0.active_workspace
        &&& e1.workspaces@.len() == e0.workspaces@.len()
        &&& forall|i: int| 0 <= i < e0.workspaces@.len() ==> ws_after_close(
            #[trigger] e0.workspaces@[i],
            e1.workspaces@[i],
            id,
            e1.buffers@.len(),
        )
        &&& e1.status_message@ == quoted(e1.cur_buf().name_chars())
        &&& e1.registers == e0.registers
        &&& e1.search_pattern == e0.search_pattern
        &&& e1.mode_display == e0.mode_display
        &&& same_jumps(e0, e1)
        &&& match b.path_chars() {
            Some(p) => r.len() == 1 && (r[0] matches EditorEffect::NotifyDidClose(q) && q@ == p),
            None => r.len() == 0,
        }
    }
}

impl Editor {
    /// Shows the previous buffer in the focused window, wrapping around;
    /// with one buffer nothing happens.
    pub fn prev_buffer(&mut self)
        requires
            old(self).wf(),
        ensures
            final(self).wf(),
            old(self).buffers@.len() <= 1 ==> *final(self) == *old(self),
            old(self).buffers@.len() > 1 ==> cycled_to(
                *old(self),
                *final(self),
                prev_id(old(self).cur_buf_id(), old(self).buffers@.len()),
            ),
    {
        if self.buffers.len() <= 1 {
            return;
        }
        let current = self.workspaces[self.active_workspace].window().buffer_id;
        let prev = if current == 0 { self.buffers.len() - 1 } else { current - 1 };
        let len_chars = self.buffers[prev].len_chars();
        self.workspaces[self.active_workspace].switch_buffer(prev, len_chars);
        proof {
            let e0 = *old(self);
            let aw = e0.active_workspace as int;
            assert forall|i: int, j: int|
                0 <= i < self.workspaces@.len() && 0 <= j < self.workspaces@[i].windows@.len()
                    implies #[trigger] self.workspaces@[i].windows@[j].buffer_id < self.buffers@.len() by {
                if i != aw {
                    assert(self.workspaces@[i] == e0.workspaces@[i]);
                } else if j != e0.cur_ws().active_window as int {
                    assert(self.workspaces@[i].windows@[j] == e0.workspaces@[i].windows@[j]);
                }
            }
            assert forall|i: int| 0 <= i < self.workspaces@.len() implies (#[trigger] self.workspaces@[i]).wf() by {
                if i != aw {
                    assert(self.workspaces@[i] == e0.workspaces@[i]);
                }
            }
        }
        self.announce_buffer(prev);
    }

    /// Closes the focused buffer unless it is the last one or has unsaved
    /// changes (the status line says which); windows on it move to the
    /// buffer that takes its place. The language server is to be told when
    /// the buffer had a file.
    pub fn close_buffer(&mut self) -> (r: Vec<EditorEffect>)
        requires
            old(self).wf(),
        ensures
            final(self).wf(),
            close_buffer_post(*old(self), *final(self), r@),
    {
        let mut effects: Vec<EditorEffect> = Vec::new();
        if self.buffers.len() <= 1 {
            self.status_message = str_to_string("Cannot close last buffer");
            return effects;
        }
        let buf_id = self.workspaces[self.active_workspace].window().buffer_id;
        if self.buffers[buf_id].is_modified() {
            self.status_message = str_to_string("Unsaved changes! Use :bd! to force close");
            return effects;
        }
        match self.buffers[buf_id].file_path() {
            Some(p) => effects.push(EditorEffect::NotifyDidClose(str_to_string(p))),
            None => {},
        }
        self.buffers.remove(buf_id);
        self.diagnostics.remove_buffer(buf_id);
        let buf_count = self.buffers.len();
        let ghost e0 = *old(self);
        let ghost bufs1 = self.buffers;
        let ghost diags1 = self.diagnostics;
        let n = self.workspaces.len();
        let mut i: usize = 0;
        while i < n
            invariant
                n == self.workspaces@.len(),
                n == e0.workspaces@.len(),
                i <= n,
                buf_count == self.buffers@.len(),
                buf_count > 0,
                buf_id < buf_count + 1,
                self.buffers == bufs1,
                self.diagnostics == diags1,
                diags1.wf(),
                self.jump_list == e0.jump_list,
                self.jump_pos() <= self.jumps().len(),
                self.registers == e0.registers,
                self.search_pattern == e0.search_pattern,
                self.mode_display == e0.mode_display,
                self.active_workspace == e0.active_workspace,
                e0.active_workspace < n,
                forall|k: int| i <= k < n ==> self.workspaces@[k] == e0.workspaces@[k],
                forall|k: int| 0 <= k < i ==> ws_after_close(
                    #[trigger] e0.workspaces@[k],
                    self.workspaces@[k],
                    buf_id,
                    buf_count as nat,
                ),
            decreases n - i,
        {
            self.workspaces[i].fix_buffer_ids_after_remove(buf_id, buf_count);
            i = i + 1;
        }
        proof {
            assert forall|k: int| 0 <= k < n implies (#[trigger] self.workspaces@[k]).wf() by {
                assert(ws_after_close(e0.workspaces@[k], self.workspaces@[k], buf_id, buf_count as nat));
                assert(e0.workspaces@[k].wf());
            }
            assert forall|k: int, j: int|
                0 <= k < n && 0 <= j < self.workspaces@[k].windows@.len()
                    implies #[trigger] self.workspaces@[k].windows@[j].buffer_id < self.buffers@.len() by {
                assert(ws_after_close(e0.workspaces@[k], self.workspaces@[k], buf_id, buf_count as nat));
                assert(e0.workspaces@[k].windows@[j].buffer_id < e0.buffers@.len());
            }
            assert forall|b: int| 0 <= b < self.buffers@.len() implies (#[trigger] self.buffers@[b]).wf() by {
                if b < buf_id {
                    assert(self.buffers@[b] == e0.buffers@[b]);
                } else {
                    assert(self.buffers@[b] == e0.buffers@[b + 1]);
                }
            }
        }
        let new_buf_id = self.workspaces[self.active_workspace].window().buffer_id;
        self.announce_buffer(new_buf_id);
        effects
    }
}


/// Window `w1` holds the matches of `pat` in buffer `b`, recomputed from
/// `w0` unless `w0`'s were for that pattern and that change count.
pub open spec fn cache_refreshed(w0: Window, w1: Window, b: Buffer, pat: Seq<char>) -> bool {
    let fresh = pat == w0.search_cached_pattern@ && b.version_num() == w0.search_version;
    &&& fresh ==> w1.search_matches@ == w0.search_matches@
    &&& !fresh ==> {
        &&& pat.len() == 0 ==> w1.search_matches@.len() == 0
        &&& pat.len() > 0 ==> {
            let occ = occurrences(b@, pat, 0);
            &&& w1.search_matches@.len() == occ.len()
            &&& forall|k: int| 0 <= k < occ.len() ==> w1.search_matches@[k] == occ[k]
        }
    }
    &&& w1.search_cached_pattern@ == pat || fresh
    &&& w1.search_version == b.version_num()
}

/// One more than the index of the first match at `c` from index `i` on,
/// or 0 when there is none.
pub open spec fn match_number(ms: Seq<usize>, c: usize, i: int) -> nat
    decreases ms.len() - i,
{
    if i < 0 || i >= ms.len() {
        0
    } else if ms[i] == c {
        (i + 1) as nat
    } else {
        match_number(ms, c, i + 1)
    }
}

/// The status line after a search: the direction mark, the pattern, the
/// match number of the cursor among the matches, and whether the search
/// went round the end.
pub open spec fn search_status(mark: char, pat: Seq<char>, current: nat, total: nat, wrapped: bool) -> Seq<char> {
    seq![mark] + pat + seq![' ', '['] + decimal(current) + seq!['/'] + decimal(total) + seq![']'] + (if wrapped {
        " [wrapped]"@
    } else {
        Seq::<char>::empty()
    })
}

/// What a search `count` matches forward (or back) does, from `e0` to
/// `e1`.
pub open spec fn search_post(e0: Editor, e1: Editor, count: usize, forward: bool) -> bool {
    let pat = e0.search_pattern@;
    let w0 = e0.cur_win();
    let w1 = e1.cur_win();
    let ms = w1.search_matches@;
    let mark = if forward { '/' } else { '?' };
    &&& same_content(e0, e1)
    &&& if pat.len() == 0 {
        &&& e1.status_message@ == "No search pattern"@
        &&& e1.workspaces == e0.workspaces && e1.active_workspace == e0.active_workspace
    } else {
        &&& only_cur_win_changed(e0, e1)
        &&& cache_refreshed(w0, w1, e0.cur_buf(), pat)
        &&& w1.buffer_id == w0.buffer_id && w1.selection == w0.selection
        &&& w1.scroll_y == w0.scroll_y && w1.scroll_x == w0.scroll_x
        &&& w1.visible_lines == w0.visible_lines && w1.visible_cols == w0.visible_cols
        &&& if ms.len() == 0 {
            &&& w1.cursor == w0.cursor
            &&& e1.status_message@ == seq![mark] + pat + " [0/0]"@
        } else {
            &&& w1.cursor == (if forward {
                next_iter(ms, w0.cursor as int, count as nat)
            } else {
                prev_iter(ms, w0.cursor as int, count as nat)
            })
            &&& e1.status_message@ == search_status(
                mark,
                pat,
                match_number(ms, w1.cursor, 0),
                ms.len(),
                count > 0 && (if forward { w1.cursor <= w0.cursor } else { w1.cursor >= w0.cursor }),
            )
        }
    }
}

impl Editor {
    /// The number of chars in the search pattern: how many chars a
    /// match, found at a char index, covers.
    pub fn search_len(&self) -> (n: usize)
        ensures
            n == self.search_pattern@.len(),
    {
        self.search_pattern.as_str().unicode_len()
    }

    /// Refreshes the focused window's search matches for the search
    /// pattern.
    pub fn update_search_cache(&mut self)
        requires
            old(self).wf(),
        ensures
            final(self).wf(),
            only_cur_win_changed(*old(self), *final(self)),
            same_content(*old(self), *final(self)),
            same_jumps(*old(self), *final(self)),
            final(self).status_message == old(self).status_message,
            cache_refreshed(old(self).cur_win(), final(self).cur_win(), old(self).cur_buf(), old(self).search_pattern@),
            ({
                let w0 = old(self).cur_win();
                let w1 = final(self).cur_win();
                &&& w1.cursor == w0.cursor && w1.buffer_id == w0.buffer_id && w1.selection == w0.selection
                &&& w1.scroll_y == w0.scroll_y && w1.scroll_x == w0.scroll_x
                &&& w1.visible_lines == w0.visible_lines && w1.visible_cols == w0.visible_cols
            }),
    {
        let aw = self.active_workspace;
        let bid = self.workspaces[aw].window().buffer_id;
        self.workspaces[aw].window_mut().update_search_cache(&self.buffers[bid], self.search_pattern.as_str());
        proof {
            self.lemma_cur_win_change_keeps_wf(*old(self));
        }
    }

    /// A change of the focused window's search cache, cursor or selection
    /// keeps the editor well formed.
    proof fn lemma_cur_win_change_keeps_wf(self, e0: Editor)
        requires
            e0.wf(),
            only_cur_win_changed(e0, self),
            self.cur_win().buffer_id == e0.cur_win().buffer_id,
            self.buffers@ == e0.buffers@,
            self.diagnostics == e0.diagnostics,
            same_jumps(e0, self),
        ensures
            self.wf(),
    {
        let aw = e0.active_workspace as int;
        assert forall|i: int, j: int|
            0 <= i < self.workspaces@.len() && 0 <= j < self.workspaces@[i].windows@.len()
                implies #[trigger] self.workspaces@[i].windows@[j].buffer_id < self.buffers@.len() by {
            if i != aw {
                assert(self.workspaces@[i] == e0.workspaces@[i]);
            } else if j != e0.cur_ws().active_window as int {
                assert(self.workspaces@[i].windows@[j] == e0.workspaces@[i].windows@[j]);
            }
        }
        assert forall|i: int| 0 <= i < self.workspaces@.len() implies (#[trigger] self.workspaces@[i]).wf() by {
            if i != aw {
                assert(self.workspaces@[i] == e0.workspaces@[i]);
            }
        }
    }

    /// Moves the focused window's cursor `count` matches of the search
    /// pattern forward (or back), wrapping round, and reports where it
    /// landed on the status line.
    fn search_step(&mut self, count: usize, forward: bool)
        requires
            old(self).wf(),
        ensures
            final(self).wf(),
            search_post(*old(self), *final(self), count, forward),
            same_jumps(*old(self), *final(self)),
    {
        let mark: &str = if forward { "/" } else { "?" };
        proof {
            reveal_strlit("/");
            reveal_strlit("?");
            assert(mark@ =~= seq![if forward { '/' } else { '?' }]);
        }
        if self.search_pattern.as_str().is_empty() {
            self.status_message = str_to_string("No search pattern");
            return;
        }
        self.update_search_cache();
        let aw = self.active_workspace;
        let wi = self.workspaces[aw].active_window;
        let cursor_before = self.workspaces[aw].windows[wi].cursor;
        if self.workspaces[aw].windows[wi].search_matches.len() == 0 {
            let mut msg = str_to_string(mark);
            string_push_str(&mut msg, self.search_pattern.as_str());
            string_push_str(&mut msg, " [0/0]");
            self.status_message = msg;
            return;
        }
        let ghost mid = *self;
        if forward {
            search_next_in(self.workspaces[aw].window_mut(), self.search_pattern.as_str(), count);
        } else {
            search_prev_in(self.workspaces[aw].window_mut(), self.search_pattern.as_str(), count);
        }
        proof {
            self.lemma_cur_win_change_keeps_wf(mid);
        }
        let cursor = self.workspaces[aw].windows[wi].cursor;
        let ms = &self.workspaces[aw].windows[wi].search_matches;
        let total = ms.len();
        let mut k: usize = 0;
        while k < total && ms[k] != cursor
            invariant
                total == ms@.len(),
                k <= total,
                match_number(ms@, cursor, k as int) == match_number(ms@, cursor, 0),
            decreases total - k,
        {
            k = k + 1;
        }
        let current = if k < total { k + 1 } else { 0 };
        let mut msg = str_to_string(mark);
        string_push_str(&mut msg, self.search_pattern.as_str());
        string_push_str(&mut msg, " [");
        push_decimal(&mut msg, current);
        string_push_str(&mut msg, "/");
        push_decimal(&mut msg, total);
        string_push_str(&mut msg, "]");
        let wrapped = count > 0 && (if forward { cursor <= cursor_before } else { cursor >= cursor_before });
        if wrapped {
            string_push_str(&mut msg, " [wrapped]");
        }
        proof {
            reveal_strlit(" [");
            reveal_strlit("]");
            assert(msg@ =~= search_status(
                if forward { '/' } else { '?' },
                self.search_pattern@,
                current as nat,
                total as nat,
                wrapped,
            ));
        }
        self.status_message = msg;
    }
}


/// The char index at `line`, `col` of `t`, each clamped into the text.
pub open spec fn cursor_at(t: Seq<char>, line: usize, col: usize) -> int {
    let l = if line < nl_count(t) { line as nat } else { nl_count(t) };
    let c = if col < line_len_nn(t, l) { col as int } else { line_len_nn(t, l) };
    line_start(t, l) + c
}

/// The index of the first buffer from `i` on read from file `p`, if any.
pub open spec fn buffer_with_path(bs: Seq<Buffer>, p: Seq<char>, i: int) -> Option<int>
    decreases bs.len() - i,
{
    if i < 0 || i >= bs.len() {
        None
    } else if bs[i].path_chars() == Some(p) {
        Some(i)
    } else {
        buffer_with_path(bs, p, i + 1)
    }
}

/// Of the windows, only the focused one differs from `e0`'s: its cursor
/// is placed at `line`, `col` of its buffer, kept on the text.
pub open spec fn cursor_placed(e0: Editor, e1: Editor, line: usize, col: usize) -> bool {
    let t = e0.cur_buf()@;
    let w0 = e0.cur_win();
    let w1 = e1.cur_win();
    &&& only_cur_win_changed(e0, e1)
    &&& w1.cursor == clamp_to(t.len(), cursor_at(t, line, col))
    &&& w1.buffer_id == w0.buffer_id && w1.selection == w0.selection
    &&& w1.scroll_y == w0.scroll_y && w1.scroll_x == w0.scroll_x
    &&& w1.visible_lines == w0.visible_lines && w1.visible_cols == w0.visible_cols
}

/// The focused window of `e1` is that of `e0` with the cursor placed at
/// `line`, `col` of its buffer, kept on the text.
pub open spec fn placed_at(e0: Editor, e1: Editor, line: usize, col: usize) -> bool {
    &&& cursor_placed(e0, e1, line, col)
    &&& same_content(e0, e1)
    &&& same_jumps(e0, e1)
    &&& e1.status_message == e0.status_message
}

/// What opening file `p` does from `e0` to `e1` with effects `r`: a buffer
/// already read from it is shown from its start, with the cursor then
/// placed at `position` if one is given; otherwise the file is to be read.
pub open spec fn open_file_post(
    e0: Editor,
    e1: Editor,
    p: Seq<char>,
    position: Option<(usize, usize)>,
    r: Seq<EditorEffect>,
) -> bool {
    match buffer_with_path(e0.buffers@, p, 0) {
        Some(idx) => {
            let w0 = e0.cur_win();
            let w1 = e1.cur_win();
            let t = e0.buffers@[idx]@;
            &&& r.len() == 0
            &&& only_cur_win_changed(e0, e1)
            &&& w1.buffer_id == idx && w1.selection is None
            &&& w1.scroll_y == 0 && w1.scroll_x == 0
            &&& w1.visible_lines == w0.visible_lines && w1.visible_cols == w0.visible_cols
            &&& w1.cursor == (match position {
                Some(lc) => clamp_to(t.len(), cursor_at(t, lc.0, lc.1)),
                None => 0,
            })
            &&& same_content(e0, e1)
            &&& e1.status_message@ == quoted(p)
        },
        None => {
            &&& same_but_jumps(e0, e1)
            &&& r.len() == 1
            &&& (r[0] matches EditorEffect::ReadFile { path, position: q } && path@ == p && q == position)
        },
    }
}

impl Editor {
    /// Places the focused window's cursor at `line`, `col` of its buffer,
    /// kept on the text.
    fn place_cursor(&mut self, line: usize, col: usize)
        requires
            old(self).wf(),
        ensures
            final(self).wf(),
            placed_at(*old(self), *final(self), line, col),
    {
        let aw = self.active_workspace;
        let bid = self.workspaces[aw].window().buffer_id;
        let p = self.buffers[bid].cursor_from_position(line, col);
        let c = self.buffers[bid].clamp_cursor(p);
        self.workspaces[aw].window_mut().cursor = c;
        proof {
            self.lemma_cur_win_change_keeps_wf(*old(self));
        }
    }

    /// Shows the buffer read from `path` if there is one, placing the
    /// cursor at `position` when given; otherwise asks for the file.
    fn open_file_at(&mut self, path: &str, position: Option<(usize, usize)>) -> (r: Vec<EditorEffect>)
        requires
            old(self).wf(),
        ensures
            final(self).wf(),
            open_file_post(*old(self), *final(self), path@, position, r@),
            same_jumps(*old(self), *final(self)),
    {
        let mut i: usize = 0;
        while i < self.buffers.len()
            invariant
                *self == *old(self),
                self.wf(),
                i <= self.buffers@.len(),
                buffer_with_path(self.buffers@, path@, i as int) == buffer_with_path(self.buffers@, path@, 0),
            decreases self.buffers@.len() - i,
        {
            let found = match self.buffers[i].file_path() {
                Some(p) => str_eq(p, path),
                None => false,
            };
            if found {
                let aw = self.active_workspace;
                self.workspaces[aw].reset_window_for_buffer(i);
                proof {
                    self.lemma_cur_win_change_keeps_wf_any_id(*old(self), i);
                }
                match position {
                    Some((line, col)) => self.place_cursor(line, col),
                    None => {},
                }
                let mut msg = str_to_string("\"");
                string_push_str(&mut msg, path);
                string_push_str(&mut msg, "\"");
                proof {
                    reveal_strlit("\"");
                    assert(msg@ =~= quoted(path@));
                }
                self.status_message = msg;
                return Vec::new();
            }
            i = i + 1;
        }
        let mut r: Vec<EditorEffect> = Vec::new();
        r.push(EditorEffect::ReadFile { path: str_to_string(path), position });
        r
    }

    /// A change of the focused window that shows an existing buffer keeps
    /// the editor well formed.
    proof fn lemma_cur_win_change_keeps_wf_any_id(self, e0: Editor, id: usize)
        requires
            e0.wf(),
            only_cur_win_changed(e0, self),
            self.cur_win().buffer_id == id,
            id < e0.buffers@.len(),
            self.buffers@ == e0.buffers@,
            self.diagnostics == e0.diagnostics,
            same_jumps(e0, self),
        ensures
            self.wf(),
    {
        let aw = e0.active_workspace as int;
        assert forall|i: int, j: int|
            0 <= i < self.workspaces@.len() && 0 <= j < self.workspaces@[i].windows@.len()
                implies #[trigger] self.workspaces@[i].windows@[j].buffer_id < self.buffers@.len() by {
            if i != aw {
                assert(self.workspaces@[i] == e0.workspaces@[i]);
            } else if j != e0.cur_ws().active_window as int {
                assert(self.workspaces@[i].windows@[j] == e0.workspaces@[i].windows@[j]);
            }
        }
        assert forall|i: int| 0 <= i < self.workspaces@.len() implies (#[trigger] self.workspaces@[i]).wf() by {
            if i != aw {
                assert(self.workspaces@[i] == e0.workspaces@[i]);
            }
        }
    }

    /// Shows the buffer read from `path`, or asks for the file to be read
    /// (then see `file_read`).
    pub fn open_file(&mut self, path: &str) -> (r: Vec<EditorEffect>)
        requires
            old(self).wf(),
        ensures
            final(self).wf(),
            open_file_post(*old(self), *final(self), path@, None, r@),
            same_jumps(*old(self), *final(self)),
    {
        self.open_file_at(path, None)
    }
}


/// What handing back the outcome of reading file `path` does from `e0` to
/// `e1` with effects `r`.
pub open spec fn file_read_post(
    e0: Editor,
    e1: Editor,
    path: Seq<char>,
    content: Result<String, String>,
    position: Option<(usize, usize)>,
    r: Seq<EditorEffect>,
) -> bool {
    match content {
        Ok(text) => {
            let id = e0.buffers@.len();
            let b = e1.buffers@[id as int];
            let w0 = e0.cur_win();
            let w1 = e1.cur_win();
            &&& e1.wf()
            &&& e1.buffers@.len() == id + 1
            &&& e1.buffers@.take(id as int) == e0.buffers@
            &&& b@ == text@ && b.path_chars() == Some(path)
            &&& !b.read_only_flag() && !b.modified_flag() && b.version_num() == 0
            &&& only_cur_win_changed(e0, e1)
            &&& w1.buffer_id == id && w1.selection is None
            &&& w1.scroll_y == 0 && w1.scroll_x == 0
            &&& w1.visible_lines == w0.visible_lines && w1.visible_cols == w0.visible_cols
            &&& w1.cursor == (match position {
                Some(lc) => clamp_to(text@.len(), cursor_at(text@, lc.0, lc.1)),
                None => 0,
            })
            &&& e1.diagnostics == e0.diagnostics && e1.registers == e0.registers
            &&& e1.search_pattern == e0.search_pattern && e1.mode_display == e0.mode_display
            &&& same_jumps(e0, e1)
            &&& e1.status_message@ == quoted(path)
            &&& r.len() <= 1
            &&& r.len() == 1 ==> r[0] == EditorEffect::NotifyDidOpen(id as usize)
        },
        Err(e) => {
            &&& e1.wf() || e1.fresh()
            &&& same_content(e0, e1)
            &&& same_jumps(e0, e1)
            &&& e1.status_message@ == "Error opening file: "@ + e@
            &&& match position {
                Some(lc) => cursor_placed(e0, e1, lc.0, lc.1),
                None => e1.workspaces == e0.workspaces && e1.active_workspace == e0.active_workspace,
            }
            &&& r.len() == 0
        },
    }
}

impl Editor {
    /// With a buffer appended and the focused window moved onto it, a
    /// well formed (or fresh) editor is well formed.
    proof fn lemma_push_keeps_wf(self, e0: Editor)
        requires
            e0.wf() || e0.fresh(),
            self.buffers@.len() == e0.buffers@.len() + 1,
            self.buffers@.take(e0.buffers@.len() as int) == e0.buffers@,
            self.buffers@.last().wf(),
            only_cur_win_changed(e0, self),
            self.cur_win().buffer_id == e0.buffers@.len(),
            self.diagnostics == e0.diagnostics,
            same_jumps(e0, self),
        ensures
            self.wf(),
    {
        let aw = e0.active_workspace as int;
        let n = e0.buffers@.len();
        assert forall|i: int, j: int|
            0 <= i < self.workspaces@.len() && 0 <= j < self.workspaces@[i].windows@.len()
                implies #[trigger] self.workspaces@[i].windows@[j].buffer_id < self.buffers@.len() by {
            if i != aw {
                assert(self.workspaces@[i] == e0.workspaces@[i]);
                assert(e0.workspaces@[i].windows@[j].buffer_id < n + 1);
            } else if j != e0.cur_ws().active_window as int {
                assert(self.workspaces@[i].windows@[j] == e0.workspaces@[i].windows@[j]);
                assert(e0.workspaces@[i].windows@[j].buffer_id < n + 1);
            }
        }
        assert forall|i: int| 0 <= i < self.workspaces@.len() implies (#[trigger] self.workspaces@[i]).wf() by {
            if i != aw {
                assert(self.workspaces@[i] == e0.workspaces@[i]);
            }
        }
        assert forall|b: int| 0 <= b < self.buffers@.len() implies (#[trigger] self.buffers@[b]).wf() by {
            if b < n {
                assert(self.buffers@[b] == self.buffers@.take(n as int)[b]);
            }
        }
    }

    /// Takes the outcome of reading the file at `path` (asked for by a
    /// `ReadFile` effect): its text becomes a new buffer shown in the
    /// focused window, or the error goes to the status line; then the
    /// cursor goes to `position`, if given. The buffer's language server is
    /// to be started when its language is known.
    pub fn file_read(
        &mut self,
        path: &str,
        content: Result<String, String>,
        position: Option<(usize, usize)>,
    ) -> (r: Vec<EditorEffect>)
        requires
            old(self).wf() || old(self).fresh(),
            position is Some && content is Err ==> old(self).wf(),
        ensures
            file_read_post(*old(self), *final(self), path@, content, position, r@),
    {
        let mut effects: Vec<EditorEffect> = Vec::new();
        match content {
            Ok(text) => {
                let name = path_file_name(path);
                let buffer = Buffer::from_str(text.as_str(), name.as_str(), path, false);
                let buf_id = self.buffers.len();
                self.buffers.push(buffer);
                let aw = self.active_workspace;
                self.workspaces[aw].reset_window_for_buffer(buf_id);
                proof {
                    assert(self.buffers@.take(buf_id as int) =~= old(self).buffers@);
                    self.lemma_push_keeps_wf(*old(self));
                }
                let mut msg = str_to_string("\"");
                string_push_str(&mut msg, path);
                string_push_str(&mut msg, "\"");
                proof {
                    reveal_strlit("\"");
                    assert(msg@ =~= quoted(path@));
                }
                self.status_message = msg;
                if detect_language_from_path(path).is_some() {
                    effects.push(EditorEffect::NotifyDidOpen(buf_id));
                }
                match position {
                    Some((line, col)) => self.place_cursor(line, col),
                    None => {},
                }
            },
            Err(e) => {
                let mut msg = str_to_string("Error opening file: ");
                string_push_str(&mut msg, e.as_str());
                self.status_message = msg;
                match position {
                    Some((line, col)) => self.place_cursor(line, col),
                    None => {},
                }
            },
        }
        effects
    }
}


/// In `e1` the focused window of `e0` is closed: it leaves its workspace,
/// whose layout drops it and renumbers the later windows, and focus goes
/// to the window before it (after it, when it came first).
pub open spec fn window_closed(e0: Editor, e1: Editor) -> bool {
    let a = e0.active_workspace as int;
    let ws0 = e0.cur_ws();
    let ws1 = e1.cur_ws();
    let id = ws0.active_window;
    &&& e1.active_workspace == e0.active_workspace
    &&& e1.workspaces@.len() == e0.workspaces@.len()
    &&& forall|i: int| 0 <= i < e0.workspaces@.len() && i != a ==> e1.workspaces@[i] == e0.workspaces@[i]
    &&& ws1.windows@ == ws0.windows@.remove(id as int)
    &&& ws1.layout == ws0.layout.remove_spec(id).0.shift_spec(id)
    &&& ws1.active_window == shifted_id(focus_after_close(ws0.layout.leaves_spec(), id), id)
    &&& ws1.cwd == ws0.cwd
}

/// What handing back the outcome of writing buffer `id` does, from `e0`
/// to `e1` with effects `r`.
pub open spec fn save_finished_post(
    e0: Editor,
    e1: Editor,
    id: usize,
    quit_after: bool,
    result: Result<(), String>,
    r: Seq<EditorEffect>,
) -> bool {
    match result {
        Ok(()) => {
            let b0 = e0.buffers@[id as int];
            let b1 = e1.buffers@[id as int];
            &&& e1.buffers@.len() == e0.buffers@.len()
            &&& forall|k: int| 0 <= k < e0.buffers@.len() && k != id ==> e1.buffers@[k] == e0.buffers@[k]
            &&& b1@ == b0@ && !b1.modified_flag() && b1.history() == b0.history()
            &&& b1.version_num() == b0.version_num() && b1.read_only_flag() == b0.read_only_flag()
            &&& b1.name_chars() == b0.name_chars() && b1.path_chars() == b0.path_chars()
            &&& e1.diagnostics == e0.diagnostics && e1.registers == e0.registers
            &&& e1.search_pattern == e0.search_pattern && e1.mode_display == e0.mode_display
            &&& same_jumps(e0, e1)
            &&& if !quit_after {
                &&& r == seq![EditorEffect::NotifyDidSave(id)]
                &&& e1.status_message@ == "Written"@
                &&& e1.workspaces == e0.workspaces && e1.active_workspace == e0.active_workspace
            } else if e0.cur_ws().layout.leaves_spec().len() > 1 {
                &&& r == seq![EditorEffect::NotifyDidSave(id)]
                &&& window_closed(e0, e1)
                &&& e1.status_message == e0.status_message
            } else {
                &&& r == seq![EditorEffect::NotifyDidSave(id), EditorEffect::Exit]
                &&& e1.workspaces == e0.workspaces && e1.active_workspace == e0.active_workspace
                &&& e1.status_message == e0.status_message
            }
        },
        Err(e) => {
            &&& r.len() == 0
            &&& same_content(e0, e1) && same_jumps(e0, e1)
            &&& e1.workspaces == e0.workspaces && e1.active_workspace == e0.active_workspace
            &&& e1.status_message@ == "Error: "@ + e@
        },
    }
}

impl Editor {
    /// Closes the focused window, which is not the only one.
    fn close_focused_window(&mut self)
        requires
            old(self).wf(),
            old(self).cur_ws().layout.leaves_spec().len() > 1,
        ensures
            final(self).wf(),
            window_closed(*old(self), *final(self)),
            same_content(*old(self), *final(self)),
            same_jumps(*old(self), *final(self)),
            final(self).status_message == old(self).status_message,
    {
        let aw = self.active_workspace;
        self.workspaces[aw].close_window();
        proof {
            let e0 = *old(self);
            let ws0 = e0.cur_ws();
            let id = ws0.active_window as int;
            assert forall|i: int, j: int|
                0 <= i < self.workspaces@.len() && 0 <= j < self.workspaces@[i].windows@.len()
                    implies #[trigger] self.workspaces@[i].windows@[j].buffer_id < self.buffers@.len() by {
                if i != aw as int {
                    assert(self.workspaces@[i] == e0.workspaces@[i]);
                } else if j < id {
                    assert(self.workspaces@[i].windows@[j] == ws0.windows@[j]);
                    assert(e0.workspaces@[i].windows@[j].buffer_id < e0.buffers@.len());
                } else {
                    assert(self.workspaces@[i].windows@[j] == ws0.windows@[j + 1]);
                    assert(e0.workspaces@[i].windows@[j + 1].buffer_id < e0.buffers@.len());
                }
            }
            assert forall|i: int| 0 <= i < self.workspaces@.len() implies (#[trigger] self.workspaces@[i]).wf() by {
                if i != aw as int {
                    assert(self.workspaces@[i] == e0.workspaces@[i]);
                }
            }
        }
    }

    /// Whether the focused workspace shows more than one window.
    fn has_other_windows(&self) -> (r: bool)
        requires
            self.wf(),
        ensures
            r == (self.cur_ws().layout.leaves_spec().len() > 1),
    {
        self.workspaces[self.active_workspace].layout.leaves().len() > 1
    }

    /// Takes the outcome of writing buffer `buffer_id` (asked for by a
    /// `WriteFile` effect): on success the buffer counts as saved, its
    /// language server is to be told, and then either the status line says
    /// so or, when quitting after, the focused window closes (the
    /// application ends with the last one); an error goes to the status
    /// line.
    pub fn save_finished(&mut self, buffer_id: usize, quit_after: bool, result: Result<(), String>) -> (r: Vec<
        EditorEffect,
    >)
        requires
            old(self).wf(),
            buffer_id < old(self).buffers@.len(),
        ensures
            final(self).wf(),
            save_finished_post(*old(self), *final(self), buffer_id, quit_after, result, r@),
    {
        let mut effects: Vec<EditorEffect> = Vec::new();
        match result {
            Ok(()) => {
                self.buffers[buffer_id].mark_saved();
                proof {
                    let e0 = *old(self);
                    assert forall|b: int| 0 <= b < self.buffers@.len() implies (#[trigger] self.buffers@[b]).wf() by {
                        if b != buffer_id as int {
                            assert(self.buffers@[b] == e0.buffers@[b]);
                        }
                    }
                }
                effects.push(EditorEffect::NotifyDidSave(buffer_id));
                if !quit_after {
                    self.status_message = str_to_string("Written");
                } else if self.has_other_windows() {
                    self.close_focused_window();
                } else {
                    effects.push(EditorEffect::Exit);
                    assert(effects@ =~= seq![EditorEffect::NotifyDidSave(buffer_id), EditorEffect::Exit]);
                }
            },
            Err(e) => {
                let mut msg = str_to_string("Error: ");
                string_push_str(&mut msg, e.as_str());
                self.status_message = msg;
            },
        }
        effects
    }

    /// Takes whether a language server took the request asked for by an
    /// `LspRequest` effect; when none did, the status line says so.
    pub fn lsp_request_answered(&mut self, sent: bool)
        ensures
            !sent ==> final(self).status_message@ == "LSP not ready"@,
            sent ==> final(self).status_message == old(self).status_message,
            same_content(*old(self), *final(self)),
            same_jumps(*old(self), *final(self)),
            final(self).workspaces == old(self).workspaces,
            final(self).active_workspace == old(self).active_workspace,
    {
        if !sent {
            self.status_message = str_to_string("LSP not ready");
        }
    }

    /// Inserts the system clipboard's text (asked for by a
    /// `PasteFromClipboard` effect) at the focused window's cursor; the
    /// language server is to be told when the text changed.
    pub fn paste_from_clipboard(&mut self, text: &str) -> (r: Vec<EditorEffect>)
        requires
            old(self).wf(),
            text@.len() > 0 ==> old(self).cur_win().cursor <= old(self).cur_buf()@.len() && byte_len(
                old(self).cur_buf()@,
            ) + byte_len(text@) <= usize::MAX,
        ensures
            final(self).wf(),
            ({
                let e0 = *old(self);
                let e1 = *final(self);
                let id = e0.cur_buf_id();
                let t = e0.cur_buf()@;
                let c = e0.cur_win().cursor;
                &&& only_cur_win_changed(e0, e1)
                &&& e1.buffers@.len() == e0.buffers@.len()
                &&& forall|k: int| 0 <= k < e0.buffers@.len() && k != id ==> e1.buffers@[k] == e0.buffers@[k]
                &&& text@.len() == 0 ==> e1.buffers@[id as int]@ == t && e1.cur_win().cursor == c
                &&& text@.len() > 0 ==> e1.buffers@[id as int]@ == t.take(c as int) + text@ + t.skip(c as int)
                    && e1.cur_win().cursor == c + text@.len()
                &&& e1.cur_win().buffer_id == id && e1.cur_win().selection == e0.cur_win().selection
                &&& e1.diagnostics == e0.diagnostics && e1.registers == e0.registers
                &&& e1.search_pattern == e0.search_pattern && e1.mode_display == e0.mode_display
                &&& e1.status_message == e0.status_message
                &&& same_jumps(e0, e1)
                &&& r@ == (if e1.cur_buf().version_num() != e0.cur_buf().version_num() {
                    seq![EditorEffect::NotifyDidChange(id)]
                } else {
                    Seq::<EditorEffect>::empty()
                })
            }),
    {
        let aw = self.active_workspace;
        let bid = self.workspaces[aw].window().buffer_id;
        let version_before = self.buffers[bid].version();
        paste_clipboard_text(self.workspaces[aw].window_mut(), &mut self.buffers[bid], text);
        proof {
            let e0 = *old(self);
            assert forall|b: int| 0 <= b < self.buffers@.len() implies (#[trigger] self.buffers@[b]).wf() by {
                if b != bid as int {
                    assert(self.buffers@[b] == e0.buffers@[b]);
                }
            }
            self.lemma_cur_win_change_keeps_wf_buffers(e0);
        }
        let mut effects: Vec<EditorEffect> = Vec::new();
        if self.buffers[bid].version() != version_before {
            effects.push(EditorEffect::NotifyDidChange(bid));
        }
        effects
    }

    /// A change of the focused window (on the same buffer) and of the
    /// buffers' contents keeps the editor well formed.
    proof fn lemma_cur_win_change_keeps_wf_buffers(self, e0: Editor)
        requires
            e0.wf(),
            only_cur_win_changed(e0, self),
            self.cur_win().buffer_id == e0.cur_win().buffer_id,
            self.buffers@.len() == e0.buffers@.len(),
            forall|b: int| 0 <= b < self.buffers@.len() ==> (#[trigger] self.buffers@[b]).wf(),
            self.diagnostics == e0.diagnostics,
            same_jumps(e0, self),
        ensures
            self.wf(),
    {
        let aw = e0.active_workspace as int;
        assert forall|i: int, j: int|
            0 <= i < self.workspaces@.len() && 0 <= j < self.workspaces@[i].windows@.len()
                implies #[trigger] self.workspaces@[i].windows@[j].buffer_id < self.buffers@.len() by {
            if i != aw {
                assert(self.workspaces@[i] == e0.workspaces@[i]);
            } else if j != e0.cur_ws().active_window as int {
                assert(self.workspaces@[i].windows@[j] == e0.workspaces@[i].windows@[j]);
            }
        }
        assert forall|i: int| 0 <= i < self.workspaces@.len() implies (#[trigger] self.workspaces@[i]).wf() by {
            if i != aw {
                assert(self.workspaces@[i] == e0.workspaces@[i]);
            }
        }
    }
}


/// The notice owed to the language server after an action from `e0` to
/// `e1`: the focused buffer's change count differs from that of the buffer
/// focused before.
pub open spec fn change_notice(e0: Editor, e1: Editor) -> Seq<EditorEffect> {
    if e1.cur_buf().version_num() != e0.cur_buf().version_num() {
        seq![EditorEffect::NotifyDidChange(e1.cur_buf_id())]
    } else {
        Seq::<EditorEffect>::empty()
    }
}

/// `r` ends with the change notice of `e0` to `e1`.
pub open spec fn notice_ok(e0: Editor, e1: Editor, r: Seq<EditorEffect>) -> bool {
    let n = change_notice(e0, e1);
    r.len() >= n.len() && r.skip(r.len() - n.len()) == n
}

/// The effects of `r` before the change notice.
pub open spec fn body_of(e0: Editor, e1: Editor, r: Seq<EditorEffect>) -> Seq<EditorEffect> {
    r.take(r.len() - change_notice(e0, e1).len())
}

/// The actions that the window-and-buffer core carries out, a refused edit
/// of a read-only buffer included.
pub open spec fn core_handles(e0: Editor, a: EditorAction) -> bool {
    is_core(a) || (e0.cur_buf().read_only_flag() && a.is_mutation_spec())
}

/// The core carried out `a` on the focused window and buffer, the
/// registers and the status line of `e0`, giving those of `e1`, and
/// answered `out`.
pub open spec fn core_done(e0: Editor, e1: Editor, a: EditorAction, out: CoreOutcome) -> bool {
    let w0 = e0.cur_win();
    let w1 = e1.cur_win();
    let b0 = e0.cur_buf();
    let b1 = e1.buffers@[e0.cur_buf_id() as int];
    &&& b0.read_only_flag() && a.is_mutation_spec() ==> {
        &&& out is Handled
        &&& e1.status_message@ == "Cannot edit read-only buffer"@
        &&& b1@ == b0@ && w1.cursor == w0.cursor && w1.selection == w0.selection
        &&& e1.registers.unnamed@ == e0.registers.unnamed@
    }
    &&& !(b0.read_only_flag() && a.is_mutation_spec()) ==> core_post(
        w0,
        w1,
        b0,
        b1,
        e0.registers,
        e1.registers,
        e0.status_message@,
        e1.status_message@,
        a,
        out,
    )
}

/// The effects owed for what the core answered.
pub open spec fn core_effects(out: CoreOutcome, r: Seq<EditorEffect>) -> bool {
    match out {
        CoreOutcome::CopyToClipboard(t) => r.len() == 1 && (r[0] matches EditorEffect::SetClipboard(u) && u@ == t@),
        CoreOutcome::PasteFromClipboard => r == seq![EditorEffect::PasteFromClipboard],
        _ => r.len() == 0,
    }
}

/// `e1` is `e0` with the focused window split in `dir`: a new window at
/// the same place comes after it and takes focus.
pub open spec fn split_post(e0: Editor, e1: Editor, dir: SplitDirection) -> bool {
    let a = e0.active_workspace as int;
    let ws0 = e0.cur_ws();
    let ws1 = e1.cur_ws();
    &&& e1.active_workspace == e0.active_workspace
    &&& e1.workspaces@.len() == e0.workspaces@.len()
    &&& forall|i: int| 0 <= i < e0.workspaces@.len() && i != a ==> e1.workspaces@[i] == e0.workspaces@[i]
    &&& ws1.windows@.len() == ws0.windows@.len() + 1
    &&& forall|j: int| 0 <= j < ws0.windows@.len() ==> ws1.windows@[j] == ws0.windows@[j]
    &&& ws1.windows@.last().buffer_id == e0.cur_win().buffer_id
    &&& ws1.windows@.last().cursor == e0.cur_win().cursor
    &&& ws1.layout == ws0.layout.split_spec(ws0.active_window, ws0.windows@.len() as usize, dir).0
    &&& ws1.active_window == ws0.windows@.len()
    &&& ws1.cwd == ws0.cwd
}

/// `e1` is `e0` with focus moved to the window next to the focused one in
/// `dir` (towards the second half when `forward`), if there is one.
pub open spec fn focus_post(e0: Editor, e1: Editor, dir: SplitDirection, forward: bool) -> bool {
    let a = e0.active_workspace as int;
    let ws0 = e0.cur_ws();
    let ws1 = e1.cur_ws();
    &&& e1.active_workspace == e0.active_workspace
    &&& e1.workspaces@.len() == e0.workspaces@.len()
    &&& forall|i: int| 0 <= i < e0.workspaces@.len() && i != a ==> e1.workspaces@[i] == e0.workspaces@[i]
    &&& ws1.windows@ == ws0.windows@
    &&& ws1.layout == ws0.layout
    &&& ws1.cwd == ws0.cwd
    &&& ws1.active_window == match ws0.layout.neighbor_spec(ws0.active_window, dir, forward) {
        Some(x) => x,
        None => ws0.active_window,
    }
}

/// What asking to save the focused buffer does, from `e0` to `e1` with
/// effects `r`: a read-only buffer or one without a file gives an error on
/// the status line; otherwise its text is to be written to its file.
pub open spec fn save_post(e0: Editor, e1: Editor, r: Seq<EditorEffect>, quit_after: bool) -> bool {
    let b = e0.cur_buf();
    &&& same_content(e0, e1)
    &&& same_jumps(e0, e1)
    &&& e1.workspaces == e0.workspaces && e1.active_workspace == e0.active_workspace
    &&& if b.read_only_flag() {
        r.len() == 0 && e1.status_message@ == "Error: "@ + "Cannot save read-only buffer"@
    } else if b.path_chars() is None {
        r.len() == 0 && e1.status_message@ == "Error: "@ + "Cannot save buffer without a file path"@
    } else {
        &&& e1.status_message == e0.status_message
        &&& r.len() == 1
        &&& (r[0] matches EditorEffect::WriteFile { buffer_id, path, text, quit_after: q } && buffer_id
            == e0.cur_buf_id() && b.path_chars() == Some(path@) && text@ == b@ && q == quit_after)
    }
}

/// Nothing changed but perhaps the status line.
pub open spec fn only_status(e0: Editor, e1: Editor) -> bool {
    &&& same_content(e0, e1)
    &&& same_jumps(e0, e1)
    &&& e1.workspaces == e0.workspaces && e1.active_workspace == e0.active_workspace
}

/// What `execute` needs beyond a well formed editor: what the core needs
/// for a core action, and room for one more window.
pub open spec fn execute_pre(e0: Editor, a: EditorAction) -> bool {
    &&& core_handles(e0, a) ==> core_pre(e0.cur_win(), e0.cur_buf(), e0.registers, a)
    &&& (a is VSplit || a is HSplit) ==> e0.cur_ws().windows@.len() < usize::MAX
}

/// What `execute` does with action `a`, from `e0` to `e1` with effects
/// `r`: the core's actions on the focused window and buffer, else the
/// editor's own; then, unless the application is to end, the notice of a
/// change of the focused buffer.
pub open spec fn execute_post(e0: Editor, e1: Editor, a: EditorAction, r: Seq<EditorEffect>) -> bool {
    let body = body_of(e0, e1, r);
    let id = e0.cur_buf_id();
    if core_handles(e0, a) {
        &&& only_cur_win_changed(e0, e1)
        &&& e1.cur_win().buffer_id == id
        &&& e1.cur_win().scroll_y == e0.cur_win().scroll_y && e1.cur_win().scroll_x == e0.cur_win().scroll_x
        &&& e1.cur_win().visible_lines == e0.cur_win().visible_lines
        &&& e1.cur_win().visible_cols == e0.cur_win().visible_cols
        &&& e1.buffers@.len() == e0.buffers@.len()
        &&& forall|k: int| 0 <= k < e0.buffers@.len() && k != id ==> e1.buffers@[k] == e0.buffers@[k]
        &&& e1.diagnostics == e0.diagnostics
        &&& e1.search_pattern == e0.search_pattern && e1.mode_display == e0.mode_display
        &&& same_jumps(e0, e1)
        &&& exists|out: CoreOutcome| #[trigger] core_done(e0, e1, a, out) && core_effects(out, body)
        &&& notice_ok(e0, e1, r)
    } else {
        match a {
            EditorAction::Quit { force: true } | EditorAction::ForceQuitApp => e1 == e0 && r == seq![EditorEffect::Exit],
            EditorAction::CloseWindow if e0.cur_ws().layout.leaves_spec().len() <= 1 && !exists|b: int|
                0 <= b < e0.buffers@.len() && (#[trigger] e0.buffers@[b]).modified_flag() => e1 == e0 && r
                == seq![EditorEffect::Exit],
            _ => notice_ok(e0, e1, r) && match a {
                EditorAction::SetSearchPattern(p) => {
                    &&& e1.search_pattern == p
                    &&& e1.buffers == e0.buffers && e1.diagnostics == e0.diagnostics && e1.registers == e0.registers
                    &&& e1.mode_display == e0.mode_display && same_jumps(e0, e1)
                    &&& e1.workspaces == e0.workspaces && e1.active_workspace == e0.active_workspace
                    &&& e1.status_message == e0.status_message
                    &&& body.len() == 0
                },
                EditorAction::SearchNext { count } => search_post(e0, e1, count, true) && jump_pushed(e0, e1)
                    && body.len() == 0,
                EditorAction::SearchPrev { count } => search_post(e0, e1, count, false) && jump_pushed(e0, e1)
                    && body.len() == 0,
                EditorAction::ClearSearch => {
                    let w0 = e0.cur_win();
                    let w1 = e1.cur_win();
                    &&& e1.search_pattern@ == Seq::<char>::empty()
                    &&& e1.status_message@ == Seq::<char>::empty()
                    &&& only_cur_win_changed(e0, e1)
                    &&& w1.search_matches@.len() == 0 && w1.search_cached_pattern@ == Seq::<char>::empty()
                    &&& w1.search_version == w0.search_version
                    &&& w1.cursor == w0.cursor && w1.buffer_id == w0.buffer_id && w1.selection == w0.selection
                    &&& w1.scroll_y == w0.scroll_y && w1.scroll_x == w0.scroll_x
                    &&& w1.visible_lines == w0.visible_lines && w1.visible_cols == w0.visible_cols
                    &&& e1.buffers == e0.buffers && e1.diagnostics == e0.diagnostics && e1.registers == e0.registers
                    &&& e1.mode_display == e0.mode_display && same_jumps(e0, e1)
                    &&& body.len() == 0
                },
                EditorAction::Save => save_post(e0, e1, body, false),
                EditorAction::WriteQuit => save_post(e0, e1, body, true),
                EditorAction::Quit { force: false } => only_status(e0, e1) && body.len() == 0
                    && e1.status_message@ == "Use :qa! to force quit all, or :wq to save and close"@,
                EditorAction::CloseWindow => {
                    &&& body.len() == 0
                    &&& if e0.cur_ws().layout.leaves_spec().len() > 1 {
                        window_closed(e0, e1) && same_content(e0, e1) && same_jumps(e0, e1)
                            && e1.status_message == e0.status_message
                    } else {
                        only_status(e0, e1)
                            && e1.status_message@ == "Unsaved changes! Use :q! to force quit, or :wq to save and close"@
                    }
                },
                EditorAction::OpenFile(p) => open_file_post(e0, e1, p@, None, body) && jump_pushed(e0, e1),
                EditorAction::OpenFileAtPosition { path, line, col } => open_file_post(
                    e0,
                    e1,
                    path@,
                    Some((line, col)),
                    body,
                ) && jump_pushed(e0, e1),
                EditorAction::NextBuffer => body.len() == 0 && if e0.buffers@.len() <= 1 {
                    e1 == e0
                } else {
                    cycled_to(e0, e1, next_id(id, e0.buffers@.len()))
                },
                EditorAction::PrevBuffer => body.len() == 0 && if e0.buffers@.len() <= 1 {
                    e1 == e0
                } else {
                    cycled_to(e0, e1, prev_id(id, e0.buffers@.len()))
                },
                EditorAction::CloseBuffer => close_buffer_post(e0, e1, body),
                EditorAction::VSplit => split_post(e0, e1, SplitDirection::Vertical) && same_content(e0, e1)
                    && same_jumps(e0, e1) && e1.status_message == e0.status_message && body.len() == 0,
                EditorAction::HSplit => split_post(e0, e1, SplitDirection::Horizontal) && same_content(e0, e1)
                    && same_jumps(e0, e1) && e1.status_message == e0.status_message && body.len() == 0,
                EditorAction::FocusLeft => focus_post(e0, e1, SplitDirection::Vertical, false) && same_content(e0, e1)
                    && same_jumps(e0, e1) && e1.status_message == e0.status_message && body.len() == 0,
                EditorAction::FocusRight => focus_post(e0, e1, SplitDirection::Vertical, true) && same_content(e0, e1)
                    && same_jumps(e0, e1) && e1.status_message == e0.status_message && body.len() == 0,
                EditorAction::FocusUp => focus_post(e0, e1, SplitDirection::Horizontal, false) && same_content(
                    e0,
                    e1,
                ) && same_jumps(e0, e1) && e1.status_message == e0.status_message && body.len() == 0,
                EditorAction::FocusDown => focus_post(e0, e1, SplitDirection::Horizontal, true) && same_content(
                    e0,
                    e1,
                ) && same_jumps(e0, e1) && e1.status_message == e0.status_message && body.len() == 0,
                EditorAction::SetMode(m) => {
                    &&& e1.mode_display == m
                    &&& e1.buffers == e0.buffers && e1.diagnostics == e0.diagnostics && e1.registers == e0.registers
                    &&& e1.search_pattern == e0.search_pattern && same_jumps(e0, e1)
                    &&& e1.workspaces == e0.workspaces && e1.active_workspace == e0.active_workspace
                    &&& e1.status_message == e0.status_message
                    &&& body.len() == 0
                },
                EditorAction::LspGotoDefinition => lsp_post(e0, e1, body, LspRequestKind::Definition),
                EditorAction::LspReferences => lsp_post(e0, e1, body, LspRequestKind::References),
                EditorAction::LspImplementation => lsp_post(e0, e1, body, LspRequestKind::Implementation),
                EditorAction::LspDeclaration => lsp_post(e0, e1, body, LspRequestKind::Declaration),
                EditorAction::JumpBackward => jump_back_post(e0, e1) && body.len() == 0,
                EditorAction::JumpForward => jump_forward_post(e0, e1) && body.len() == 0,
                EditorAction::SwitchToBuffer(b) => body.len() == 0 && if b < e0.buffers@.len() {
                    switched_to(e0, e1, b, e0.cur_win().cursor as int) && same_jumps(e0, e1)
                } else {
                    e1 == e0
                },
                _ => e1 == e0 && body.len() == 0,
            },
        }
    }
}

/// An LSP action: the place is recorded in the jump list and the request
/// is to be sent for the focused buffer at the cursor.
pub open spec fn lsp_post(e0: Editor, e1: Editor, r: Seq<EditorEffect>, kind: LspRequestKind) -> bool {
    &&& same_but_jumps(e0, e1)
    &&& jump_pushed(e0, e1)
    &&& r == seq![EditorEffect::LspRequest { kind, buffer_id: e0.cur_buf_id(), cursor: e0.cur_win().cursor }]
}


impl Editor {
    /// Asks for the focused buffer to be saved: a read-only buffer or one
    /// without a file gives an error on the status line; otherwise its text
    /// is to be written to its file.
    fn save_focused(&mut self, quit_after: bool) -> (r: Vec<EditorEffect>)
        requires
            old(self).wf(),
        ensures
            final(self).wf(),
            save_post(*old(self), *final(self), r@, quit_after),
    {
        let aw = self.active_workspace;
        let bid = self.workspaces[aw].window().buffer_id;
        let mut effects: Vec<EditorEffect> = Vec::new();
        match self.buffers[bid].save_path() {
            Ok(path) => {
                let text = self.buffers[bid].text();
                effects.push(EditorEffect::WriteFile { buffer_id: bid, path, text, quit_after });
            },
            Err(e) => {
                let mut msg = str_to_string("Error: ");
                string_push_str(&mut msg, e.as_str());
                self.status_message = msg;
            },
        }
        effects
    }

    /// Appends the notice that the focused buffer changed, when its change
    /// count differs from `version_before`.
    fn notice_change(&self, version_before: u64, effects: &mut Vec<EditorEffect>)
        requires
            self.wf(),
        ensures
            final(effects)@ == old(effects)@ + (if self.cur_buf().version_num() != version_before {
                seq![EditorEffect::NotifyDidChange(self.cur_buf_id())]
            } else {
                Seq::<EditorEffect>::empty()
            }),
    {
        let aw = self.active_workspace;
        let bid = self.workspaces[aw].window().buffer_id;
        if self.buffers[bid].version() != version_before {
            effects.push(EditorEffect::NotifyDidChange(bid));
        } else {
            assert(effects@ =~= old(effects)@ + Seq::<EditorEffect>::empty());
        }
    }

    /// Splits the focused window in `direction`.
    fn split_focused(&mut self, direction: SplitDirection)
        requires
            old(self).wf(),
            old(self).cur_ws().windows@.len() < usize::MAX,
        ensures
            final(self).wf(),
            split_post(*old(self), *final(self), direction),
            same_content(*old(self), *final(self)),
            same_jumps(*old(self), *final(self)),
            final(self).status_message == old(self).status_message,
    {
        let aw = self.active_workspace;
        self.workspaces[aw].split(direction);
        proof {
            let e0 = *old(self);
            let ws0 = e0.cur_ws();
            assert forall|i: int, j: int|
                0 <= i < self.workspaces@.len() && 0 <= j < self.workspaces@[i].windows@.len()
                    implies #[trigger] self.workspaces@[i].windows@[j].buffer_id < self.buffers@.len() by {
                if i != aw as int {
                    assert(self.workspaces@[i] == e0.workspaces@[i]);
                } else if j < ws0.windows@.len() {
                    assert(self.workspaces@[i].windows@[j] == ws0.windows@[j]);
                    assert(e0.workspaces@[i].windows@[j].buffer_id < e0.buffers@.len());
                } else {
                    assert(e0.workspaces@[i].windows@[ws0.active_window as int].buffer_id < e0.buffers@.len());
                }
            }
            assert forall|i: int| 0 <= i < self.workspaces@.len() implies (#[trigger] self.workspaces@[i]).wf() by {
                if i != aw as int {
                    assert(self.workspaces@[i] == e0.workspaces@[i]);
                }
            }
        }
    }

    /// Moves focus to the window next to the focused one.
    fn focus_towards(&mut self, direction: SplitDirection, forward: bool)
        requires
            old(self).wf(),
        ensures
            final(self).wf(),
            focus_post(*old(self), *final(self), direction, forward),
            same_content(*old(self), *final(self)),
            same_jumps(*old(self), *final(self)),
            final(self).status_message == old(self).status_message,
    {
        let aw = self.active_workspace;
        self.workspaces[aw].focus_direction(direction, forward);
        proof {
            let e0 = *old(self);
            assert forall|i: int, j: int|
                0 <= i < self.workspaces@.len() && 0 <= j < self.workspaces@[i].windows@.len()
                    implies #[trigger] self.workspaces@[i].windows@[j].buffer_id < self.buffers@.len() by {
                if i != aw as int {
                    assert(self.workspaces@[i] == e0.workspaces@[i]);
                } else {
                    assert(self.workspaces@[i].windows@[j] == e0.workspaces@[i].windows@[j]);
                }
            }
            assert forall|i: int| 0 <= i < self.workspaces@.len() implies (#[trigger] self.workspaces@[i]).wf() by {
                if i != aw as int {
                    assert(self.workspaces@[i] == e0.workspaces@[i]);
                }
            }
        }
    }

    /// Records the place and asks for an LSP request at the cursor.
    fn lsp_request(&mut self, kind: LspRequestKind) -> (r: Vec<EditorEffect>)
        requires
            old(self).wf(),
        ensures
            final(self).wf(),
            lsp_post(*old(self), *final(self), r@, kind),
    {
        self.push_jump();
        let aw = self.active_workspace;
        let bid = self.workspaces[aw].window().buffer_id;
        let cursor = self.workspaces[aw].cursor();
        let mut effects: Vec<EditorEffect> = Vec::new();
        effects.push(EditorEffect::LspRequest { kind, buffer_id: bid, cursor });
        effects
    }

    /// Clears the search pattern, the status line and the focused window's
    /// matches.
    fn clear_search(&mut self)
        requires
            old(self).wf(),
        ensures
            final(self).wf(),
            ({
                let e0 = *old(self);
                let e1 = *final(self);
                let w0 = e0.cur_win();
                let w1 = e1.cur_win();
                &&& e1.search_pattern@ == Seq::<char>::empty()
                &&& e1.status_message@ == Seq::<char>::empty()
                &&& only_cur_win_changed(e0, e1)
                &&& w1.search_matches@.len() == 0 && w1.search_cached_pattern@ == Seq::<char>::empty()
                &&& w1.search_version == w0.search_version
                &&& w1.cursor == w0.cursor && w1.buffer_id == w0.buffer_id && w1.selection == w0.selection
                &&& w1.scroll_y == w0.scroll_y && w1.scroll_x == w0.scroll_x
                &&& w1.visible_lines == w0.visible_lines && w1.visible_cols == w0.visible_cols
                &&& e1.buffers == e0.buffers && e1.diagnostics == e0.diagnostics && e1.registers == e0.registers
                &&& e1.mode_display == e0.mode_display && same_jumps(e0, e1)
            }),
    {
        self.search_pattern = String::new();
        self.status_message = String::new();
        let aw = self.active_workspace;
        let w = self.workspaces[aw].window_mut();
        w.search_matches = Vec::new();
        w.search_cached_pattern = String::new();
        proof {
            self.lemma_cur_win_change_keeps_wf(*old(self));
        }
    }

    /// Whether the core carries out `action` on the focused buffer.
    fn handled_by_core(&self, action: &EditorAction) -> (r: bool)
        requires
            self.wf(),
        ensures
            r == core_handles(*self, *action),
    {
        let core = is_core_action(action);
        let aw = self.active_workspace;
        let bid = self.workspaces[aw].window().buffer_id;
        core || (self.buffers[bid].is_read_only() && action.is_mutation())
    }

    /// Carries out `action`: the core's actions on the focused window and
    /// buffer first, else the editor's own (search, files, buffers,
    /// windows, jumps, LSP requests, quitting). Returns the work left to
    /// the caller, ending, unless the application is to end, with the
    /// notice that the focused buffer changed.
    #[verifier::rlimit(40)]
    pub fn execute(&mut self, action: EditorAction) -> (r: Vec<EditorEffect>)
        requires
            old(self).wf(),
            execute_pre(*old(self), action),
        ensures
            final(self).wf(),
            execute_post(*old(self), *final(self), action, r@),
    {
        let ghost e0 = *self;
        let aw = self.active_workspace;
        let bid = self.workspaces[aw].window().buffer_id;
        let version_before = self.buffers[bid].version();
        let mut effects: Vec<EditorEffect> = Vec::new();
        if self.handled_by_core(&action) {
            let out = execute_core(
                self.workspaces[aw].window_mut(),
                &mut self.buffers[bid],
                &mut self.registers,
                &mut self.status_message,
                &action,
            );
            let ghost out_g = out;
            proof {
                assert forall|b: int| 0 <= b < self.buffers@.len() implies (#[trigger] self.buffers@[b]).wf() by {
                    if b != bid as int {
                        assert(self.buffers@[b] == e0.buffers@[b]);
                    }
                }
                self.lemma_cur_win_change_keeps_wf_buffers(e0);
                assert(core_done(e0, *self, action, out_g));
            }
            match out {
                CoreOutcome::CopyToClipboard(t) => {
                    effects.push(EditorEffect::SetClipboard(t));
                },
                CoreOutcome::PasteFromClipboard => {
                    effects.push(EditorEffect::PasteFromClipboard);
                },
                _ => {},
            }
            let ghost body = effects@;
            self.notice_change(version_before, &mut effects);
            proof {
                assert(effects@.take(body.len() as int) =~= body);
                assert(effects@.skip(body.len() as int) =~= change_notice(e0, *self));
            }
            return effects;
        }
        match action {
            EditorAction::SetSearchPattern(pattern) => {
                self.search_pattern = pattern;
            },
            EditorAction::SearchNext { count } => {
                self.push_jump();
                self.search_step(count, true);
            },
            EditorAction::SearchPrev { count } => {
                self.push_jump();
                self.search_step(count, false);
            },
            EditorAction::ClearSearch => {
                self.clear_search();
            },
            EditorAction::Save => {
                effects = self.save_focused(false);
            },
            EditorAction::Quit { force } => {
                if force {
                    effects.push(EditorEffect::Exit);
                    return effects;
                }
                self.status_message = str_to_string("Use :qa! to force quit all, or :wq to save and close");
            },
            EditorAction::ForceQuitApp => {
                effects.push(EditorEffect::Exit);
                return effects;
            },
            EditorAction::WriteQuit => {
                effects = self.save_focused(true);
            },
            EditorAction::OpenFile(path) => {
                self.push_jump();
                effects = self.open_file_at(path.as_str(), None);
            },
            EditorAction::NextBuffer => {
                self.next_buffer();
            },
            EditorAction::PrevBuffer => {
                self.prev_buffer();
            },
            EditorAction::CloseBuffer => {
                effects = self.close_buffer();
            },
            EditorAction::VSplit => {
                self.split_focused(SplitDirection::Vertical);
            },
            EditorAction::HSplit => {
                self.split_focused(SplitDirection::Horizontal);
            },
            EditorAction::CloseWindow => {
                if self.has_other_windows() {
                    self.close_focused_window();
                } else if self.has_unsaved_changes() {
                    self.status_message = str_to_string(
                        "Unsaved changes! Use :q! to force quit, or :wq to save and close",
                    );
                } else {
                    effects.push(EditorEffect::Exit);
                    return effects;
                }
            },
            EditorAction::FocusLeft => {
                self.focus_towards(SplitDirection::Vertical, false);
            },
            EditorAction::FocusRight => {
                self.focus_towards(SplitDirection::Vertical, true);
            },
            EditorAction::FocusUp => {
                self.focus_towards(SplitDirection::Horizontal, false);
            },
            EditorAction::FocusDown => {
                self.focus_towards(SplitDirection::Horizontal, true);
            },
            EditorAction::SetMode(mode) => {
                self.mode_display = mode;
            },
            EditorAction::LspGotoDefinition => {
                effects = self.lsp_request(LspRequestKind::Definition);
            },
            EditorAction::LspReferences => {
                effects = self.lsp_request(LspRequestKind::References);
            },
            EditorAction::LspImplementation => {
                effects = self.lsp_request(LspRequestKind::Implementation);
            },
            EditorAction::LspDeclaration => {
                effects = self.lsp_request(LspRequestKind::Declaration);
            },
            EditorAction::JumpBackward => {
                self.jump_backward();
            },
            EditorAction::JumpForward => {
                self.jump_forward();
            },
            EditorAction::SwitchToBuffer(buf_id) => {
                if buf_id < self.buffers.len() {
                    let cursor = self.workspaces[aw].cursor();
                    self.show_buffer_at(buf_id, cursor);
                }
            },
            EditorAction::OpenFileAtPosition { path, line, col } => {
                self.push_jump();
                effects = self.open_file_at(path.as_str(), Some((line, col)));
            },
            _ => {},
        }
        let ghost body = effects@;
        self.notice_change(version_before, &mut effects);
        proof {
            assert(effects@.take(body.len() as int) =~= body);
            assert(effects@.skip(body.len() as int) =~= change_notice(e0, *self));
        }
        effects
    }
}


/// The buffer list's entry for a buffer named `name`: the name, marked
/// ` [+]` when modified.
pub open spec fn list_entry(name: Seq<char>, modified: bool) -> Seq<char> {
    if modified { name + " [+]"@ } else { name }
}

impl Editor {
    /// Scrolls the focused window so that its cursor stays visible.
    pub fn ensure_cursor_visible(&mut self)
        requires
            old(self).wf(),
            old(self).cur_win().cursor <= old(self).cur_buf()@.len(),
            old(self).cur_buf()@.len() + 16 <= usize::MAX,
            old(self).cur_win().scroll_y + old(self).cur_win().visible_lines + 16 <= usize::MAX,
            old(self).cur_win().scroll_x + old(self).cur_win().visible_cols + 16 <= usize::MAX,
        ensures
            final(self).wf(),
            only_cur_win_changed(*old(self), *final(self)),
            same_content(*old(self), *final(self)),
            same_jumps(*old(self), *final(self)),
            final(self).status_message == old(self).status_message,
            ({
                let w0 = old(self).cur_win();
                let w1 = final(self).cur_win();
                let t = old(self).cur_buf()@;
                &&& w1.scroll_y == scroll_y_for(
                    line_of(t, w0.cursor as int) as int,
                    w0.scroll_y as int,
                    w0.visible_lines as int,
                    line_count(t) as int,
                )
                &&& w1.scroll_x == scroll_x_for(col_of(t, w0.cursor as int), w0.scroll_x as int, w0.visible_cols as int)
                &&& w1.cursor == w0.cursor && w1.buffer_id == w0.buffer_id && w1.selection == w0.selection
                &&& w1.visible_lines == w0.visible_lines && w1.visible_cols == w0.visible_cols
            }),
    {
        let aw = self.active_workspace;
        let bid = self.workspaces[aw].window().buffer_id;
        self.workspaces[aw].window_mut().ensure_cursor_visible(&self.buffers[bid]);
        proof {
            self.lemma_cur_win_change_keeps_wf(*old(self));
        }
    }

    /// Each buffer's index and name, marked ` [+]` when it has unsaved
    /// changes.
    pub fn buffer_list(&self) -> (r: Vec<(usize, String)>)
        requires
            self.shape_ok(),
        ensures
            r@.len() == self.buffers@.len(),
            forall|i: int|
                0 <= i < r@.len() ==> (#[trigger] r@[i]).0 == i && r@[i].1@ == list_entry(
                    self.buffers@[i].name_chars(),
                    self.buffers@[i].modified_flag(),
                ),
    {
        let mut list: Vec<(usize, String)> = Vec::new();
        let mut i: usize = 0;
        while i < self.buffers.len()
            invariant
                self.shape_ok(),
                i <= self.buffers@.len(),
                list@.len() == i,
                forall|k: int|
                    0 <= k < i ==> (#[trigger] list@[k]).0 == k && list@[k].1@ == list_entry(
                        self.buffers@[k].name_chars(),
                        self.buffers@[k].modified_flag(),
                    ),
            decreases self.buffers@.len() - i,
        {
            let mut entry = str_to_string(self.buffers[i].name());
            if self.buffers[i].is_modified() {
                string_push_str(&mut entry, " [+]");
            }
            list.push((i, entry));
            i = i + 1;
        }
        list
    }
}

/// Going back in the jump list from its newest place and then forward
/// again shows the buffer and cursor (kept on the text) that were shown
/// before.
pub proof fn law_jump_back_then_forward_returns(e0: Editor, e1: Editor, e2: Editor, r1: Seq<EditorEffect>, r2: Seq<EditorEffect>)
    requires
        e0.wf(),
        e0.jump_pos() == e0.jumps().len(),
        e0.jumps().len() > 0,
        execute_post(e0, e1, EditorAction::JumpBackward, r1),
        e1.wf(),
        execute_post(e1, e2, EditorAction::JumpForward, r2),
    ensures
        e2.cur_buf_id() == e0.cur_buf_id(),
        e2.cur_win().cursor == clamp_to(e0.cur_buf()@.len(), e0.cur_win().cursor as int),
{
    assert(!core_handles(e0, EditorAction::JumpBackward));
    assert(!core_handles(e1, EditorAction::JumpForward));
    let e = back_entries(e0.jumps(), e0.jump_pos(), (e0.cur_buf_id(), e0.cur_win().cursor));
    assert(e1.jumps() == e);
    assert(e[e0.jump_pos() as int] == (e0.cur_buf_id(), e0.cur_win().cursor));
    assert(e1.buffers == e0.buffers);
}

/// Showing the next buffer and then the previous one comes back to the
/// buffer shown at first.
pub proof fn law_next_then_prev_buffer(e0: Editor, e1: Editor, e2: Editor, r1: Seq<EditorEffect>, r2: Seq<EditorEffect>)
    requires
        e0.wf(),
        execute_post(e0, e1, EditorAction::NextBuffer, r1),
        e1.wf(),
        execute_post(e1, e2, EditorAction::PrevBuffer, r2),
    ensures
        e2.cur_buf_id() == e0.cur_buf_id(),
{
    assert(!core_handles(e0, EditorAction::NextBuffer));
    assert(!core_handles(e1, EditorAction::PrevBuffer));
    let n = e0.buffers@.len();
    if n > 1 {
        assert(e1.buffers == e0.buffers);
        let i = e0.cur_buf_id();
        assert(i < n);
        assert(n == e0.buffers.len());
        if i + 1 < n {
            vstd::arithmetic::div_mod::lemma_small_mod((i + 1) as nat, n);
            assert(((i + 1) as int) % (n as int) == i + 1);
            assert(next_id(i, n) == i + 1);
        } else {
            vstd::arithmetic::div_mod::lemma_mod_self_0(n as int);
            assert(i + 1 == n);
            assert(next_id(i, n) == 0);
        }
        assert(prev_id(next_id(i, n), n) == i);
    }
}


/// The text of the buffer shown when no file is given.
pub open spec fn welcome_text() -> Seq<char> {
    "Welcome to remax.\n\nPress 'i' to enter insert mode.\nPress 'Esc' to return to normal mode.\nUse h/j/k/l to navigate."@
}

/// The buffer shown when no file is given: `*scratch*`, holding a short
/// welcome (typed in, so it counts as unsaved).
pub fn create_scratch_buffer() -> (b: Buffer)
    ensures
        b.wf(),
        b@ == welcome_text(),
        b.name_chars() == "*scratch*"@,
        b.path_chars() is None,
        b.modified_flag(),
{
    let text = "Welcome to remax.\n\nPress 'i' to enter insert mode.\nPress 'Esc' to return to normal mode.\nUse h/j/k/l to navigate.";
    let mut buffer = Buffer::new();
    buffer.set_name("*scratch*");
    let bytes = text.as_bytes().len();
    assert(byte_len(buffer@) == 0) by {
        assert(encode_utf8(buffer@) =~= Seq::<u8>::empty());
    }
    buffer.insert_str(0, text);
    assert(buffer@ =~= welcome_text());
    buffer
}

} // verus!

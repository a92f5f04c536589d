//! A floating panel: a read-only buffer shown near the cursor (hover text,
//! diagnostics) that can be focused and navigated with its own key
//! handling, but not edited.
use vstd::prelude::*;
use vstd::utf8::encode_utf8;
use crate::action::{EditorAction, Motion, ActionView};
use crate::buffer::{Buffer, occurrences};
use crate::core_actions::{
    resolve_motion, resolve_motion_spec, half_page, search_next_in, search_prev_in, next_iter, prev_iter,
    visual_selection, selection_for, yanked, first_after, last_before,
};
use crate::action::{Range, action_views};
use crate::vim::with_visual_update;
use crate::editor::{cache_refreshed, clamp_to};
use crate::keys::{Key, KeyModifiers, NamedKey};
use crate::strs::str_eq;
use crate::text::{line_of, col_of, line_count, line_start};
use crate::vim::VimLayer;
use crate::vim::mode::VimMode;
use crate::vim::input::{input_ok, key_view, text_view};
use crate::window::{Window, scroll_y_for, scroll_x_for};

verus! {

/// The window id under which events for the panel's own window arrive.
pub const PANEL_WINDOW_ID: usize = usize::MAX;

/// What a panel shows.
#[derive(Debug, Clone, Copy, PartialEq, Eq, Structural)]
pub enum PanelKind {
    LspHover,
    Diagnostic,
}

/// Where a panel is placed.
#[derive(Debug, Clone, Copy, PartialEq, Eq, Structural)]
pub enum PanelPosition {
    /// Near the cursor at `line`, `col`, in a window scrolled by
    /// `scroll_y` lines and `scroll_x` columns.
    AtCursor { line: usize, col: usize, scroll_y: usize, scroll_x: usize },
}

/// What a key in a focused panel asks of the application.
pub enum PanelEvent {
    /// Close the panel.
    Dismiss,
    /// Put the text in the unnamed register and on the system clipboard.
    YankToRegister(String),
    /// Nothing.
    Noop,
}

/// A read-only buffer with a window, key handling and a search pattern of
/// its own.
pub struct PanelBuffer {
    pub buffer: Buffer,
    pub window: Window,
    pub vim: VimLayer,
    pub search_pattern: String,
}

/// `w1` is `w0` scrolled so that its cursor is visible in text `t`.
pub open spec fn scrolled(w0: Window, w1: Window, t: Seq<char>) -> bool {
    &&& w1.scroll_y == scroll_y_for(
        line_of(t, w0.cursor as int) as int,
        w0.scroll_y as int,
        w0.visible_lines as int,
        line_count(t) as int,
    )
    &&& w1.scroll_x == scroll_x_for(col_of(t, w0.cursor as int), w0.scroll_x as int, w0.visible_cols as int)
    &&& w1.cursor == w0.cursor && w1.buffer_id == w0.buffer_id && w1.selection == w0.selection
    &&& w1.visible_lines == w0.visible_lines && w1.visible_cols == w0.visible_cols
    &&& w1.search_matches@ == w0.search_matches@
    &&& w1.search_version == w0.search_version
    &&& w1.search_cached_pattern@ == w0.search_cached_pattern@
}

/// What an action needs in a panel, whatever the panel's state: the
/// motion's count fits, a visual anchor lies on the text.
pub open spec fn panel_action_ok(a: ActionView, len: nat, visible_lines: usize) -> bool {
    match a {
        ActionView::MoveCursor { motion, count } => half_page(visible_lines as int) * count <= usize::MAX,
        ActionView::UpdateVisualSelection { anchor, mode } => if mode == VimMode::VisualLine {
            anchor <= len
        } else {
            anchor < usize::MAX
        },
        _ => true,
    }
}

impl PanelBuffer {
    /// The buffer is well formed and small enough for scrolling arithmetic,
    /// the window's size is bounded, and the cursor, scroll offsets and
    /// cached matches lie on the text.
    pub open spec fn wf(&self) -> bool {
        let n = self.buffer@.len();
        &&& self.buffer.wf()
        &&& n + 131072 <= usize::MAX
        &&& self.window.cursor <= n
        &&& self.window.visible_lines <= 65536 && self.window.visible_cols <= 65536
        &&& self.window.scroll_y <= n + 16 && self.window.scroll_x <= n + 16
        &&& forall|k: int| 0 <= k < self.window.search_matches@.len() ==> #[trigger] self.window.search_matches@[k] <= n
    }

    /// A panel showing `content`, named `name`, cursor at the start, in
    /// normal mode.
    pub fn new(content: &str, name: &str) -> (p: Self)
        requires
            content@.len() + 131072 <= usize::MAX,
        ensures
            p.wf(),
            p.buffer@ == content@,
            p.buffer.read_only_flag(),
            p.buffer.name_chars() == name@,
            p.window.cursor == 0,
            p.vim.input_view().mode == VimMode::Normal,
            p.search_pattern@ == Seq::<char>::empty(),
    {
        let buffer = Buffer::new_readonly(content, name);
        let window = Window::new(0);
        let vim = VimLayer::new();
        PanelBuffer { buffer, window, vim, search_pattern: String::new() }
    }

    /// Scrolls the window so that the cursor is visible.
    fn scroll_to_cursor(&mut self)
        requires
            old(self).wf(),
        ensures
            final(self).wf(),
            scrolled(old(self).window, final(self).window, old(self).buffer@),
            final(self).buffer == old(self).buffer,
            final(self).vim == old(self).vim,
            final(self).search_pattern == old(self).search_pattern,
    {
        proof {
            crate::strs::lemma_byte_len_ge(self.buffer@);
        }
        self.window.ensure_cursor_visible(&self.buffer);
        proof {
            let t = self.buffer@;
            let c = old(self).window.cursor as int;
            crate::text::lemma_nl_count_le_len(t);
            crate::text::lemma_line_of_bounds(t, c);
            crate::text::lemma_line_start_bounds(t, line_of(t, c));
        }
    }

    /// Moves the cursor by `count` repetitions of `motion` and scrolls to
    /// it.
    fn move_cursor(&mut self, motion: &Motion, count: usize)
        requires
            old(self).wf(),
            half_page(old(self).window.visible_lines as int) * count <= usize::MAX,
        ensures
            final(self).wf(),
            ({
                let t = old(self).buffer@;
                let w0 = old(self).window;
                let c = resolve_motion_spec(t, w0.cursor as int, w0.visible_lines as int, *motion, count as nat);
                &&& exists|w: Window|
                    w.cursor == c && w.scroll_y == w0.scroll_y && w.scroll_x == w0.scroll_x
                        && w.visible_lines == w0.visible_lines && w.visible_cols == w0.visible_cols
                        && w.buffer_id == w0.buffer_id && w.selection == w0.selection
                        && w.search_matches@ == w0.search_matches@ && w.search_version == w0.search_version
                        && w.search_cached_pattern@ == w0.search_cached_pattern@
                        && #[trigger] scrolled(w, final(self).window, t)
            }),
            final(self).buffer == old(self).buffer,
            final(self).vim == old(self).vim,
            final(self).search_pattern == old(self).search_pattern,
    {
        let c = resolve_motion(&self.buffer, self.window.cursor, self.window.visible_lines, motion, count);
        self.window.cursor = c;
        let ghost w = self.window;
        self.scroll_to_cursor();
        proof {
            assert(scrolled(w, self.window, self.buffer@));
        }
    }
}


/// `w1` equals `w0` in every field, the cached matches and pattern by
/// their contents.
pub open spec fn same_window(w0: Window, w1: Window) -> bool {
    &&& w1.buffer_id == w0.buffer_id && w1.cursor == w0.cursor && w1.selection == w0.selection
    &&& w1.scroll_y == w0.scroll_y && w1.scroll_x == w0.scroll_x
    &&& w1.visible_lines == w0.visible_lines && w1.visible_cols == w0.visible_cols
    &&& w1.search_matches@ == w0.search_matches@ && w1.search_version == w0.search_version
    &&& w1.search_cached_pattern@ == w0.search_cached_pattern@
}

/// `w1` is `w0` with only the cursor moved, to `c`.
pub open spec fn cursor_moved(w0: Window, w1: Window, c: int) -> bool {
    &&& w1.cursor == c
    &&& w1.buffer_id == w0.buffer_id && w1.selection == w0.selection
    &&& w1.scroll_y == w0.scroll_y && w1.scroll_x == w0.scroll_x
    &&& w1.visible_lines == w0.visible_lines && w1.visible_cols == w0.visible_cols
    &&& w1.search_matches@ == w0.search_matches@ && w1.search_version == w0.search_version
    &&& w1.search_cached_pattern@ == w0.search_cached_pattern@
}

/// A search step in a panel, from window `w0` to `w1` with pattern `pat`
/// in buffer `b`: nothing without a pattern or matches; else the cursor
/// moves `count` matches on (or back) and the window scrolls to it.
pub open spec fn panel_search(w0: Window, w1: Window, b: Buffer, pat: Seq<char>, count: usize, forward: bool) -> bool {
    if pat.len() == 0 {
        same_window(w0, w1)
    } else {
        exists|wm: Window|
            #[trigger] cache_refreshed(w0, wm, b, pat) && wm.cursor == w0.cursor && wm.buffer_id == w0.buffer_id
                && wm.selection == w0.selection && wm.scroll_y == w0.scroll_y && wm.scroll_x == w0.scroll_x
                && wm.visible_lines == w0.visible_lines && wm.visible_cols == w0.visible_cols && if wm.search_matches@.len()
                == 0 {
                same_window(wm, w1)
            } else {
                exists|wc: Window|
                    cursor_moved(
                        wm,
                        wc,
                        if forward {
                            next_iter(wm.search_matches@, w0.cursor as int, count as nat)
                        } else {
                            prev_iter(wm.search_matches@, w0.cursor as int, count as nat)
                        },
                    ) && #[trigger] scrolled(wc, w1, b@)
            }
    }
}

/// The window of a panel after action `a` and before the final scroll,
/// from window `w0` and pattern `pat0` to `w1` and `pat1`, in buffer `b`.
pub open spec fn panel_moved(
    w0: Window,
    pat0: Seq<char>,
    w1: Window,
    pat1: Seq<char>,
    a: ActionView,
    b: Buffer,
) -> bool {
    let t = b@;
    match a {
        ActionView::MoveCursor { motion, count } => pat1 == pat0 && exists|wc: Window|
            cursor_moved(w0, wc, resolve_motion_spec(t, w0.cursor as int, w0.visible_lines as int, motion, count as nat))
                && #[trigger] scrolled(wc, w1, t),
        ActionView::SetCursor(p) => pat1 == pat0 && cursor_moved(w0, w1, clamp_to(t.len(), p as int)),
        ActionView::SetSearchPattern(p) => pat1 == p && same_window(w0, w1),
        ActionView::SearchNext { count } => pat1 == pat0 && panel_search(w0, w1, b, pat0, count, true),
        ActionView::SearchPrev { count } => pat1 == pat0 && panel_search(w0, w1, b, pat0, count, false),
        ActionView::ClearSearch => {
            &&& pat1 == Seq::<char>::empty()
            &&& w1.search_matches@.len() == 0 && w1.search_cached_pattern@ == Seq::<char>::empty()
            &&& w1.buffer_id == w0.buffer_id && w1.cursor == w0.cursor && w1.selection == w0.selection
            &&& w1.scroll_y == w0.scroll_y && w1.scroll_x == w0.scroll_x
            &&& w1.visible_lines == w0.visible_lines && w1.visible_cols == w0.visible_cols
            &&& w1.search_version == w0.search_version
        },
        ActionView::SetSelection(sel) => {
            &&& pat1 == pat0
            &&& w1.selection == sel
            &&& w1.buffer_id == w0.buffer_id && w1.cursor == w0.cursor
            &&& w1.scroll_y == w0.scroll_y && w1.scroll_x == w0.scroll_x
            &&& w1.visible_lines == w0.visible_lines && w1.visible_cols == w0.visible_cols
            &&& w1.search_matches@ == w0.search_matches@ && w1.search_version == w0.search_version
            &&& w1.search_cached_pattern@ == w0.search_cached_pattern@
        },
        ActionView::UpdateVisualSelection { anchor, mode } => {
            let v = visual_selection(t, anchor as int, w0.cursor as int, mode == VimMode::VisualLine);
            &&& pat1 == pat0
            &&& w1.selection is Some && (w1.selection->0).0 == v.0 && (w1.selection->0).1 == v.1
            &&& w1.buffer_id == w0.buffer_id && w1.cursor == w0.cursor
            &&& w1.scroll_y == w0.scroll_y && w1.scroll_x == w0.scroll_x
            &&& w1.visible_lines == w0.visible_lines && w1.visible_cols == w0.visible_cols
            &&& w1.search_matches@ == w0.search_matches@ && w1.search_version == w0.search_version
            &&& w1.search_cached_pattern@ == w0.search_cached_pattern@
        },
        _ => pat1 == pat0 && same_window(w0, w1),
    }
}

/// `next_iter` and `prev_iter` stay among the matches and the start.
proof fn lemma_iter_bound(ms: Seq<usize>, c: int, n: nat, bound: int)
    requires
        c <= bound,
        forall|k: int| 0 <= k < ms.len() ==> #[trigger] ms[k] <= bound,
    ensures
        next_iter(ms, c, n) <= bound,
        prev_iter(ms, c, n) <= bound,
    decreases n,
{
    if n > 0 {
        lemma_first_after_bound(ms, c, 0, bound);
        lemma_last_before_bound(ms, c, ms.len() as int, bound);
        lemma_iter_bound(ms, first_after(ms, c, 0), (n - 1) as nat, bound);
        lemma_iter_bound(ms, last_before(ms, c, ms.len() as int), (n - 1) as nat, bound);
    }
}

proof fn lemma_first_after_bound(ms: Seq<usize>, c: int, i: int, bound: int)
    requires
        c <= bound,
        forall|k: int| 0 <= k < ms.len() ==> #[trigger] ms[k] <= bound,
    ensures
        first_after(ms, c, i) <= bound,
    decreases ms.len() - i,
{
    if 0 <= i < ms.len() && !(ms[i] > c) {
        lemma_first_after_bound(ms, c, i + 1, bound);
    }
}

proof fn lemma_last_before_bound(ms: Seq<usize>, c: int, i: int, bound: int)
    requires
        c <= bound,
        forall|k: int| 0 <= k < ms.len() ==> #[trigger] ms[k] <= bound,
    ensures
        last_before(ms, c, i) <= bound,
    decreases i,
{
    if 0 < i <= ms.len() && !((ms[i - 1] as int) < c) {
        lemma_last_before_bound(ms, c, i - 1, bound);
    }
}

impl PanelBuffer {
    /// Moves the cursor `count` matches of the search pattern on (or back),
    /// wrapping round, and scrolls to it; nothing happens without a pattern
    /// or matches.
    fn search_step(&mut self, count: usize, forward: bool)
        requires
            old(self).wf(),
        ensures
            final(self).wf(),
            panel_search(old(self).window, final(self).window, old(self).buffer, old(self).search_pattern@, count, forward),
            final(self).buffer == old(self).buffer,
            final(self).vim == old(self).vim,
            final(self).search_pattern == old(self).search_pattern,
    {
        if self.search_pattern.as_str().is_empty() {
            return;
        }
        self.window.update_search_cache(&self.buffer, self.search_pattern.as_str());
        let ghost wm = self.window;
        proof {
            let w0 = old(self).window;
            let pat = self.search_pattern@;
            let occ = occurrences(self.buffer@, pat, 0);
            crate::buffer::lemma_occurrences_bounds(self.buffer@, pat, 0);
            assert forall|k: int| 0 <= k < wm.search_matches@.len() implies #[trigger] wm.search_matches@[k]
                <= self.buffer@.len() by {
                if !(pat == w0.search_cached_pattern@ && self.buffer.version_num() == w0.search_version) {
                    assert(wm.search_matches@[k] == occ[k]);
                } else {
                    assert(wm.search_matches@[k] == w0.search_matches@[k]);
                }
            }
            assert(cache_refreshed(old(self).window, wm, self.buffer, self.search_pattern@));
        }
        if self.window.search_matches.len() == 0 {
            return;
        }
        if forward {
            search_next_in(&mut self.window, self.search_pattern.as_str(), count);
        } else {
            search_prev_in(&mut self.window, self.search_pattern.as_str(), count);
        }
        proof {
            lemma_iter_bound(wm.search_matches@, old(self).window.cursor as int, count as nat, self.buffer@.len() as int);
        }
        let ghost wc = self.window;
        self.scroll_to_cursor();
        proof {
            assert(scrolled(wc, self.window, self.buffer@));
            assert(cache_refreshed(old(self).window, wm, self.buffer, self.search_pattern@));
        }
    }

    /// Carries out one action in the panel: motions, cursor, search and
    /// selection changes, then scrolls to the cursor; a yank is handed
    /// back; anything else (edits) is ignored.
    fn execute_action(&mut self, action: &EditorAction) -> (r: PanelEvent)
        requires
            old(self).wf(),
            panel_action_ok(action@, old(self).buffer@.len(), old(self).window.visible_lines),
        ensures
            final(self).wf(),
            final(self).buffer == old(self).buffer,
            final(self).vim == old(self).vim,
            final(self).window.visible_lines == old(self).window.visible_lines,
            match *action {
                EditorAction::YankRange(rg) => {
                    &&& r matches PanelEvent::YankToRegister(t) && t@ == yanked(
                        old(self).buffer@,
                        rg.start as int,
                        rg.end as int,
                    )
                    &&& same_window(old(self).window, final(self).window)
                    &&& final(self).search_pattern == old(self).search_pattern
                },
                _ => {
                    &&& r is Noop
                    &&& exists|w: Window|
                        panel_moved(
                            old(self).window,
                            old(self).search_pattern@,
                            w,
                            final(self).search_pattern@,
                            action@,
                            old(self).buffer,
                        ) && #[trigger] scrolled(w, final(self).window, old(self).buffer@)
                },
            },
    {
        match action {
            EditorAction::MoveCursor { motion, count } => {
                self.move_cursor(motion, *count);
            },
            EditorAction::SetCursor(pos) => {
                self.window.cursor = self.buffer.clamp_cursor(*pos);
            },
            EditorAction::SetSearchPattern(pattern) => {
                self.search_pattern = pattern.clone();
            },
            EditorAction::SearchNext { count } => {
                self.search_step(*count, true);
            },
            EditorAction::SearchPrev { count } => {
                self.search_step(*count, false);
            },
            EditorAction::ClearSearch => {
                self.search_pattern = String::new();
                self.window.search_matches = Vec::new();
                self.window.search_cached_pattern = String::new();
            },
            EditorAction::SetSelection(sel) => {
                self.window.selection = *sel;
            },
            EditorAction::UpdateVisualSelection { anchor, mode } => {
                let sel = selection_for(&self.buffer, *anchor, self.window.cursor, *mode == VimMode::VisualLine);
                self.window.selection = Some(sel);
            },
            EditorAction::YankRange(Range { start, end }) => {
                let yanked = self.buffer.yank_range(*start, *end);
                return PanelEvent::YankToRegister(yanked);
            },
            _ => {},
        }
        let ghost w = self.window;
        self.scroll_to_cursor();
        proof {
            assert(scrolled(w, self.window, self.buffer@));
        }
        PanelEvent::Noop
    }
}


/// Whether a key closes the panel: escape, or `q` without control, in
/// normal mode.
pub open spec fn dismisses(mode: VimMode, key: Key, modifiers: KeyModifiers) -> bool {
    &&& mode == VimMode::Normal
    &&& key == Key::Named(NamedKey::Escape) || (key matches Key::Character(c) && c@ == "q"@ && !modifiers.control)
}

/// The key state after a key in a panel, and the key's actions (in visual
/// mode with the selection brought up to date).
pub open spec fn panel_key(
    p: PanelBuffer,
    key: Key,
    modified_key: Key,
    modifiers: KeyModifiers,
    text: Option<Seq<char>>,
) -> (crate::vim::input::InputView, Seq<ActionView>) {
    let (s, acts) = key_view(
        p.vim.input_view(),
        key,
        modified_key,
        modifiers,
        text,
        p.vim.keymaps_spec().global_keymap(),
        p.vim.keymaps_spec().mode_keymap(p.vim.input_view().mode),
        p.buffer@,
        p.window.cursor as int,
    );
    (s, with_visual_update(s, acts))
}

/// One action's effect on a panel's window and search pattern (buffer
/// `b` being shown): a yank leaves them; any other action moves as
/// `panel_moved` says, then scrolls the cursor into view.
pub open spec fn panel_one(w0: Window, pat0: Seq<char>, a: ActionView, w1: Window, pat1: Seq<char>, b: Buffer) -> bool {
    if a is YankRange {
        same_window(w0, w1) && pat1 == pat0
    } else {
        exists|w: Window| panel_moved(w0, pat0, w, pat1, a, b) && #[trigger] scrolled(w, w1, b@)
    }
}

/// The actions `acts`, one after the other, take the panel's window and
/// search pattern from `w0`, `pat0` to `w1`, `pat1`.
pub open spec fn panel_ran(
    w0: Window,
    pat0: Seq<char>,
    acts: Seq<ActionView>,
    w1: Window,
    pat1: Seq<char>,
    b: Buffer,
) -> bool
    decreases acts.len(),
{
    if acts.len() == 0 {
        w1 == w0 && pat1 == pat0
    } else {
        exists|w: Window, pat: Seq<char>|
            panel_ran(w0, pat0, acts.drop_last(), w, pat, b) && #[trigger] panel_one(w, pat, acts.last(), w1, pat1, b)
    }
}

/// One more action extends a run.
proof fn lemma_panel_ran_step(
    w0: Window,
    pat0: Seq<char>,
    acts: Seq<ActionView>,
    w: Window,
    pat: Seq<char>,
    w1: Window,
    pat1: Seq<char>,
    b: Buffer,
)
    requires
        acts.len() > 0,
        panel_ran(w0, pat0, acts.drop_last(), w, pat, b),
        panel_one(w, pat, acts.last(), w1, pat1, b),
    ensures
        panel_ran(w0, pat0, acts, w1, pat1, b),
{
}

/// The range of the last yank among `acts`, if any.
pub open spec fn last_yank(acts: Seq<ActionView>) -> Option<Range>
    decreases acts.len(),
{
    if acts.len() == 0 {
        None
    } else {
        match acts.last() {
            ActionView::YankRange(rg) => Some(rg),
            _ => last_yank(acts.drop_last()),
        }
    }
}

impl PanelBuffer {
    /// Carries out the actions in order and hands back the last yank, if
    /// any.
    fn run_actions(&mut self, actions: &Vec<EditorAction>) -> (r: PanelEvent)
        requires
            old(self).wf(),
            forall|j: int|
                0 <= j < action_views(actions@).len() ==> panel_action_ok(
                    #[trigger] action_views(actions@)[j],
                    old(self).buffer@.len(),
                    old(self).window.visible_lines,
                ),
        ensures
            final(self).wf(),
            final(self).buffer == old(self).buffer,
            final(self).vim == old(self).vim,
            panel_ran(
                old(self).window,
                old(self).search_pattern@,
                action_views(actions@),
                final(self).window,
                final(self).search_pattern@,
                old(self).buffer,
            ),
            match last_yank(action_views(actions@)) {
                Some(rg) => r matches PanelEvent::YankToRegister(t) && t@ == yanked(
                    old(self).buffer@,
                    rg.start as int,
                    rg.end as int,
                ),
                None => r is Noop,
            },
    {
        let ghost acts = action_views(actions@);
        let ghost vim_after = self.vim;
        let mut event = PanelEvent::Noop;
        let mut i: usize = 0;
        while i < actions.len()
            invariant
                self.vim == vim_after,
                self.wf(),
                self.buffer == old(self).buffer,
                self.window.visible_lines == old(self).window.visible_lines,
                acts == action_views(actions@),
                i <= actions@.len(),
                panel_ran(
                    old(self).window,
                    old(self).search_pattern@,
                    acts.take(i as int),
                    self.window,
                    self.search_pattern@,
                    old(self).buffer,
                ),
                forall|j: int|
                    0 <= j < acts.len() ==> panel_action_ok(#[trigger] acts[j], self.buffer@.len(), self.window.visible_lines),
                match last_yank(acts.take(i as int)) {
                    Some(rg) => event matches PanelEvent::YankToRegister(t) && t@ == yanked(
                        self.buffer@,
                        rg.start as int,
                        rg.end as int,
                    ),
                    None => event is Noop,
                },
            decreases actions@.len() - i,
        {
            proof {
                assert(acts[i as int] == actions@[i as int]@);
            }
            let ghost w_before = self.window;
            let ghost pat_before = self.search_pattern@;
            let e = self.execute_action(&actions[i]);
            proof {
                assert(acts.take(i + 1).drop_last() =~= acts.take(i as int));
                assert(acts.take(i + 1).last() == acts[i as int]);
                assert(panel_one(w_before, pat_before, acts[i as int], self.window, self.search_pattern@, old(self).buffer));
                lemma_panel_ran_step(
                    old(self).window,
                    old(self).search_pattern@,
                    acts.take(i + 1),
                    w_before,
                    pat_before,
                    self.window,
                    self.search_pattern@,
                    old(self).buffer,
                );
            }
            match e {
                PanelEvent::YankToRegister(t) => {
                    event = PanelEvent::YankToRegister(t);
                },
                _ => {},
            }
            i = i + 1;
        }
        proof {
            assert(acts.take(acts.len() as int) =~= acts);
        }
        event
    }

    /// Handles a key in the focused panel: escape or `q` in normal mode
    /// closes it; otherwise the key's actions are carried out, insert and
    /// command mode being refused, and the last yank, if any, is handed
    /// back.
    #[verifier::rlimit(80)]
    pub fn handle_key(&mut self, key: &Key, modified_key: &Key, modifiers: &KeyModifiers, text: Option<&str>) -> (r:
        PanelEvent)
        requires
            old(self).wf(),
            input_ok(old(self).vim.input_view(), old(self).buffer@, old(self).window.cursor as int),
            !dismisses(old(self).vim.input_view().mode, *key, *modifiers) ==> {
                let acts = panel_key(*old(self), *key, *modified_key, *modifiers, text_view(text)).1;
                forall|i: int|
                    0 <= i < acts.len() ==> panel_action_ok(
                        #[trigger] acts[i],
                        old(self).buffer@.len(),
                        old(self).window.visible_lines,
                    )
            },
        ensures
            final(self).wf(),
            final(self).buffer == old(self).buffer,
            dismisses(old(self).vim.input_view().mode, *key, *modifiers) ==> {
                &&& r is Dismiss
                &&& final(self).vim == old(self).vim
                &&& final(self).window == old(self).window
                &&& final(self).search_pattern == old(self).search_pattern
            },
            !dismisses(old(self).vim.input_view().mode, *key, *modifiers) ==> {
                let (s, acts) = panel_key(*old(self), *key, *modified_key, *modifiers, text_view(text));
                &&& final(self).vim.input_view() == (if s.mode == VimMode::Insert || s.mode == VimMode::Command {
                    crate::vim::input::InputView { mode: VimMode::Normal, selection_anchor: None, ..s }
                } else {
                    s
                })
                &&& final(self).vim.keymaps_spec() == old(self).vim.keymaps_spec()
                &&& panel_ran(
                    old(self).window,
                    old(self).search_pattern@,
                    acts,
                    final(self).window,
                    final(self).search_pattern@,
                    old(self).buffer,
                )
                &&& match last_yank(acts) {
                    Some(rg) => r matches PanelEvent::YankToRegister(t) && t@ == yanked(
                        old(self).buffer@,
                        rg.start as int,
                        rg.end as int,
                    ),
                    None => r is Noop,
                }
            },
    {
        if self.vim.mode() == VimMode::Normal {
            let is_escape = match key {
                Key::Named(NamedKey::Escape) => true,
                _ => false,
            };
            if is_escape {
                return PanelEvent::Dismiss;
            }
            let is_q = match key {
                Key::Character(c) => str_eq(c.as_str(), "q") && !modifiers.control,
                _ => false,
            };
            if is_q {
                return PanelEvent::Dismiss;
            }
        }
        let actions = self.vim.handle_key(key, modified_key, modifiers, text, &self.buffer, self.window.cursor);
        let ghost acts = action_views(actions@);
        let mode = self.vim.mode();
        if mode == VimMode::Insert || mode == VimMode::Command {
            self.vim.force_mode(VimMode::Normal);
        }
        self.run_actions(&actions)
    }
}

/// A panel of some kind, placed and titled, and whether keys go to it.
pub struct FloatingPanel {
    pub panel_buffer: PanelBuffer,
    pub title: String,
    pub kind: PanelKind,
    pub position: PanelPosition,
    pub focused: bool,
}

impl FloatingPanel {
    /// An unfocused panel of `kind` at `position` showing `content` under
    /// `title`.
    pub fn new(content: &str, title: &str, kind: PanelKind, position: PanelPosition) -> (p: Self)
        requires
            content@.len() + 131072 <= usize::MAX,
        ensures
            p.panel_buffer.wf(),
            p.panel_buffer.buffer@ == content@,
            p.panel_buffer.buffer.name_chars() == title@,
            p.panel_buffer.window.cursor == 0,
            p.panel_buffer.vim.input_view().mode == VimMode::Normal,
            p.title@ == title@,
            p.kind == kind,
            p.position == position,
            !p.focused,
    {
        FloatingPanel {
            panel_buffer: PanelBuffer::new(content, title),
            title: crate::strs::str_to_string(title),
            kind,
            position,
            focused: false,
        }
    }

    /// Gives the panel the keys.
    pub fn focus(&mut self)
        ensures
            final(self).focused,
            final(self).panel_buffer == old(self).panel_buffer,
            final(self).title == old(self).title,
            final(self).kind == old(self).kind,
            final(self).position == old(self).position,
    {
        self.focused = true;
    }
}

} // verus!

//! The info panel: a read-only buffer in a window of its own, showing
//! diagnostics or hover text.
use vstd::prelude::*;
use crate::buffer::Buffer;
use crate::diagnostics::{Diagnostic, DiagnosticView, Severity, diag_views};
use crate::strs::{str_to_string, string_push, string_push_str};
use crate::text::line_count;
use crate::window::Window;
use crate::action::EditorAction;
use crate::registers::Registers;
use crate::core_actions::{
    execute_core, is_core_action, is_core, core_pre, core_post, CoreOutcome, search_next_in, search_prev_in, next_iter,
    prev_iter,
};
use crate::editor::cache_refreshed;

verus! {

/// What the info panel shows.
#[derive(Debug, Clone, Copy, PartialEq, Eq, Structural)]
pub enum InfoPanelKind {
    Diagnostic,
    LspHover,
}

/// The panel: its buffer and window, whether it stays open, what it shows,
/// its search pattern and status message.
pub struct InfoPanel {
    pub buffer: Buffer,
    pub window: Window,
    pub pinned: bool,
    pub kind: InfoPanelKind,
    pub search_pattern: String,
    pub status_message: String,
}

/// The name the panel's buffer gets for what it shows.
pub open spec fn panel_name(kind: InfoPanelKind) -> Seq<char> {
    match kind {
        InfoPanelKind::Diagnostic => "*diagnostics*"@,
        InfoPanelKind::LspHover => "*hover*"@,
    }
}

impl InfoPanel {
    /// A panel showing `content`, read-only, not pinned.
    pub fn new(content: &str, kind: InfoPanelKind) -> (p: Self)
        ensures
            p.buffer.wf(),
            p.buffer@ == content@,
            p.buffer.read_only_flag(),
            p.buffer.name_chars() == panel_name(kind),
            p.buffer.path_chars() == Some("*info*"@),
            !p.buffer.modified_flag(),
            p.window.buffer_id == 0,
            p.window.cursor == 0,
            p.window.scroll_y == 0,
            p.window.visible_lines == 40,
            p.window.visible_cols == 80,
            p.window.selection is None,
            !p.pinned,
            p.kind == kind,
            p.search_pattern@ == Seq::<char>::empty(),
            p.status_message@ == Seq::<char>::empty(),
    {
        let mut buffer = Buffer::from_str(content, "*info*", "*info*", true);
        buffer.set_name(
            match kind {
                InfoPanelKind::Diagnostic => "*diagnostics*",
                InfoPanelKind::LspHover => "*hover*",
            },
        );
        InfoPanel {
            buffer,
            window: Window::new(0),
            pinned: false,
            kind,
            search_pattern: String::new(),
            status_message: String::new(),
        }
    }

    /// Keeps the panel open.
    pub fn pin(&mut self)
        ensures
            final(self).pinned,
            final(self).kind == old(self).kind,
            final(self).window == old(self).window,
            final(self).buffer == old(self).buffer,
    {
        self.pinned = true;
    }

    /// Scrolls so that `line` is the top line, at most the last line.
    pub fn scroll_to(&mut self, line: usize)
        requires
            old(self).buffer.wf(),
        ensures
            final(self).window.scroll_y == (if line < line_count(old(self).buffer@) - 1 {
                line as int
            } else {
                line_count(old(self).buffer@) - 1
            }),
            final(self).window.cursor == old(self).window.cursor,
            final(self).window.visible_lines == old(self).window.visible_lines,
            final(self).buffer == old(self).buffer,
    {
        let total = self.buffer.total_lines();
        let max_scroll = if total > 0 { total - 1 } else { 0 };
        self.window.scroll_y = if line < max_scroll { line } else { max_scroll };
    }

    /// Sets the size of the panel's window in lines and columns.
    pub fn resize(&mut self, lines: usize, cols: usize)
        ensures
            final(self).window.visible_lines == lines,
            final(self).window.visible_cols == cols,
            final(self).window.cursor == old(self).window.cursor,
            final(self).window.scroll_y == old(self).window.scroll_y,
            final(self).window.scroll_x == old(self).window.scroll_x,
            final(self).buffer == old(self).buffer,
    {
        self.window.visible_lines = lines;
        self.window.visible_cols = cols;
    }
}

/// Whether the core carries out `a` on the panel's buffer `b`, a refused
/// edit of a read-only buffer included.
pub open spec fn panel_core_handles(b: Buffer, a: EditorAction) -> bool {
    is_core(a) || (b.read_only_flag() && a.is_mutation_spec())
}

/// The window `w1` is `w0` with the cache of `pat`'s matches refreshed and
/// the cursor moved `count` matches on (or back), when there are any.
pub open spec fn searched(w0: Window, w1: Window, b: Buffer, pat: Seq<char>, count: usize, forward: bool) -> bool {
    exists|wm: Window|
        #[trigger] cache_refreshed(w0, wm, b, pat) && w1.search_matches@ == wm.search_matches@
            && w1.search_cached_pattern@ == wm.search_cached_pattern@ && w1.search_version == wm.search_version
            && w1.buffer_id == w0.buffer_id && w1.selection == w0.selection && w1.scroll_y == w0.scroll_y
            && w1.scroll_x == w0.scroll_x && w1.visible_lines == w0.visible_lines && w1.visible_cols == w0.visible_cols
            && w1.cursor == (if pat.len() == 0 || wm.search_matches@.len() == 0 {
            w0.cursor as int
        } else if forward {
            next_iter(wm.search_matches@, w0.cursor as int, count as nat)
        } else {
            prev_iter(wm.search_matches@, w0.cursor as int, count as nat)
        })
}

impl InfoPanel {
    /// Carries out one action in the panel (the application runs the
    /// actions of a key through it in turn, then keeps the cursor in
    /// view): the core's actions on the panel's window and buffer, with the
    /// clipboard left to the caller as the core leaves it; search pattern
    /// changes refresh the matches; searches move between them.
    pub fn execute_action(&mut self, action: &EditorAction, registers: &mut Registers) -> (r: CoreOutcome)
        requires
            old(self).buffer.wf(),
            panel_core_handles(old(self).buffer, *action) ==> core_pre(
                old(self).window,
                old(self).buffer,
                *old(registers),
                *action,
            ),
        ensures
            final(self).buffer.wf(),
            final(self).pinned == old(self).pinned,
            final(self).kind == old(self).kind,
            panel_core_handles(old(self).buffer, *action) ==> {
                &&& !(r is Unhandled)
                &&& final(self).search_pattern == old(self).search_pattern
                &&& final(self).window.buffer_id == old(self).window.buffer_id
                &&& final(self).window.scroll_y == old(self).window.scroll_y
                &&& final(self).window.scroll_x == old(self).window.scroll_x
                &&& final(self).window.visible_lines == old(self).window.visible_lines
                &&& final(self).window.visible_cols == old(self).window.visible_cols
                &&& old(self).buffer.read_only_flag() && action.is_mutation_spec() ==> {
                    &&& r is Handled
                    &&& final(self).status_message@ == "Cannot edit read-only buffer"@
                    &&& final(self).buffer@ == old(self).buffer@
                    &&& final(self).window.cursor == old(self).window.cursor
                    &&& final(self).window.selection == old(self).window.selection
                    &&& final(registers).unnamed@ == old(registers).unnamed@
                }
                &&& !(old(self).buffer.read_only_flag() && action.is_mutation_spec()) ==> core_post(
                    old(self).window,
                    final(self).window,
                    old(self).buffer,
                    final(self).buffer,
                    *old(registers),
                    *final(registers),
                    old(self).status_message@,
                    final(self).status_message@,
                    *action,
                    r,
                )
            },
            !panel_core_handles(old(self).buffer, *action) ==> {
                &&& r is Unhandled
                &&& final(self).buffer == old(self).buffer
                &&& *final(registers) == *old(registers)
                &&& final(self).status_message == old(self).status_message
                &&& match *action {
                    EditorAction::SetSearchPattern(p) => {
                        let w0 = old(self).window;
                        let w1 = final(self).window;
                        &&& final(self).search_pattern@ == p@
                        &&& cache_refreshed(w0, w1, old(self).buffer, p@)
                        &&& w1.cursor == w0.cursor && w1.buffer_id == w0.buffer_id && w1.selection == w0.selection
                        &&& w1.scroll_y == w0.scroll_y && w1.scroll_x == w0.scroll_x
                        &&& w1.visible_lines == w0.visible_lines && w1.visible_cols == w0.visible_cols
                    },
                    EditorAction::SearchNext { count } => final(self).search_pattern == old(self).search_pattern
                        && searched(old(self).window, final(self).window, old(self).buffer, old(self).search_pattern@, count, true),
                    EditorAction::SearchPrev { count } => final(self).search_pattern == old(self).search_pattern
                        && searched(old(self).window, final(self).window, old(self).buffer, old(self).search_pattern@, count, false),
                    EditorAction::ClearSearch => {
                        let w0 = old(self).window;
                        let w1 = final(self).window;
                        &&& final(self).search_pattern@ == Seq::<char>::empty()
                        &&& w1.search_matches@.len() == 0 && w1.search_cached_pattern@ == Seq::<char>::empty()
                        &&& w1.cursor == w0.cursor && w1.buffer_id == w0.buffer_id && w1.selection == w0.selection
                        &&& w1.scroll_y == w0.scroll_y && w1.scroll_x == w0.scroll_x
                        &&& w1.visible_lines == w0.visible_lines && w1.visible_cols == w0.visible_cols
                        &&& w1.search_version == w0.search_version
                    },
                    _ => final(self).window == old(self).window && final(self).search_pattern == old(self).search_pattern,
                }
            },
    {
        if is_core_action(action) || (self.buffer.is_read_only() && action.is_mutation()) {
            return execute_core(&mut self.window, &mut self.buffer, registers, &mut self.status_message, action);
        }
        match action {
            EditorAction::SetSearchPattern(pattern) => {
                self.search_pattern = pattern.clone();
                self.window.update_search_cache(&self.buffer, self.search_pattern.as_str());
            },
            EditorAction::SearchNext { count } => {
                self.window.update_search_cache(&self.buffer, self.search_pattern.as_str());
                let ghost wm = self.window;
                search_next_in(&mut self.window, self.search_pattern.as_str(), *count);
                proof {
                    assert(cache_refreshed(old(self).window, wm, self.buffer, self.search_pattern@));
                }
            },
            EditorAction::SearchPrev { count } => {
                self.window.update_search_cache(&self.buffer, self.search_pattern.as_str());
                let ghost wm = self.window;
                search_prev_in(&mut self.window, self.search_pattern.as_str(), *count);
                proof {
                    assert(cache_refreshed(old(self).window, wm, self.buffer, self.search_pattern@));
                }
            },
            EditorAction::ClearSearch => {
                self.search_pattern = String::new();
                self.window.search_matches = Vec::new();
                self.window.search_cached_pattern = String::new();
            },
            _ => {},
        }
        CoreOutcome::Unhandled
    }
}

/// The label of a severity.
pub open spec fn severity_label(s: Severity) -> Seq<char> {
    match s {
        Severity::Error => "error"@,
        Severity::Warning => "warning"@,
        Severity::Info => "info"@,
        Severity::Hint => "hint"@,
    }
}

/// The lines that show one diagnostic: `[severity] source`, the message,
/// and an empty line.
pub open spec fn diagnostic_lines(d: DiagnosticView) -> Seq<Seq<char>> {
    let source = match d.source {
        Some(s) => s,
        None => "unknown"@,
    };
    seq![seq!['['] + severity_label(d.severity) + "] "@ + source, d.message, Seq::<char>::empty()]
}

/// All the lines for `ds`, in order.
pub open spec fn all_diagnostic_lines(ds: Seq<DiagnosticView>) -> Seq<Seq<char>>
    decreases ds.len(),
{
    if ds.len() == 0 {
        Seq::empty()
    } else {
        all_diagnostic_lines(ds.drop_last()) + diagnostic_lines(ds.last())
    }
}

/// `lines` joined with line feeds.
pub open spec fn join_lines(lines: Seq<Seq<char>>) -> Seq<char>
    decreases lines.len(),
{
    if lines.len() == 0 {
        Seq::empty()
    } else if lines.len() == 1 {
        lines[0]
    } else {
        join_lines(lines.drop_last()) + seq!['\n'] + lines.last()
    }
}

/// The text that shows `ds`: each as `[severity] source`, its message and
/// an empty line, the last empty line left out, joined by line feeds.
pub open spec fn diagnostics_text(ds: Seq<DiagnosticView>) -> Seq<char> {
    let lines = all_diagnostic_lines(ds);
    join_lines(if lines.len() > 0 && lines.last().len() == 0 { lines.drop_last() } else { lines })
}

/// The text that shows `diagnostics` in the info panel.
pub fn format_diagnostics(diagnostics: &[Diagnostic]) -> (r: String)
    ensures
        r@ == diagnostics_text(diag_views(diagnostics@)),
{
    let ghost ds = diag_views(diagnostics@);
    let mut lines: Vec<String> = Vec::new();
    let mut i: usize = 0;
    while i < diagnostics.len()
        invariant
            ds == diag_views(diagnostics@),
            i <= diagnostics@.len(),
            lines@.map_values(|l: String| l@) == all_diagnostic_lines(ds.take(i as int)),
        decreases diagnostics@.len() - i,
    {
        let d = &diagnostics[i];
        let label = match d.severity {
            Severity::Error => "error",
            Severity::Warning => "warning",
            Severity::Info => "info",
            Severity::Hint => "hint",
        };
        let mut head = crate::strs::char_to_string('[');
        string_push_str(&mut head, label);
        string_push_str(&mut head, "] ");
        match &d.source {
            Some(s) => string_push_str(&mut head, s.as_str()),
            None => string_push_str(&mut head, "unknown"),
        }
        let ghost before = lines@;
        lines.push(head);
        lines.push(str_to_string(d.message.as_str()));
        lines.push(String::new());
        proof {
            assert(ds[i as int] == d@);
            assert(ds.take(i as int + 1).drop_last() =~= ds.take(i as int));
            assert(lines@.map_values(|l: String| l@) =~= before.map_values(|l: String| l@) + diagnostic_lines(d@));
        }
        i = i + 1;
    }
    proof {
        assert(ds.take(diagnostics@.len() as int) =~= ds);
    }
    let ghost all = lines@.map_values(|l: String| l@);
    if lines.len() > 0 && lines[lines.len() - 1].as_str().unicode_len() == 0 {
        lines.pop();
        proof {
            assert(lines@.map_values(|l: String| l@) =~= all.drop_last());
        }
    }
    let ghost kept = lines@.map_values(|l: String| l@);
    let mut out = String::new();
    let mut k: usize = 0;
    while k < lines.len()
        invariant
            kept == lines@.map_values(|l: String| l@),
            k <= lines@.len(),
            out@ == join_lines(kept.take(k as int)),
        decreases lines@.len() - k,
    {
        if k > 0 {
            string_push(&mut out, '\n');
        }
        string_push_str(&mut out, lines[k].as_str());
        proof {
            assert(kept.take(k as int + 1).drop_last() =~= kept.take(k as int));
            assert(kept[k as int] == lines@[k as int]@);
            if k == 0 {
                assert(out@ =~= join_lines(kept.take(1)));
            } else {
                assert(out@ =~= join_lines(kept.take(k as int + 1)));
            }
        }
        k = k + 1;
    }
    proof {
        assert(kept.take(lines@.len() as int) =~= kept);
    }
    out
}

/// The contents of a hover reply: one marked string, several, or markup.
pub enum HoverContents {
    Scalar(String),
    Array(Vec<String>),
    Markup(String),
}

/// The text of a hover reply: several marked strings are joined with a
/// blank line between them.
pub open spec fn hover_text_spec(c: Seq<Seq<char>>) -> Seq<char>
    decreases c.len(),
{
    if c.len() == 0 {
        Seq::empty()
    } else if c.len() == 1 {
        c[0]
    } else {
        hover_text_spec(c.drop_last()) + "\n\n"@ + c.last()
    }
}

/// The text a hover reply shows, none when it is empty.
pub fn parse_hover_response(contents: &HoverContents) -> (r: Option<String>)
    ensures
        ({
            let text = match contents {
                HoverContents::Scalar(s) => s@,
                HoverContents::Array(v) => hover_text_spec(v@.map_values(|s: String| s@)),
                HoverContents::Markup(s) => s@,
            };
            &&& text.len() == 0 ==> r is None
            &&& text.len() > 0 ==> r is Some && r->0@ == text
        }),
{
    let text = match contents {
        HoverContents::Scalar(s) => str_to_string(s.as_str()),
        HoverContents::Markup(s) => str_to_string(s.as_str()),
        HoverContents::Array(v) => {
            let ghost vs = v@.map_values(|s: String| s@);
            let mut out = String::new();
            let mut k: usize = 0;
            while k < v.len()
                invariant
                    vs == v@.map_values(|s: String| s@),
                    k <= v@.len(),
                    out@ == hover_text_spec(vs.take(k as int)),
                decreases v@.len() - k,
            {
                if k > 0 {
                    string_push_str(&mut out, "\n\n");
                }
                string_push_str(&mut out, v[k].as_str());
                proof {
                    assert(vs.take(k as int + 1).drop_last() =~= vs.take(k as int));
                    assert(vs[k as int] == v@[k as int]@);
                    if k == 0 {
                        assert(out@ =~= hover_text_spec(vs.take(1)));
                    } else {
                        assert(out@ =~= hover_text_spec(vs.take(k as int + 1)));
                    }
                }
                k = k + 1;
            }
            proof {
                assert(vs.take(v@.len() as int) =~= vs);
            }
            out
        },
    };
    if text.as_str().unicode_len() == 0 {
        None
    } else {
        Some(text)
    }
}

} // verus!

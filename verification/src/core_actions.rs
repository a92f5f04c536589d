//! The editor actions that need only a window, its buffer and the
//! registers: motions, edits, yanks and pastes, undo, search navigation.
use vstd::prelude::*;
use crate::action::{EditorAction, Motion, Range};
use crate::buffer::{
    Buffer, left_target, right_target, up_target, down_target, word_forward, word_backward,
    word_end, find_char_target, first_non_blank,
};
use crate::text::{line_of, line_start, line_len_nn};
use crate::window::Window;
use crate::registers::Registers;
use crate::vim::mode::VimMode;
use crate::undo::{revert_all_ok, apply_all_ok, revert_all, apply_all, redo_cursor};
use crate::buffer::{paste_after_pos, ws_pred, blank_pred};
use crate::text::{line_count, skip_fwd, skip_bwd, nl_count};
use crate::strs::{byte_len, str_to_string, string_push, string_push_str, char_is_whitespace, is_unicode_whitespace};

verus! {

/// One step of a repeated motion, as `resolve_motion` repeats it.
pub open spec fn move_once(s: Seq<char>, c: int, m: Motion) -> int {
    match m {
        Motion::Left => left_target(s, c),
        Motion::Right => right_target(s, c),
        Motion::Up | Motion::HalfPageUp => up_target(s, c),
        Motion::Down | Motion::HalfPageDown => down_target(s, c),
        Motion::WordForward => word_forward(s, c),
        Motion::WordBackward => word_backward(s, c),
        Motion::WordEnd => word_end(s, c),
        Motion::FindChar { ch, forward, stop_before } => find_char_target(s, c, ch, forward, stop_before),
        _ => c,
    }
}

/// `n` steps of a motion.
pub open spec fn repeat_move(s: Seq<char>, c: int, m: Motion, n: nat) -> int
    decreases n,
{
    if n == 0 {
        c
    } else {
        repeat_move(s, move_once(s, c, m), m, (n - 1) as nat)
    }
}

/// Half a window's height, at least one line.
pub open spec fn half_page(visible_lines: int) -> int {
    if visible_lines / 2 > 1 { visible_lines / 2 } else { 1 }
}

/// Where `count` repetitions of `motion` take `cursor`; line and file
/// motions happen once, half pages move by half the window `count` times.
pub open spec fn resolve_motion_spec(s: Seq<char>, c: int, visible_lines: int, m: Motion, count: nat) -> int {
    let l = line_of(s, c);
    match m {
        Motion::LineStart => line_start(s, l),
        Motion::LineEnd => line_start(s, l) + line_len_nn(s, l),
        Motion::FirstNonWhitespace => first_non_blank(s, l),
        Motion::FileStart => 0,
        Motion::FileEnd => s.len() as int,
        Motion::HalfPageDown | Motion::HalfPageUp => repeat_move(s, c, m, (half_page(visible_lines) * count) as nat),
        _ => repeat_move(s, c, m, count),
    }
}

/// The motion reads the text at `cursor` (and so needs it inside the
/// text), unless it is not repeated at all.
pub open spec fn motion_reads_cursor(m: Motion, count: nat) -> bool {
    match m {
        Motion::Right | Motion::WordForward | Motion::WordEnd | Motion::FileStart | Motion::FileEnd => false,
        Motion::LineStart | Motion::LineEnd | Motion::FirstNonWhitespace => true,
        _ => count > 0,
    }
}

fn repeat(buffer: &Buffer, cursor: usize, motion: &Motion, n: usize) -> (r: usize)
    requires
        buffer.wf(),
        cursor <= buffer@.len() || n == 0 || match *motion {
            Motion::Right | Motion::WordForward | Motion::WordEnd => true,
            _ => false,
        },
        match *motion {
            Motion::LineStart | Motion::LineEnd | Motion::FirstNonWhitespace | Motion::FileStart | Motion::FileEnd => false,
            _ => true,
        },
    ensures
        r == repeat_move(buffer@, cursor as int, *motion, n as nat),
        cursor <= buffer@.len() ==> r <= buffer@.len(),
{
    let mut c = cursor;
    let mut i: usize = 0;
    while i < n
        invariant
            buffer.wf(),
            i <= n,
            c <= buffer@.len() || c == cursor,
            cursor <= buffer@.len() ==> c <= buffer@.len(),
            cursor <= buffer@.len() || n == 0 || match *motion {
                Motion::Right | Motion::WordForward | Motion::WordEnd => true,
                _ => false,
            },
            match *motion {
                Motion::LineStart | Motion::LineEnd | Motion::FirstNonWhitespace | Motion::FileStart | Motion::FileEnd => false,
                _ => true,
            },
            repeat_move(buffer@, c as int, *motion, (n - i) as nat) == repeat_move(buffer@, cursor as int, *motion, n as nat),
        decreases n - i,
    {
        c = match motion {
            Motion::Left => buffer.move_left(c),
            Motion::Right => buffer.move_right(c),
            Motion::Up | Motion::HalfPageUp => buffer.move_up(c),
            Motion::Down | Motion::HalfPageDown => buffer.move_down(c),
            Motion::WordForward => buffer.move_word_forward(c),
            Motion::WordBackward => buffer.move_word_backward(c),
            Motion::WordEnd => buffer.move_word_end(c),
            Motion::FindChar { ch, forward, stop_before } => buffer.find_char_on_line(c, *ch, *forward, *stop_before),
            _ => c,
        };
        i = i + 1;
    }
    c
}

/// Where `count` repetitions of `motion` take `cursor` in `buffer`; a half
/// page is half of `visible_lines` (at least one line).
pub fn resolve_motion(buffer: &Buffer, cursor: usize, visible_lines: usize, motion: &Motion, count: usize) -> (r: usize)
    requires
        buffer.wf(),
        cursor <= buffer@.len() || !motion_reads_cursor(*motion, count as nat),
        half_page(visible_lines as int) * count <= usize::MAX,
    ensures
        r == resolve_motion_spec(buffer@, cursor as int, visible_lines as int, *motion, count as nat),
        cursor <= buffer@.len() ==> r <= buffer@.len(),
{
    match motion {
        Motion::LineStart => buffer.move_to_line_start(cursor),
        Motion::LineEnd => buffer.move_to_line_end(cursor),
        Motion::FirstNonWhitespace => buffer.move_to_first_non_whitespace(cursor),
        Motion::FileStart => buffer.move_to_start(),
        Motion::FileEnd => buffer.move_to_end(),
        Motion::HalfPageDown | Motion::HalfPageUp => {
            let h = visible_lines / 2;
            let hh: usize = if h > 1 { h } else { 1 };
            let half = hh * count;
            assert(count == 0 ==> hh * count == 0) by (nonlinear_arith);
            repeat(buffer, cursor, motion, half)
        },
        _ => repeat(buffer, cursor, motion, count),
    }
}

/// `n` copies of `c`.
pub open spec fn repeat_char(c: char, n: nat) -> Seq<char> {
    Seq::new(n, |i: int| c)
}

/// One level of indentation: a tab, or `w` spaces.
pub open spec fn indent_unit(use_tabs: bool, w: nat) -> Seq<char> {
    if use_tabs { seq!['\t'] } else { repeat_char(' ', w) }
}

/// The spaces and tabs that line `l` starts with.
pub open spec fn leading_ws(t: Seq<char>, l: nat) -> Seq<char> {
    let a = line_start(t, l);
    t.subrange(a, skip_fwd(t, a, line_start(t, l + 1), blank_pred()))
}

/// The last non-whitespace char of `t[a..c]`, if any.
pub open spec fn last_non_ws(t: Seq<char>, a: int, c: int) -> Option<char>
    decreases c - a,
{
    if c <= a {
        None
    } else if !is_unicode_whitespace(t[c - 1]) {
        Some(t[c - 1])
    } else {
        last_non_ws(t, a, c - 1)
    }
}

/// What Enter inserts at `c`: a line feed and the line's leading
/// whitespace, one level deeper after an opening bracket.
pub open spec fn newline_text(t: Seq<char>, c: int, use_tabs: bool, w: nat) -> Seq<char> {
    let l = line_of(t, c);
    let lw = leading_ws(t, l);
    let indent = match last_non_ws(t, line_start(t, l), c) {
        Some(ch) => if ch == '{' || ch == '(' || ch == '[' { lw + indent_unit(use_tabs, w) } else { lw },
        None => lw,
    };
    seq!['\n'] + indent
}

/// What Tab inserts: `w` tabs or `w` spaces.
pub open spec fn tab_text(use_tabs: bool, w: nat) -> Seq<char> {
    repeat_char(if use_tabs { '\t' } else { ' ' }, w)
}

/// The selection of visual mode from `anchor` to `cursor`: whole lines in
/// line mode, else the chars between them, both ends included.
pub open spec fn visual_selection(t: Seq<char>, anchor: int, cursor: int, linewise: bool) -> (int, int) {
    if linewise {
        let al = line_of(t, anchor);
        let cl = line_of(t, cursor);
        let sl = if al <= cl { al } else { cl };
        let el = if al <= cl { cl } else { al };
        (line_start(t, sl), if el + 1 < line_count(t) { line_start(t, el + 1) } else { t.len() as int })
    } else if anchor <= cursor {
        (anchor, cursor + 1)
    } else {
        (cursor, anchor + 1)
    }
}

/// The cursor's whole line, its line break included.
pub open spec fn line_span(t: Seq<char>, c: int) -> (int, int) {
    let l = line_of(t, c);
    (line_start(t, l), if l + 1 < line_count(t) { line_start(t, l + 1) } else { t.len() as int })
}

/// The text of `t[a..b]` clipped as `yank_range` clips it.
pub open spec fn yanked(t: Seq<char>, a: int, b: int) -> Seq<char> {
    let e = if b < t.len() { b } else { t.len() as int };
    if a >= e { Seq::empty() } else { t.subrange(a, e) }
}

/// `t` with `t[a..b]` (clipped) removed, as `delete_range` removes it.
pub open spec fn deleted(t: Seq<char>, a: int, b: int) -> Seq<char> {
    let e = if b < t.len() { b } else { t.len() as int };
    if a >= b || a >= t.len() { t } else { t.take(a) + t.skip(e) }
}

/// The cursor after `delete_range(c, a, b)` on `t`.
pub open spec fn deleted_cursor(t: Seq<char>, c: int, a: int, b: int) -> int {
    let n = deleted(t, a, b).len();
    if a >= b || a >= t.len() { c } else if n == 0 { 0 } else if a < n - 1 { a } else { n - 1 }
}

/// The text after `n` deletes forward at `c`.
pub open spec fn delete_forward_n(t: Seq<char>, c: int, n: nat) -> Seq<char>
    decreases n,
{
    if n == 0 || c >= t.len() { t } else { delete_forward_n(t.take(c) + t.skip(c + 1), c, (n - 1) as nat) }
}

/// Text and cursor after `n` line deletes from `c`.
pub open spec fn delete_lines_n(t: Seq<char>, c: int, n: nat) -> (Seq<char>, int)
    decreases n,
{
    if n == 0 {
        (t, c)
    } else {
        let l = line_of(t, c);
        let a = line_start(t, l);
        let b = line_start(t, l + 1);
        if a == b { delete_lines_n(t, c, (n - 1) as nat) } else { delete_lines_n(t.take(a) + t.skip(b), a, (n - 1) as nat) }
    }
}

/// Text and cursor after `n` deletes backward from `c`.
pub open spec fn delete_backward_n(t: Seq<char>, c: int, n: nat) -> (Seq<char>, int)
    decreases n,
{
    if n == 0 || c <= 0 { (t, c) } else { delete_backward_n(t.take(c - 1) + t.skip(c), c - 1, (n - 1) as nat) }
}

/// What the core actions leave to the caller.
pub enum CoreOutcome {
    /// The action is not one of the core ones.
    Unhandled,
    /// The action was carried out.
    Handled,
    /// Carried out; the text is to be put on the system clipboard.
    CopyToClipboard(String),
    /// The system clipboard's text is to be inserted
    /// (`paste_clipboard_text`).
    PasteFromClipboard,
}

/// The core actions: those `execute_core` carries out.
pub open spec fn is_core(a: EditorAction) -> bool {
    match a {
        EditorAction::MoveCursor { .. } | EditorAction::SetCursor(_) | EditorAction::InsertChar(_)
        | EditorAction::InsertNewline | EditorAction::InsertTab | EditorAction::DeleteTillEndOfLine
        | EditorAction::DeleteCharForward { .. } | EditorAction::DeleteCharBackward
        | EditorAction::DeleteLine { .. } | EditorAction::DeleteRange(_)
        | EditorAction::ChangeRange(_) | EditorAction::YankRange(_) | EditorAction::ReplaceChar(_)
        | EditorAction::Paste { .. } | EditorAction::Undo | EditorAction::Redo
        | EditorAction::StartEditGroup | EditorAction::FinishEditGroup
        | EditorAction::SetSelection(_) | EditorAction::UpdateVisualSelection { .. }
        | EditorAction::SystemCopy | EditorAction::SystemCut | EditorAction::SystemPaste
        | EditorAction::SetStatusMessage(_) | EditorAction::LspApplyCompletion { .. } => true,
        _ => false,
    }
}

/// Whether `execute_core` carries out `action`.
pub fn is_core_action(action: &EditorAction) -> (r: bool)
    ensures
        r == is_core(*action),
{
    match action {
        EditorAction::MoveCursor { .. } | EditorAction::SetCursor(_) | EditorAction::InsertChar(_)
        | EditorAction::InsertNewline | EditorAction::InsertTab | EditorAction::DeleteTillEndOfLine
        | EditorAction::DeleteCharForward { .. } | EditorAction::DeleteCharBackward
        | EditorAction::DeleteLine { .. } | EditorAction::DeleteRange(_)
        | EditorAction::ChangeRange(_) | EditorAction::YankRange(_) | EditorAction::ReplaceChar(_)
        | EditorAction::Paste { .. } | EditorAction::Undo | EditorAction::Redo
        | EditorAction::StartEditGroup | EditorAction::FinishEditGroup
        | EditorAction::SetSelection(_) | EditorAction::UpdateVisualSelection { .. }
        | EditorAction::SystemCopy | EditorAction::SystemCut | EditorAction::SystemPaste
        | EditorAction::SetStatusMessage(_) | EditorAction::LspApplyCompletion { .. } => true,
        _ => false,
    }
}

/// What `execute_core` needs to carry out `a` without leaving the text or
/// `usize`: the cursor on the text where the action reads it there, and the
/// resulting text's bytes fitting a `usize`.
pub open spec fn core_pre(win: Window, buf: Buffer, regs: Registers, a: EditorAction) -> bool {
    let t = buf@;
    let c = win.cursor as int;
    let fits = |x: Seq<char>| byte_len(t) + byte_len(x) <= usize::MAX;
    &&& buf.wf()
    &&& !(buf.read_only_flag() && a.is_mutation_spec()) ==> match a {
        EditorAction::MoveCursor { motion, count } => (c <= t.len() || !motion_reads_cursor(motion, count as nat))
            && half_page(win.visible_lines as int) * count <= usize::MAX,
        EditorAction::InsertChar(ch) => c <= t.len() && fits(seq![ch]),
        EditorAction::InsertNewline => c <= t.len() && fits(newline_text(t, c, buf.use_tabs_flag(), buf.indent_width_num() as nat)),
        EditorAction::InsertTab => c <= t.len() && fits(tab_text(buf.use_tabs_flag(), buf.indent_width_num() as nat)),
        EditorAction::DeleteTillEndOfLine => c <= t.len(),
        EditorAction::DeleteCharBackward => c <= t.len(),
        EditorAction::DeleteLine { count } => count == 0 || c <= t.len(),
        EditorAction::ReplaceChar(ch) => c < t.len() ==> byte_len(t.take(c) + seq![ch] + t.skip(c + 1)) <= usize::MAX,
        EditorAction::Paste { before } => {
            let r = regs.unnamed@;
            if before {
                c <= t.len() && fits(r)
            } else {
                (r.len() > 0 && r.last() == '\n' ==> c <= t.len()) && (r.len() > 0 ==> c < usize::MAX) && fits(r)
            }
        },
        EditorAction::Undo => buf.history().undo_groups().len() > 0 ==> revert_all_ok(t, buf.history().undo_groups().last().edits@),
        EditorAction::Redo => buf.history().redo_groups().len() > 0 ==> apply_all_ok(t, buf.history().redo_groups().last().edits@),
        EditorAction::UpdateVisualSelection { anchor, mode } => if mode == VimMode::VisualLine {
            anchor <= t.len() && c <= t.len()
        } else {
            anchor < usize::MAX && c < usize::MAX
        },
        EditorAction::SystemCopy | EditorAction::SystemCut => win.selection is None ==> c <= t.len(),
        EditorAction::LspApplyCompletion { delete_backward, insert_text } => c <= t.len() && fits(insert_text@),
        _ => true,
    }
}

/// What `execute_core` did with a core action `a`, from window `w0`,
/// buffer `b0`, registers `r0` and status `s0` to `w1`, `b1`, `r1`, `s1`,
/// answering `out`.
pub open spec fn core_post(
    w0: Window, w1: Window, b0: Buffer, b1: Buffer, r0: Registers, r1: Registers,
    s0: Seq<char>, s1: Seq<char>, a: EditorAction, out: CoreOutcome,
) -> bool {
    let t = b0@;
    let c = w0.cursor as int;
    let same_text = b1@ == t;
    let same_cursor = w1.cursor == w0.cursor;
    let same_regs = r1.unnamed@ == r0.unnamed@;
    let same_sel = w1.selection == w0.selection;
    let handled = out is Handled;
    match a {
        EditorAction::MoveCursor { motion, count } => handled && same_text && same_regs && same_sel
            && w1.cursor == resolve_motion_spec(t, c, w0.visible_lines as int, motion, count as nat),
        EditorAction::SetCursor(p) => handled && same_text && same_regs && same_sel
            && w1.cursor == (if t.len() == 0 { 0 } else if p < t.len() - 1 { p as int } else { t.len() - 1 }),
        EditorAction::InsertChar(ch) => handled && same_regs && same_sel
            && b1@ == t.take(c) + seq![ch] + t.skip(c) && w1.cursor == c + 1,
        EditorAction::InsertNewline => {
            let x = newline_text(t, c, b0.use_tabs_flag(), b0.indent_width_num() as nat);
            handled && same_regs && same_sel && b1@ == t.take(c) + x + t.skip(c) && w1.cursor == c + x.len()
        },
        EditorAction::InsertTab => {
            let x = tab_text(b0.use_tabs_flag(), b0.indent_width_num() as nat);
            handled && same_regs && same_sel && b1@ == t.take(c) + x + t.skip(c) && w1.cursor == c + x.len()
        },
        EditorAction::DeleteTillEndOfLine => {
            let l = line_of(t, c);
            let e = line_start(t, l) + line_len_nn(t, l);
            handled && same_regs && same_sel && b1@ == deleted(t, c, e) && w1.cursor == deleted_cursor(t, c, c, e)
        },
        EditorAction::DeleteCharForward { count } => handled && same_regs && same_sel && same_cursor
            && b1@ == delete_forward_n(t, c, count as nat),
        EditorAction::DeleteCharBackward => handled && same_regs && same_sel
            && b1@ == delete_backward_n(t, c, 1).0 && w1.cursor == delete_backward_n(t, c, 1).1,
        EditorAction::DeleteLine { count } => handled && same_regs && same_sel
            && b1@ == delete_lines_n(t, c, count as nat).0 && w1.cursor == delete_lines_n(t, c, count as nat).1,
        EditorAction::DeleteRange(rg) => handled && same_sel
            && b1@ == deleted(t, rg.start as int, rg.end as int)
            && w1.cursor == deleted_cursor(t, c, rg.start as int, rg.end as int)
            && r1.unnamed@ == yanked(t, rg.start as int, rg.end as int),
        EditorAction::ChangeRange(rg) => handled && same_sel
            && b1@ == deleted(t, rg.start as int, rg.end as int)
            && w1.cursor == deleted_cursor(t, c, rg.start as int, rg.end as int)
            && r1.unnamed@ == yanked(t, rg.start as int, rg.end as int)
            && b1.history().pending_group() is Some,
        EditorAction::YankRange(rg) => handled && same_text && same_cursor && same_sel
            && r1.unnamed@ == yanked(t, rg.start as int, rg.end as int),
        EditorAction::ReplaceChar(ch) => handled && same_regs && same_sel && same_cursor
            && b1@ == (if c < t.len() { t.take(c) + seq![ch] + t.skip(c + 1) } else { t }),
        EditorAction::Paste { before } => {
            let x = r0.unnamed@;
            let lw = x.len() > 0 && x.last() == '\n';
            let pos = if before { if lw { line_start(t, line_of(t, c)) } else { c } } else { paste_after_pos(t, c, lw) };
            handled && same_regs && same_sel && if x.len() == 0 {
                same_text && same_cursor
            } else {
                b1@ == t.take(pos) + x + t.skip(pos) && w1.cursor == (if lw { pos } else { pos + x.len() - 1 })
            }
        },
        EditorAction::Undo => {
            let h = b0.history();
            handled && same_regs && same_sel && if h.undo_groups().len() > 0 {
                b1@ == revert_all(t, h.undo_groups().last().edits@) && w1.cursor == h.undo_groups().last().cursor_before
            } else {
                same_text && same_cursor
            }
        },
        EditorAction::Redo => {
            let h = b0.history();
            handled && same_regs && same_sel && if h.redo_groups().len() > 0 {
                b1@ == apply_all(t, h.redo_groups().last().edits@) && w1.cursor == redo_cursor(h.redo_groups().last().edits@)
            } else {
                same_text && same_cursor
            }
        },
        EditorAction::StartEditGroup => handled && same_text && same_cursor && same_regs && same_sel
            && b1.history().pending_group() is Some && b1.history().pending_group()->0.cursor_before == c
            && b1.history().pending_group()->0.edits@.len() == 0,
        EditorAction::FinishEditGroup => handled && same_text && same_cursor && same_regs && same_sel
            && b1.history().pending_group() is None,
        EditorAction::SetSelection(sel) => handled && same_text && same_cursor && same_regs && w1.selection == sel,
        EditorAction::UpdateVisualSelection { anchor, mode } => {
            let v = visual_selection(t, anchor as int, c, mode == VimMode::VisualLine);
            handled && same_text && same_cursor && same_regs && w1.selection is Some
                && (w1.selection->0).0 == v.0 && (w1.selection->0).1 == v.1
        },
        EditorAction::SystemCopy => {
            let x = match w0.selection {
                Some(sel) => yanked(t, sel.0 as int, sel.1 as int),
                None => yanked(t, line_span(t, c).0, line_span(t, c).1),
            };
            same_text && same_cursor && same_sel && r1.unnamed@ == x && out is CopyToClipboard && out->0@ == x
        },
        EditorAction::SystemCut => {
            let (a, b) = match w0.selection {
                Some(sel) => (sel.0 as int, sel.1 as int),
                None => line_span(t, c),
            };
            r1.unnamed@ == yanked(t, a, b) && out is CopyToClipboard && out->0@ == yanked(t, a, b)
                && b1@ == deleted(t, a, b) && w1.cursor == deleted_cursor(t, c, a, b)
                && (w0.selection is Some ==> w1.selection is None) && (w0.selection is None ==> same_sel)
        },
        EditorAction::SystemPaste => out is PasteFromClipboard && same_text && same_cursor && same_regs && same_sel,
        EditorAction::SetStatusMessage(msg) => handled && same_text && same_cursor && same_regs && same_sel && s1 == msg@,
        EditorAction::LspApplyCompletion { delete_backward, insert_text } => {
            let (t2, c2) = delete_backward_n(t, c, delete_backward as nat);
            handled && same_regs && same_sel && b1@ == t2.take(c2) + insert_text@ + t2.skip(c2)
                && w1.cursor == c2 + insert_text@.len()
        },
        _ => out is Unhandled && same_text && same_cursor && same_regs && same_sel,
    }
}

/// Inserts text from the system clipboard at the cursor; empty text changes
/// nothing.
pub fn paste_clipboard_text(win: &mut Window, buf: &mut Buffer, text: &str)
    requires
        old(buf).wf(),
        text@.len() > 0 ==> old(win).cursor <= old(buf)@.len() && byte_len(old(buf)@) + byte_len(text@) <= usize::MAX,
    ensures
        final(buf).wf(),
        text@.len() == 0 ==> final(buf)@ == old(buf)@ && final(win).cursor == old(win).cursor,
        text@.len() > 0 ==> {
            &&& final(buf)@ == old(buf)@.take(old(win).cursor as int) + text@ + old(buf)@.skip(old(win).cursor as int)
            &&& final(win).cursor == old(win).cursor + text@.len()
        },
        final(win).selection == old(win).selection,
        final(win).buffer_id == old(win).buffer_id,
        final(win).scroll_y == old(win).scroll_y,
        final(win).scroll_x == old(win).scroll_x,
        final(win).visible_lines == old(win).visible_lines,
        final(win).visible_cols == old(win).visible_cols,
{
    if !text.is_empty() {
        win.cursor = buf.insert_str(win.cursor, text);
    }
}

fn repeat_str(c: char, n: usize) -> (r: String)
    ensures
        r@ == repeat_char(c, n as nat),
{
    let mut s = String::new();
    let mut i: usize = 0;
    while i < n
        invariant
            i <= n,
            s@ == repeat_char(c, i as nat),
        decreases n - i,
    {
        string_push(&mut s, c);
        i = i + 1;
        assert(s@ =~= repeat_char(c, i as nat));
    }
    s
}

fn leading_whitespace(buf: &Buffer, line: usize) -> (r: String)
    requires
        buf.wf(),
        line <= nl_count(buf@),
    ensures
        r@ == leading_ws(buf@, line as nat),
{
    proof {
        crate::text::lemma_line_start_bounds(buf@, line as nat);
        crate::text::lemma_line_start_bounds(buf@, (line + 1) as nat);
        crate::text::lemma_nl_count_le_len(buf@);
    }
    let total = buf.total_lines();
    let a = buf.line_to_char(line);
    let b = buf.line_to_char(line + 1);
    let mut s = String::new();
    let mut p = a;
    loop
        invariant
            buf.wf(),
            a <= p <= b,
            b <= buf@.len(),
            a == line_start(buf@, line as nat),
            b == line_start(buf@, (line + 1) as nat),
            s@ == buf@.subrange(a as int, p as int),
            skip_fwd(buf@, p as int, b as int, blank_pred()) == skip_fwd(buf@, a as int, b as int, blank_pred()),
        decreases b - p,
    {
        if p >= b {
            return s;
        }
        let ch = buf.char_at(p);
        if ch != ' ' && ch != '\t' {
            assert(!blank_pred()(buf@[p as int]));
            return s;
        }
        string_push(&mut s, ch);
        p = p + 1;
        assert(s@ =~= buf@.subrange(a as int, p as int));
    }
}

fn last_non_ws_char(buf: &Buffer, a: usize, c: usize) -> (r: Option<char>)
    requires
        buf.wf(),
        a <= c <= buf@.len(),
    ensures
        r == last_non_ws(buf@, a as int, c as int),
{
    let mut k = c;
    while k > a
        invariant
            buf.wf(),
            a <= k <= c <= buf@.len(),
            last_non_ws(buf@, a as int, k as int) == last_non_ws(buf@, a as int, c as int),
        decreases k - a,
    {
        let ch = buf.char_at(k - 1);
        if !char_is_whitespace(ch) {
            return Some(ch);
        }
        k = k - 1;
    }
    None
}

fn delete_forward_loop(win: &mut Window, buf: &mut Buffer, count: usize)
    requires
        old(buf).wf(),
    ensures
        final(buf).wf(),
        final(buf)@ == delete_forward_n(old(buf)@, old(win).cursor as int, count as nat),
        *final(win) == *old(win),
{
    let mut i: usize = 0;
    while i < count
        invariant
            buf.wf(),
            i <= count,
            *win == *old(win),
            delete_forward_n(buf@, win.cursor as int, (count - i) as nat) == delete_forward_n(
                old(buf)@,
                old(win).cursor as int,
                count as nat,
            ),
        decreases count - i,
    {
        win.cursor = buf.delete_char_forward(win.cursor);
        i = i + 1;
    }
}

fn delete_lines_loop(win: &mut Window, buf: &mut Buffer, count: usize)
    requires
        old(buf).wf(),
        count == 0 || old(win).cursor <= old(buf)@.len(),
    ensures
        final(buf).wf(),
        final(buf)@ == delete_lines_n(old(buf)@, old(win).cursor as int, count as nat).0,
        final(win).cursor == delete_lines_n(old(buf)@, old(win).cursor as int, count as nat).1,
        final(win).selection == old(win).selection,
        final(win).buffer_id == old(win).buffer_id,
        final(win).scroll_y == old(win).scroll_y,
        final(win).scroll_x == old(win).scroll_x,
        final(win).visible_lines == old(win).visible_lines,
        final(win).visible_cols == old(win).visible_cols,
{
    let mut i: usize = 0;
    while i < count
        invariant
            buf.wf(),
            i <= count,
            i < count ==> win.cursor <= buf@.len(),
            win.selection == old(win).selection,
            win.buffer_id == old(win).buffer_id,
            win.scroll_y == old(win).scroll_y,
            win.scroll_x == old(win).scroll_x,
            win.visible_lines == old(win).visible_lines,
            win.visible_cols == old(win).visible_cols,
            delete_lines_n(buf@, win.cursor as int, (count - i) as nat) == delete_lines_n(
                old(buf)@,
                old(win).cursor as int,
                count as nat,
            ),
        decreases count - i,
    {
        proof {
            crate::text::lemma_line_of_bounds(buf@, win.cursor as int);
            crate::text::lemma_line_start_bounds(buf@, line_of(buf@, win.cursor as int));
            crate::text::lemma_line_start_bounds(buf@, (line_of(buf@, win.cursor as int) + 1) as nat);
        }
        win.cursor = buf.delete_line(win.cursor);
        i = i + 1;
    }
}

fn delete_backward_loop(win: &mut Window, buf: &mut Buffer, count: usize)
    requires
        old(buf).wf(),
        old(win).cursor <= old(buf)@.len(),
    ensures
        final(buf).wf(),
        final(buf)@ == delete_backward_n(old(buf)@, old(win).cursor as int, count as nat).0,
        final(win).cursor == delete_backward_n(old(buf)@, old(win).cursor as int, count as nat).1,
        final(win).cursor <= final(buf)@.len(),
        byte_len(final(buf)@) <= byte_len(old(buf)@),
        final(win).selection == old(win).selection,
        final(win).buffer_id == old(win).buffer_id,
        final(win).scroll_y == old(win).scroll_y,
        final(win).scroll_x == old(win).scroll_x,
        final(win).visible_lines == old(win).visible_lines,
        final(win).visible_cols == old(win).visible_cols,
{
    let mut i: usize = 0;
    while i < count
        invariant
            buf.wf(),
            i <= count,
            win.cursor <= buf@.len(),
            byte_len(buf@) <= byte_len(old(buf)@),
            win.selection == old(win).selection,
            win.buffer_id == old(win).buffer_id,
            win.scroll_y == old(win).scroll_y,
            win.scroll_x == old(win).scroll_x,
            win.visible_lines == old(win).visible_lines,
            win.visible_cols == old(win).visible_cols,
            delete_backward_n(buf@, win.cursor as int, (count - i) as nat) == delete_backward_n(
                old(buf)@,
                old(win).cursor as int,
                count as nat,
            ),
        decreases count - i,
    {
        proof {
            if win.cursor > 0 {
                crate::strs::lemma_byte_len_splice(buf@, win.cursor - 1, win.cursor as int, Seq::empty());
                assert(buf@.take(win.cursor - 1) + Seq::<char>::empty() =~= buf@.take(win.cursor - 1));
            }
        }
        win.cursor = buf.delete_char_backward(win.cursor);
        i = i + 1;
    }
}

pub(crate) fn selection_for(buf: &Buffer, anchor: usize, cursor: usize, linewise: bool) -> (r: (usize, usize))
    requires
        buf.wf(),
        linewise ==> anchor <= buf@.len() && cursor <= buf@.len(),
        !linewise ==> anchor < usize::MAX && cursor < usize::MAX,
    ensures
        r.0 == visual_selection(buf@, anchor as int, cursor as int, linewise).0,
        r.1 == visual_selection(buf@, anchor as int, cursor as int, linewise).1,
{
    if linewise {
        let anchor_line = buf.char_to_line(anchor);
        let cursor_line = buf.char_to_line(cursor);
        proof {
            crate::text::lemma_line_of_bounds(buf@, anchor as int);
            crate::text::lemma_line_of_bounds(buf@, cursor as int);
        }
        let (start_line, end_line) = if anchor_line <= cursor_line {
            (anchor_line, cursor_line)
        } else {
            (cursor_line, anchor_line)
        };
        let start = buf.line_to_char(start_line);
        let total = buf.total_lines();
        let end = if end_line + 1 < total { buf.line_to_char(end_line + 1) } else { buf.len_chars() };
        (start, end)
    } else if anchor <= cursor {
        (anchor, cursor + 1)
    } else {
        (cursor, anchor + 1)
    }
}

fn cursor_line_span(buf: &Buffer, cursor: usize) -> (r: (usize, usize))
    requires
        buf.wf(),
        cursor <= buf@.len(),
    ensures
        r.0 == line_span(buf@, cursor as int).0,
        r.1 == line_span(buf@, cursor as int).1,
{
    let line = buf.char_to_line(cursor);
    proof {
        crate::text::lemma_line_of_bounds(buf@, cursor as int);
    }
    let line_start = buf.line_to_char(line);
    let total = buf.total_lines();
    let line_end = if line + 1 < total { buf.line_to_char(line + 1) } else { buf.len_chars() };
    (line_start, line_end)
}

/// Carries out the actions that need only a window, its buffer and the
/// registers; a read-only buffer refuses edits with a status message.
/// Clipboard transfers are left to the caller (see `CoreOutcome`).
pub fn execute_core(
    win: &mut Window,
    buf: &mut Buffer,
    registers: &mut Registers,
    status_message: &mut String,
    action: &EditorAction,
) -> (r: CoreOutcome)
    requires
        core_pre(*old(win), *old(buf), *old(registers), *action),
    ensures
        final(buf).wf(),
        final(win).buffer_id == old(win).buffer_id,
        final(win).scroll_y == old(win).scroll_y,
        final(win).scroll_x == old(win).scroll_x,
        final(win).visible_lines == old(win).visible_lines,
        final(win).visible_cols == old(win).visible_cols,
        old(buf).read_only_flag() && action.is_mutation_spec() ==> {
            &&& r is Handled
            &&& final(status_message)@ == "Cannot edit read-only buffer"@
            &&& *final(buf) == *old(buf)
            &&& *final(win) == *old(win)
            &&& *final(registers) == *old(registers)
        },
        !(old(buf).read_only_flag() && action.is_mutation_spec()) && !(*action is SetStatusMessage)
            ==> final(status_message)@ == old(status_message)@,
        !(old(buf).read_only_flag() && action.is_mutation_spec()) ==> core_post(
            *old(win), *final(win), *old(buf), *final(buf), *old(registers), *final(registers),
            old(status_message)@, final(status_message)@, *action, r,
        ),
        r is Unhandled ==> {
            &&& *final(win) == *old(win)
            &&& *final(buf) == *old(buf)
            &&& *final(registers) == *old(registers)
            &&& *final(status_message) == *old(status_message)
        },
{
    if buf.is_read_only() && action.is_mutation() {
        *status_message = str_to_string("Cannot edit read-only buffer");
        return CoreOutcome::Handled;
    }
    match action {
        EditorAction::MoveCursor { motion, count } => {
            win.cursor = resolve_motion(buf, win.cursor, win.visible_lines, motion, *count);
        },
        EditorAction::SetCursor(pos) => {
            win.cursor = buf.clamp_cursor(*pos);
        },
        EditorAction::InsertChar(ch) => {
            win.cursor = buf.insert_char(win.cursor, *ch);
        },
        EditorAction::InsertNewline => {
            let cursor = win.cursor;
            let line_idx = buf.char_to_line(cursor);
            proof {
                crate::text::lemma_line_of_bounds(buf@, cursor as int);
            }
            let line_start = buf.line_to_char(line_idx);
            let indent_width = buf.indent_width() as usize;
            let one_indent = if buf.use_tabs() { str_to_string("\t") } else { repeat_str(' ', indent_width) };
            let leading = leading_whitespace(buf, line_idx);
            let last_significant = last_non_ws_char(buf, line_start, cursor);
            let mut text = str_to_string("\n");
            string_push_str(&mut text, leading.as_str());
            match last_significant {
                Some(c) => {
                    if c == '{' || c == '(' || c == '[' {
                        string_push_str(&mut text, one_indent.as_str());
                    }
                },
                None => {},
            }
            proof {
                reveal_strlit("\n");
                reveal_strlit("\t");
                assert(text@ =~= newline_text(buf@, cursor as int, buf.use_tabs_flag(), buf.indent_width_num() as nat));
            }
            win.cursor = buf.insert_str(cursor, text.as_str());
        },
        EditorAction::InsertTab => {
            let c = if buf.use_tabs() { '\t' } else { ' ' };
            let tab_str = repeat_str(c, buf.indent_width() as usize);
            win.cursor = buf.insert_str(win.cursor, tab_str.as_str());
        },
        EditorAction::DeleteTillEndOfLine => {
            proof {
                crate::text::lemma_line_of_bounds(buf@, win.cursor as int);
                crate::text::lemma_line_len_nn_bounds(buf@, line_of(buf@, win.cursor as int));
            }
            win.cursor = buf.delete_till_eol(win.cursor);
        },
        EditorAction::DeleteCharForward { count } => {
            delete_forward_loop(win, buf, *count);
        },
        EditorAction::DeleteCharBackward => {
            proof {
                reveal_with_fuel(delete_backward_n, 2);
            }
            win.cursor = buf.delete_char_backward(win.cursor);
        },
        EditorAction::DeleteLine { count } => {
            delete_lines_loop(win, buf, *count);
        },
        EditorAction::DeleteRange(Range { start, end }) => {
            let (new_cursor, deleted) = buf.delete_range(win.cursor, *start, *end);
            win.cursor = new_cursor;
            registers.unnamed = deleted;
        },
        EditorAction::ChangeRange(Range { start, end }) => {
            buf.start_edit_group(win.cursor);
            let (new_cursor, deleted) = buf.delete_range(win.cursor, *start, *end);
            win.cursor = new_cursor;
            registers.unnamed = deleted;
        },
        EditorAction::YankRange(Range { start, end }) => {
            registers.unnamed = buf.yank_range(*start, *end);
        },
        EditorAction::ReplaceChar(ch) => {
            win.cursor = buf.replace_char(win.cursor, *ch);
        },
        EditorAction::Paste { before } => {
            let text = registers.unnamed.clone();
            win.cursor = if *before {
                buf.paste_before(win.cursor, text.as_str())
            } else {
                buf.paste_after(win.cursor, text.as_str())
            };
        },
        EditorAction::Undo => {
            if let Some(new_cursor) = buf.undo() {
                win.cursor = new_cursor;
            }
        },
        EditorAction::Redo => {
            if let Some(new_cursor) = buf.redo() {
                win.cursor = new_cursor;
            }
        },
        EditorAction::StartEditGroup => {
            buf.start_edit_group(win.cursor);
        },
        EditorAction::FinishEditGroup => {
            buf.finish_edit_group();
        },
        EditorAction::SetSelection(sel) => {
            win.selection = *sel;
        },
        EditorAction::UpdateVisualSelection { anchor, mode } => {
            let sel = selection_for(buf, *anchor, win.cursor, *mode == VimMode::VisualLine);
            win.selection = Some(sel);
        },
        EditorAction::SystemCopy => {
            let text = match win.selection {
                Some((start, end)) => buf.yank_range(start, end),
                None => {
                    let (line_start, line_end) = cursor_line_span(buf, win.cursor);
                    buf.yank_range(line_start, line_end)
                },
            };
            registers.unnamed = text.clone();
            return CoreOutcome::CopyToClipboard(text);
        },
        EditorAction::SystemCut => {
            let text = match win.selection {
                Some((start, end)) => {
                    let yanked = buf.yank_range(start, end);
                    let (new_cursor, _) = buf.delete_range(win.cursor, start, end);
                    win.cursor = new_cursor;
                    win.selection = None;
                    yanked
                },
                None => {
                    let cursor = win.cursor;
                    let (line_start, line_end) = cursor_line_span(buf, cursor);
                    let yanked = buf.yank_range(line_start, line_end);
                    let (new_cursor, _) = buf.delete_range(cursor, line_start, line_end);
                    win.cursor = new_cursor;
                    yanked
                },
            };
            registers.unnamed = text.clone();
            return CoreOutcome::CopyToClipboard(text);
        },
        EditorAction::SystemPaste => {
            return CoreOutcome::PasteFromClipboard;
        },
        EditorAction::SetStatusMessage(msg) => {
            *status_message = msg.clone();
        },
        EditorAction::LspApplyCompletion { delete_backward, insert_text } => {
            delete_backward_loop(win, buf, *delete_backward);
            win.cursor = buf.insert_str(win.cursor, insert_text.as_str());
        },
        _ => return CoreOutcome::Unhandled,
    }
    CoreOutcome::Handled
}

/// From index `i` on, the first match after `c`, else the first match.
pub open spec fn first_after(ms: Seq<usize>, c: int, i: int) -> int
    decreases ms.len() - i,
{
    if i < 0 || i >= ms.len() {
        if ms.len() > 0 { ms[0] as int } else { c }
    } else if ms[i] > c {
        ms[i] as int
    } else {
        first_after(ms, c, i + 1)
    }
}

/// From index `i` down, the last match before `c`, else the last match.
pub open spec fn last_before(ms: Seq<usize>, c: int, i: int) -> int
    decreases i,
{
    if i <= 0 || i > ms.len() {
        if ms.len() > 0 { ms[ms.len() - 1] as int } else { c }
    } else if (ms[i - 1] as int) < c {
        ms[i - 1] as int
    } else {
        last_before(ms, c, i - 1)
    }
}

/// `n` jumps to the next match, wrapping to the first.
pub open spec fn next_iter(ms: Seq<usize>, c: int, n: nat) -> int
    decreases n,
{
    if n == 0 { c } else { next_iter(ms, first_after(ms, c, 0), (n - 1) as nat) }
}

/// `n` jumps to the previous match, wrapping to the last.
pub open spec fn prev_iter(ms: Seq<usize>, c: int, n: nat) -> int
    decreases n,
{
    if n == 0 { c } else { prev_iter(ms, last_before(ms, c, ms.len() as int), (n - 1) as nat) }
}

/// Matches listed in increasing order.
pub open spec fn ascending(ms: Seq<usize>) -> bool {
    forall|a: int, b: int| 0 <= a < b < ms.len() ==> ms[a] < ms[b]
}

/// Scanning from `i`, the first match after `c` is at `j`.
proof fn lemma_first_after_at(ms: Seq<usize>, c: int, i: int, j: int)
    requires
        0 <= i <= j < ms.len(),
        forall|k: int| i <= k < j ==> ms[k] <= c,
        ms[j] > c,
    ensures
        first_after(ms, c, i) == ms[j],
    decreases j - i,
{
    if i < j {
        lemma_first_after_at(ms, c, i + 1, j);
    }
}

/// Scanning from `i` with no match after `c`, the search wraps to the first.
proof fn lemma_first_after_wraps(ms: Seq<usize>, c: int, i: int)
    requires
        0 <= i <= ms.len(),
        ms.len() > 0,
        forall|k: int| i <= k < ms.len() ==> ms[k] <= c,
    ensures
        first_after(ms, c, i) == ms[0],
    decreases ms.len() - i,
{
    if i < ms.len() {
        lemma_first_after_wraps(ms, c, i + 1);
    }
}

/// Scanning down from `i`, the last match before `c` is at `j - 1`.
proof fn lemma_last_before_at(ms: Seq<usize>, c: int, i: int, j: int)
    requires
        0 < j <= i <= ms.len(),
        forall|k: int| j <= k < i ==> ms[k] >= c,
        ms[j - 1] < c,
    ensures
        last_before(ms, c, i) == ms[j - 1],
    decreases i - j,
{
    if j < i {
        lemma_last_before_at(ms, c, i - 1, j);
    }
}

/// Scanning down from `i` with no match before `c`, the search wraps to
/// the last.
proof fn lemma_last_before_wraps(ms: Seq<usize>, c: int, i: int)
    requires
        0 <= i <= ms.len(),
        ms.len() > 0,
        forall|k: int| 0 <= k < i ==> ms[k] >= c,
    ensures
        last_before(ms, c, i) == ms[ms.len() - 1],
    decreases i,
{
    if i > 0 {
        lemma_last_before_wraps(ms, c, i - 1);
    }
}

/// From a match, a jump to the next match and one back to the previous
/// return to it (wrapping around at the ends).
pub proof fn law_search_next_then_prev_returns(ms: Seq<usize>, j: int)
    requires
        ascending(ms),
        0 <= j < ms.len(),
    ensures
        prev_iter(ms, next_iter(ms, ms[j] as int, 1), 1) == ms[j],
{
    reveal_with_fuel(next_iter, 2);
    reveal_with_fuel(prev_iter, 2);
    let c = ms[j] as int;
    let n = ms.len() as int;
    if j + 1 < n {
        lemma_first_after_at(ms, c, 0, j + 1);
        lemma_last_before_at(ms, ms[j + 1] as int, n, j + 1);
    } else {
        lemma_first_after_wraps(ms, c, 0);
        lemma_last_before_wraps(ms, ms[0] as int, n);
    }
}

/// From a match, a jump back to the previous match and one on to the next
/// return to it (wrapping around at the ends).
pub proof fn law_search_prev_then_next_returns(ms: Seq<usize>, j: int)
    requires
        ascending(ms),
        0 <= j < ms.len(),
    ensures
        next_iter(ms, prev_iter(ms, ms[j] as int, 1), 1) == ms[j],
{
    reveal_with_fuel(next_iter, 2);
    reveal_with_fuel(prev_iter, 2);
    let c = ms[j] as int;
    let n = ms.len() as int;
    if j > 0 {
        lemma_last_before_at(ms, c, n, j);
        lemma_first_after_at(ms, ms[j - 1] as int, 0, j);
    } else {
        lemma_last_before_wraps(ms, c, n);
        lemma_first_after_wraps(ms, ms[n - 1] as int, 0);
    }
}

fn find_after(ms: &Vec<usize>, c: usize) -> (r: usize)
    requires
        ms@.len() > 0,
    ensures
        r == first_after(ms@, c as int, 0),
{
    let mut i: usize = 0;
    while i < ms.len()
        invariant
            i <= ms@.len(),
            ms@.len() > 0,
            first_after(ms@, c as int, i as int) == first_after(ms@, c as int, 0),
        decreases ms@.len() - i,
    {
        if ms[i] > c {
            return ms[i];
        }
        i = i + 1;
    }
    ms[0]
}

fn find_before(ms: &Vec<usize>, c: usize) -> (r: usize)
    requires
        ms@.len() > 0,
    ensures
        r == last_before(ms@, c as int, ms@.len() as int),
{
    let mut i: usize = ms.len();
    while i > 0
        invariant
            i <= ms@.len(),
            ms@.len() > 0,
            last_before(ms@, c as int, i as int) == last_before(ms@, c as int, ms@.len() as int),
        decreases i,
    {
        if ms[i - 1] < c {
            return ms[i - 1];
        }
        i = i - 1;
    }
    ms[ms.len() - 1]
}

/// Moves the cursor `count` matches forward, wrapping around; nothing
/// happens without a pattern or matches.
pub fn search_next_in(win: &mut Window, pattern: &str, count: usize)
    ensures
        pattern@.len() == 0 || old(win).search_matches@.len() == 0 ==> final(win).cursor == old(win).cursor,
        !(pattern@.len() == 0 || old(win).search_matches@.len() == 0) ==> final(win).cursor == next_iter(
            old(win).search_matches@,
            old(win).cursor as int,
            count as nat,
        ),
        final(win).buffer_id == old(win).buffer_id,
        final(win).scroll_y == old(win).scroll_y,
        final(win).scroll_x == old(win).scroll_x,
        final(win).selection == old(win).selection,
        final(win).search_matches@ == old(win).search_matches@,
        final(win).visible_lines == old(win).visible_lines,
        final(win).visible_cols == old(win).visible_cols,
        final(win).search_version == old(win).search_version,
        final(win).search_cached_pattern == old(win).search_cached_pattern,
{
    if pattern.is_empty() || win.search_matches.len() == 0 {
        return;
    }
    let mut cursor = win.cursor;
    let mut i: usize = 0;
    while i < count
        invariant
            i <= count,
            win.search_matches@.len() > 0,
            next_iter(win.search_matches@, cursor as int, (count - i) as nat) == next_iter(
                win.search_matches@,
                win.cursor as int,
                count as nat,
            ),
        decreases count - i,
    {
        cursor = find_after(&win.search_matches, cursor);
        i = i + 1;
    }
    win.cursor = cursor;
}

/// Moves the cursor `count` matches back, wrapping around; nothing happens
/// without a pattern or matches.
pub fn search_prev_in(win: &mut Window, pattern: &str, count: usize)
    ensures
        pattern@.len() == 0 || old(win).search_matches@.len() == 0 ==> final(win).cursor == old(win).cursor,
        !(pattern@.len() == 0 || old(win).search_matches@.len() == 0) ==> final(win).cursor == prev_iter(
            old(win).search_matches@,
            old(win).cursor as int,
            count as nat,
        ),
        final(win).buffer_id == old(win).buffer_id,
        final(win).scroll_y == old(win).scroll_y,
        final(win).scroll_x == old(win).scroll_x,
        final(win).selection == old(win).selection,
        final(win).search_matches@ == old(win).search_matches@,
        final(win).visible_lines == old(win).visible_lines,
        final(win).visible_cols == old(win).visible_cols,
        final(win).search_version == old(win).search_version,
        final(win).search_cached_pattern == old(win).search_cached_pattern,
{
    if pattern.is_empty() || win.search_matches.len() == 0 {
        return;
    }
    let mut cursor = win.cursor;
    let mut i: usize = 0;
    while i < count
        invariant
            i <= count,
            win.search_matches@.len() > 0,
            prev_iter(win.search_matches@, cursor as int, (count - i) as nat) == prev_iter(
                win.search_matches@,
                win.cursor as int,
                count as nat,
            ),
        decreases count - i,
    {
        cursor = find_before(&win.search_matches, cursor);
        i = i + 1;
    }
    win.cursor = cursor;
}

} // verus!

verus! {

/// `last_non_ws` finds the char at `k` when `k` is in `[a, c)`, is not
/// whitespace and only whitespace follows it before `c`; and whatever it
/// finds is such a char.
proof fn lemma_last_non_ws_at(t: Seq<char>, a: int, c: int)
    requires
        0 <= a <= c <= t.len(),
    ensures
        forall|k: int|
            a <= k < c && !is_unicode_whitespace(#[trigger] t[k]) && (forall|j: int| k < j < c ==> is_unicode_whitespace(t[j]))
                ==> last_non_ws(t, a, c) == Some(t[k]),
        last_non_ws(t, a, c) matches Some(ch) ==> exists|k: int|
            a <= k < c && #[trigger] t[k] == ch && !is_unicode_whitespace(t[k]) && (forall|j: int| k < j < c ==> is_unicode_whitespace(t[j])),
        last_non_ws(t, a, c) is None ==> forall|k: int| a <= k < c ==> is_unicode_whitespace(#[trigger] t[k]),
    decreases c - a,
{
    if c > a {
        lemma_last_non_ws_at(t, a, c - 1);
        if is_unicode_whitespace(t[c - 1]) {
            assert forall|k: int|
                a <= k < c && !is_unicode_whitespace(#[trigger] t[k]) && (forall|j: int| k < j < c ==> is_unicode_whitespace(t[j]))
                implies last_non_ws(t, a, c) == Some(t[k]) by {
                assert(k != c - 1);
                assert forall|j: int| k < j < c - 1 implies is_unicode_whitespace(t[j]) by {}
            }
            match last_non_ws(t, a, c) {
                Some(ch) => {
                    let k = choose|k: int|
                        a <= k < c - 1 && #[trigger] t[k] == ch && !is_unicode_whitespace(t[k]) && (forall|j: int| k < j < c - 1 ==> is_unicode_whitespace(t[j]));
                    assert(a <= k < c && t[k] == ch && !is_unicode_whitespace(t[k]) && (forall|j: int| k < j < c ==> is_unicode_whitespace(t[j])));
                },
                None => {},
            }
        } else {
            assert forall|k: int|
                a <= k < c && !is_unicode_whitespace(#[trigger] t[k]) && (forall|j: int| k < j < c ==> is_unicode_whitespace(t[j]))
                implies last_non_ws(t, a, c) == Some(t[k]) by {
                if k < c - 1 {
                    assert(is_unicode_whitespace(t[c - 1]));
                }
            }
            let k = c - 1;
            assert(a <= k < c && t[k] == t[c - 1] && !is_unicode_whitespace(t[k]) && (forall|j: int| k < j < c ==> is_unicode_whitespace(t[j])));
        }
    }
}

/// Whether `ch` opens a bracket after which Enter indents one level more.
pub open spec fn is_opener(ch: char) -> bool {
    ch == '{' || ch == '(' || ch == '['
}

/// Enter after an opening bracket: when the last char before the cursor on
/// its line that is not whitespace is `{`, `(` or `[`, Enter inserts a line
/// feed, the line's leading spaces and tabs, and one more level of
/// indentation (a tab, or `w` spaces); otherwise just the line feed and the
/// leading spaces and tabs.
pub proof fn law_enter_indents_after_opener(t: Seq<char>, c: int, use_tabs: bool, w: nat)
    requires
        0 <= c <= t.len(),
    ensures
        ({
            let l = line_of(t, c);
            let ls = line_start(t, l);
            let unit = if use_tabs { seq!['\t'] } else { Seq::new(w, |i: int| ' ') };
            let opened = exists|k: int|
                ls <= k < c && is_opener(#[trigger] t[k]) && (forall|j: int| k < j < c ==> is_unicode_whitespace(t[j]));
            &&& opened ==> newline_text(t, c, use_tabs, w) == seq!['\n'] + leading_ws(t, l) + unit
            &&& !opened ==> newline_text(t, c, use_tabs, w) == seq!['\n'] + leading_ws(t, l)
        }),
{
    let l = line_of(t, c);
    let ls = line_start(t, l);
    crate::text::lemma_line_of_bounds(t, c);
    crate::text::lemma_line_start_bounds(t, l as nat);
    lemma_last_non_ws_at(t, ls, c);
    let unit = if use_tabs { seq!['\t'] } else { Seq::new(w, |i: int| ' ') };
    assert(indent_unit(use_tabs, w) =~= unit);
    let opened = exists|k: int|
        ls <= k < c && is_opener(#[trigger] t[k]) && (forall|j: int| k < j < c ==> is_unicode_whitespace(t[j]));
    if opened {
        let k = choose|k: int|
            ls <= k < c && is_opener(#[trigger] t[k]) && (forall|j: int| k < j < c ==> is_unicode_whitespace(t[j]));
        assert(!is_unicode_whitespace(t[k]));
        assert(last_non_ws(t, ls, c) == Some(t[k]));
        assert(seq!['\n'] + (leading_ws(t, l) + unit) =~= seq!['\n'] + leading_ws(t, l) + unit);
    } else {
        match last_non_ws(t, ls, c) {
            Some(ch) => {
                let k = choose|k: int|
                    ls <= k < c && #[trigger] t[k] == ch && !is_unicode_whitespace(t[k]) && (forall|j: int| k < j < c ==> is_unicode_whitespace(t[j]));
                assert(!is_opener(t[k]));
            },
            None => {},
        }
    }
}

} // verus!

//! A text buffer: a rope of chars with cursor arithmetic, Vim motions, text
//! objects, edits and undo/redo.
use vstd::prelude::*;
use ropey::Rope;
use crate::rope::{
    rope_insert, rope_insert_char, rope_remove, rope_slice_string,
    rope_to_string,
    rope_text, rope_new, rope_from_str, rope_len_chars, rope_len_lines, rope_line_to_char,
    rope_char_to_line, rope_char, rope_line_len_chars,
};
use crate::text::{
    nl_count, line_count, line_of, line_start, line_len_nn, col_of, skip_fwd, skip_bwd,
    skip_fwd_ahead, lemma_line_start_bounds, lemma_line_start_mono, lemma_line_of_bounds,
    lemma_line_len_nn_bounds, lemma_skip_fwd_bounds, lemma_skip_bwd_bounds,
    lemma_skip_fwd_ahead_bounds,
};
use vstd::utf8::encode_utf8;
use crate::strs::{str_ends_with_char, str_char_count, lemma_byte_len_splice, lemma_byte_len_subrange, char_to_string,
    byte_len, str_to_string, char_is_whitespace, char_is_alphanumeric, char_alphanumeric, is_unicode_whitespace};
use crate::undo::{
    UndoStack, EditKind, recorded_edit, recorded_char, pushed_edit, next_version, revert_all,
    revert_all_ok, revert_edit, revert_ok, apply_all, apply_all_ok, apply_edit, apply_ok, redo_cursor, edits_describe,
};
use crate::action::Motion;

verus! {

/// A space or a tab.
pub open spec fn is_blank(c: char) -> bool {
    c == ' ' || c == '\t'
}

/// A char that belongs to a word: alphanumeric or `_`.
pub open spec fn is_word_char(c: char) -> bool {
    char_alphanumeric(c) || c == '_'
}

/// A char that is neither a word char nor whitespace.
pub open spec fn is_punct(c: char) -> bool {
    !is_word_char(c) && !is_unicode_whitespace(c)
}

/// Any char that is not whitespace.
pub open spec fn is_non_ws(c: char) -> bool {
    !is_unicode_whitespace(c)
}

/// The whitespace test, as a predicate value.
pub open spec fn ws_pred() -> spec_fn(char) -> bool {
    |x: char| is_unicode_whitespace(x)
}

/// The non-whitespace test, as a predicate value.
pub open spec fn non_ws_pred() -> spec_fn(char) -> bool {
    |x: char| is_non_ws(x)
}

/// The word-char test, as a predicate value.
pub open spec fn word_pred() -> spec_fn(char) -> bool {
    |x: char| is_word_char(x)
}

/// The punctuation test, as a predicate value.
pub open spec fn punct_pred() -> spec_fn(char) -> bool {
    |x: char| is_punct(x)
}

/// The space-or-tab test, as a predicate value.
pub open spec fn blank_pred() -> spec_fn(char) -> bool {
    |x: char| is_blank(x)
}

/// Where `move_word_forward` lands from `c`.
pub open spec fn word_forward(s: Seq<char>, c: int) -> int {
    let len = s.len() as int;
    if c >= len {
        c
    } else {
        let ch = s[c];
        let p = if is_word_char(ch) {
            skip_fwd(s, c, len, word_pred())
        } else if is_unicode_whitespace(ch) {
            skip_fwd(s, c, len, ws_pred())
        } else {
            skip_fwd(s, c, len, punct_pred())
        };
        skip_fwd(s, p, len, ws_pred())
    }
}

/// Where `move_word_backward` lands from `c`.
pub open spec fn word_backward(s: Seq<char>, c: int) -> int {
    if c == 0 {
        c
    } else {
        let p = skip_bwd(s, c, ws_pred());
        if p == 0 {
            p
        } else if is_word_char(s[p - 1]) {
            skip_bwd(s, p, word_pred())
        } else {
            skip_bwd(s, p, punct_pred())
        }
    }
}

/// Where `move_word_end` lands from `c`.
pub open spec fn word_end(s: Seq<char>, c: int) -> int {
    let len = s.len() as int;
    if c + 1 >= len {
        c
    } else {
        let p = skip_fwd(s, c + 1, len, ws_pred());
        skip_fwd_ahead(s, p, len, non_ws_pred())
    }
}

/// The first non-blank position of line `l`.
pub open spec fn first_non_blank(s: Seq<char>, l: nat) -> int {
    skip_fwd(s, line_start(s, l), line_start(s, l + 1), blank_pred())
}


/// Where `move_left` lands: one char left, unless at a line start.
pub open spec fn left_target(s: Seq<char>, c: int) -> int {
    if c > 0 && col_of(s, c) != 0 { c - 1 } else { c }
}

/// Where `move_right` lands: one char right, unless at the end of the
/// line's text or of the text.
pub open spec fn right_target(s: Seq<char>, c: int) -> int {
    if c < s.len() && col_of(s, c) != line_len_nn(s, line_of(s, c)) { c + 1 } else { c }
}

/// Where `move_up` lands: the same column of the line above, or the end
/// of its text if shorter; `c` on the first line.
pub open spec fn up_target(s: Seq<char>, c: int) -> int {
    let l = line_of(s, c);
    let col = col_of(s, c);
    if l > 0 {
        let pl = (l - 1) as nat;
        line_start(s, pl) + (if col < line_len_nn(s, pl) { col } else { line_len_nn(s, pl) })
    } else {
        c
    }
}

/// Where `move_down` lands: the same column of the line below, or the end
/// of its text if shorter; `c` on the last line.
pub open spec fn down_target(s: Seq<char>, c: int) -> int {
    let l = line_of(s, c);
    let col = col_of(s, c);
    if l + 1 < line_count(s) {
        let nl = (l + 1) as nat;
        line_start(s, nl) + (if col < line_len_nn(s, nl) { col } else { line_len_nn(s, nl) })
    } else {
        c
    }
}

/// First `i` in `[from, to)` with `s[base + i] == ch`.
pub open spec fn find_fwd(s: Seq<char>, base: int, from: int, to: int, ch: char) -> Option<int>
    decreases to - from,
{
    if from >= to {
        None
    } else if s[base + from] == ch {
        Some(from)
    } else {
        find_fwd(s, base, from + 1, to, ch)
    }
}

/// Last `i` in `[0, to)` with `s[base + i] == ch`.
pub open spec fn find_bwd(s: Seq<char>, base: int, to: int, ch: char) -> Option<int>
    decreases to,
{
    if to <= 0 {
        None
    } else if s[base + to - 1] == ch {
        Some(to - 1)
    } else {
        find_bwd(s, base, to - 1, ch)
    }
}

/// Where a find-char motion (`f`, `F`, `t`, `T`) lands from `c`: the next
/// (or previous) `ch` on the line, or just before (after) it; `c` if none.
pub open spec fn find_char_target(
    s: Seq<char>,
    c: int,
    ch: char,
    forward: bool,
    stop_before: bool,
) -> int {
    let l = line_of(s, c);
    let ls = line_start(s, l);
    let col = c - ls;
    let ll = line_len_nn(s, l);
    if forward {
        match find_fwd(s, ls, col + 1, ll, ch) {
            Some(i) => ls + (if stop_before { i - 1 } else { i }),
            None => c,
        }
    } else if col > 0 {
        match find_bwd(s, ls, col, ch) {
            Some(i) => ls + (if stop_before { i + 1 } else { i }),
            None => c,
        }
    } else {
        c
    }
}

/// One step of a motion as `cursor_after_motion` takes it.
pub open spec fn motion_step(s: Seq<char>, pos: int, m: Motion) -> int {
    let len = s.len() as int;
    let l = line_of(s, pos);
    let ls = line_start(s, l);
    let col = pos - ls;
    match m {
        Motion::Left => if pos > ls { pos - 1 } else { pos },
        Motion::Right => if pos < len && col < line_len_nn(s, l) { pos + 1 } else { pos },
        Motion::Up => up_target(s, pos),
        Motion::Down => down_target(s, pos),
        Motion::WordForward => if pos < len {
            skip_fwd(s, skip_fwd(s, pos, len, non_ws_pred()), len, ws_pred())
        } else {
            pos
        },
        Motion::WordBackward => if pos > 0 {
            skip_bwd(s, skip_bwd(s, pos, ws_pred()), non_ws_pred())
        } else {
            pos
        },
        Motion::WordEnd => if pos + 1 < len {
            skip_fwd_ahead(s, skip_fwd(s, pos + 1, len, ws_pred()), len, non_ws_pred())
        } else {
            pos
        },
        Motion::LineStart => ls,
        Motion::LineEnd => ls + line_len_nn(s, l),
        Motion::FirstNonWhitespace => first_non_blank(s, l),
        Motion::FileStart => 0,
        Motion::FileEnd => len,
        Motion::FindChar { ch, forward, stop_before } => find_char_target(s, pos, ch, forward, stop_before),
        Motion::HalfPageDown | Motion::HalfPageUp => pos,
    }
}

/// `n` steps of a motion.
pub open spec fn motion_iter(s: Seq<char>, pos: int, m: Motion, n: nat) -> int
    decreases n,
{
    if n == 0 {
        pos
    } else {
        motion_iter(s, motion_step(s, pos, m), m, (n - 1) as nat)
    }
}

/// The motions that leave a position beyond the text alone (or jump to a
/// file end) rather than read the text there.
pub open spec fn tolerates_any_pos(m: Motion) -> bool {
    match m {
        Motion::Right | Motion::WordForward | Motion::WordEnd | Motion::FileStart | Motion::FileEnd
        | Motion::HalfPageDown | Motion::HalfPageUp => true,
        _ => false,
    }
}

/// `min(c, len - 1)` for a non-empty text: the char a text object starts from.
pub open spec fn object_pos(s: Seq<char>, c: int) -> int {
    if c < s.len() - 1 { c } else { s.len() - 1 }
}

/// The inner-word text object (`iw`) at `c`: the run of whitespace, or of
/// non-whitespace, around the char at `c`.
pub open spec fn inner_word(s: Seq<char>, c: int) -> (int, int) {
    if s.len() == 0 {
        (0, 0)
    } else {
        let pos = object_pos(s, c);
        let pred = if is_unicode_whitespace(s[pos]) { ws_pred() } else { non_ws_pred() };
        (skip_bwd(s, pos, pred), skip_fwd(s, pos, s.len() as int, pred))
    }
}

/// The a-word text object (`aw`) at `c`: the inner word with the whitespace
/// after it, or, if there is none, the whitespace before it.
pub open spec fn a_word(s: Seq<char>, c: int) -> (int, int) {
    let (start, end) = inner_word(s, c);
    let end2 = skip_fwd(s, end, s.len() as int, ws_pred());
    if end2 == end {
        (skip_bwd(s, start, ws_pred()), end2)
    } else {
        (start, end2)
    }
}

/// Scanning down from `i` (which started at `pos`), the index of the `open`
/// char that encloses `pos`, skipping nested pairs.
pub open spec fn scan_open(s: Seq<char>, i: int, pos: int, open: char, close: char, depth: int) -> Option<int>
    decreases i,
{
    if i < 0 {
        None
    } else {
        let ch = s[i];
        if ch == open && !(ch == close && i != pos) && depth == 0 {
            Some(i)
        } else {
            let d = if ch == close && i != pos {
                depth + 1
            } else if ch == open {
                depth - 1
            } else {
                depth
            };
            if i == 0 {
                None
            } else {
                scan_open(s, i - 1, pos, open, close, d)
            }
        }
    }
}

/// Scanning up from `j`, the index of the `close` char that matches,
/// skipping nested pairs.
pub open spec fn scan_close(s: Seq<char>, j: int, open: char, close: char, depth: int) -> Option<int>
    decreases s.len() - j,
{
    if j >= s.len() || j < 0 {
        None
    } else {
        let ch = s[j];
        if ch != open && ch == close && depth == 0 {
            Some(j)
        } else {
            let d = if ch == open {
                depth + 1
            } else if ch == close {
                depth - 1
            } else {
                depth
            };
            scan_close(s, j + 1, open, close, d)
        }
    }
}

/// The delimited text object (`i(`, `a{`, ...) at `c`: inside the enclosing
/// `open`..`close` pair, or including it; `(pos, pos)` if there is none.
pub open spec fn delimited(s: Seq<char>, c: int, open: char, close: char, around: bool) -> (int, int) {
    if s.len() == 0 {
        (0, 0)
    } else {
        let pos = object_pos(s, c);
        match scan_open(s, pos, pos, open, close, 0) {
            None => (pos, pos),
            Some(op) => match scan_close(s, op + 1, open, close, 0) {
                None => (pos, pos),
                Some(cp) => if around { (op, cp + 1) } else { (op + 1, cp) },
            },
        }
    }
}

/// The positions of `q` in `s[base .. base + n]`, in order.
pub open spec fn quotes_upto(s: Seq<char>, base: int, n: int, q: char) -> Seq<int>
    decreases n,
{
    if n <= 0 {
        Seq::empty()
    } else {
        quotes_upto(s, base, n - 1, q) + (if s[base + n - 1] == q {
            seq![base + n - 1]
        } else {
            Seq::empty()
        })
    }
}

/// From pair `k` on, the first pair of quote positions around `pos`.
pub open spec fn pick_pair(qs: Seq<int>, k: int, pos: int, around: bool) -> (int, int)
    decreases qs.len() - k,
{
    if k < 0 || k + 1 >= qs.len() {
        (pos, pos)
    } else if qs[k] <= pos <= qs[k + 1] {
        if around { (qs[k], qs[k + 1] + 1) } else { (qs[k] + 1, qs[k + 1]) }
    } else {
        pick_pair(qs, k + 2, pos, around)
    }
}

/// The quoted text object (`i"`, `a'`, ...) at `c`: quotes on the line pair
/// up from the left; inside the pair around the cursor, or including it.
pub open spec fn quoted(s: Seq<char>, c: int, q: char, around: bool) -> (int, int) {
    if s.len() == 0 {
        (0, 0)
    } else {
        let pos = object_pos(s, c);
        let l = line_of(s, pos);
        let ls = line_start(s, l);
        let n = line_start(s, l + 1) - ls;
        pick_pair(quotes_upto(s, ls, n, q), 0, pos, around)
    }
}

/// The longest line length (without line breaks) among the first `n` lines.
pub open spec fn max_len_upto(s: Seq<char>, n: nat) -> int
    decreases n,
{
    if n == 0 {
        0
    } else {
        let m = max_len_upto(s, (n - 1) as nat);
        let x = line_len_nn(s, (n - 1) as nat);
        if x > m { x } else { m }
    }
}

/// All char indices from `i` on at which `q` occurs in `b`, in order.
pub open spec fn occurrences(b: Seq<char>, q: Seq<char>, i: int) -> Seq<int>
    decreases b.len() + 1 - i,
{
    if i < 0 || i + q.len() > b.len() {
        Seq::empty()
    } else if b.subrange(i, i + q.len()) == q {
        seq![i] + occurrences(b, q, i + 1)
    } else {
        occurrences(b, q, i + 1)
    }
}

/// Each occurrence from `i` on starts at or after `i`, and the
/// occurrence lies within `b`.
pub proof fn lemma_occurrences_bounds(b: Seq<char>, q: Seq<char>, i: int)
    ensures
        forall|k: int|
            0 <= k < occurrences(b, q, i).len() ==> i <= #[trigger] occurrences(b, q, i)[k] && occurrences(b, q, i)[k]
                + q.len() <= b.len(),
    decreases b.len() + 1 - i,
{
    if !(i < 0 || i + q.len() > b.len()) {
        lemma_occurrences_bounds(b, q, i + 1);
        if b.subrange(i, i + q.len()) == q {
            assert forall|k: int| 0 <= k < occurrences(b, q, i).len() implies i <= #[trigger] occurrences(b, q, i)[k]
                && occurrences(b, q, i)[k] + q.len() <= b.len() by {
                if k > 0 {
                    assert(occurrences(b, q, i)[k] == occurrences(b, q, i + 1)[k - 1]);
                }
            }
        }
    }
}

/// Where `paste_after` puts its text: below the cursor's line for
/// linewise text, else after the cursor's char (at a line feed under the
/// cursor, or at the end).
pub open spec fn paste_after_pos(t: Seq<char>, cursor: int, linewise: bool) -> int {
    if linewise {
        let l = line_of(t, cursor);
        if l + 1 < line_count(t) { line_start(t, l + 1) } else { t.len() as int }
    } else if cursor < t.len() && t[cursor] == '\n' {
        cursor
    } else if cursor + 1 < t.len() {
        cursor + 1
    } else {
        t.len() as int
    }
}

/// The classes of chars that word motions skip over.
pub enum CharClass {
    Word,
    Space,
    Punct,
    NonSpace,
}

/// The predicate of a char class.
pub open spec fn class_pred(k: CharClass) -> spec_fn(char) -> bool {
    match k {
        CharClass::Word => word_pred(),
        CharClass::Space => ws_pred(),
        CharClass::Punct => punct_pred(),
        CharClass::NonSpace => non_ws_pred(),
    }
}

/// Whether `c` belongs to class `k`.
fn in_class(c: char, k: &CharClass) -> (b: bool)
    ensures
        b == class_pred(*k)(c),
{
    match k {
        CharClass::Word => char_is_alphanumeric(c) || c == '_',
        CharClass::Space => char_is_whitespace(c),
        CharClass::Punct => !(char_is_alphanumeric(c) || c == '_') && !char_is_whitespace(c),
        CharClass::NonSpace => !char_is_whitespace(c),
    }
}

/// The word-or-underscore test (`is_word_char`).
fn word_char(c: char) -> (b: bool)
    ensures
        b == is_word_char(c),
{
    char_is_alphanumeric(c) || c == '_'
}

/// A text buffer.
pub struct Buffer {
    rope: Rope,
    read_only: bool,
    name: String,
    file_path: Option<String>,
    modified: bool,
    undo_stack: UndoStack,
    version: u64,
    indent_width: u8,
    use_tabs: bool,
}

impl View for Buffer {
    type V = Seq<char>;

    /// The chars of the buffer.
    closed spec fn view(&self) -> Seq<char> {
        rope_text(self.rope)
    }
}

impl Buffer {
    /// The undo history.
    pub closed spec fn history(self) -> UndoStack {
        self.undo_stack
    }

    /// Whether the buffer changed since it was opened or saved.
    pub closed spec fn modified_flag(self) -> bool {
        self.modified
    }

    /// The change counter.
    pub closed spec fn version_num(self) -> u64 {
        self.version
    }

    /// Whether edits are refused.
    pub closed spec fn read_only_flag(self) -> bool {
        self.read_only
    }

    /// The buffer's name.
    pub closed spec fn name_chars(self) -> Seq<char> {
        self.name@
    }

    /// The file the buffer was read from, if any.
    pub closed spec fn path_chars(self) -> Option<Seq<char>> {
        match self.file_path {
            Some(p) => Some(p@),
            None => None,
        }
    }

    /// The width of one indentation level.
    pub closed spec fn indent_width_num(self) -> u8 {
        self.indent_width
    }

    /// Whether indentation uses tabs.
    pub closed spec fn use_tabs_flag(self) -> bool {
        self.use_tabs
    }

    /// The history is well formed and the text's UTF-8 bytes fit a `usize`.
    pub closed spec fn wf(self) -> bool {
        &&& self.undo_stack.wf()
        &&& byte_len(rope_text(self.rope)) <= usize::MAX
    }

    /// The text's length, and so its line count, fits a `usize`.
    proof fn lemma_fits(&self)
        requires
            self.wf(),
        ensures
            self@.len() <= usize::MAX,
            nl_count(self@) <= self@.len(),
    {
        crate::strs::lemma_byte_len_ge(self@);
        crate::text::lemma_nl_count_take_le(self@, self@.len() as int);
        assert(self@.take(self@.len() as int) =~= self@);
        crate::text::lemma_nl_count_le_len(self@);
    }

    /// A well formed buffer's text, and its UTF-8 bytes, fit a `usize`.
    pub proof fn lemma_wf_fits(&self)
        requires
            self.wf(),
        ensures
            byte_len(self@) <= usize::MAX,
            self@.len() <= usize::MAX,
    {
        crate::strs::lemma_byte_len_ge(self@);
    }

    /// An empty, unnamed ("untitled") buffer.
    pub fn new() -> (b: Self)
        ensures
            b.wf(),
            b@ == Seq::<char>::empty(),
            !b.modified_flag(),
            b.version_num() == 0,
            !b.read_only_flag(),
            b.path_chars() is None,
            b.history().undo_groups().len() == 0,
            b.history().redo_groups().len() == 0,
            b.history().pending_group() is None,
            b.indent_width_num() == 4,
            !b.use_tabs_flag(),
    {
        let b = Buffer {
            rope: rope_new(),
            read_only: false,
            name: str_to_string("untitled"),
            file_path: None,
            modified: false,
            undo_stack: UndoStack::new(),
            version: 0,
            indent_width: 4,
            use_tabs: false,
        };
        proof {
            assert(vstd::utf8::encode_utf8(Seq::<char>::empty()) =~= Seq::<u8>::empty());
        }
        b
    }

    /// A buffer holding `s`, named `buf_name`, read from `file_path`.
    pub fn from_str(s: &str, buf_name: &str, file_path: &str, read_only: bool) -> (b: Self)
        ensures
            b.wf(),
            b@ == s@,
            b.name_chars() == buf_name@,
            b.path_chars() == Some(file_path@),
            b.read_only_flag() == read_only,
            !b.modified_flag(),
            b.version_num() == 0,
            b.history().undo_groups().len() == 0,
            b.history().redo_groups().len() == 0,
            b.history().pending_group() is None,
            b.indent_width_num() == 4,
            !b.use_tabs_flag(),
    {
        Buffer {
            rope: rope_from_str(s),
            read_only,
            name: str_to_string(buf_name),
            file_path: Some(str_to_string(file_path)),
            modified: false,
            undo_stack: UndoStack::new(),
            version: 0,
            indent_width: 4,
            use_tabs: false,
        }
    }

    /// A read-only buffer holding `content`, named `name`, with no file.
    pub fn new_readonly(content: &str, name: &str) -> (b: Self)
        ensures
            b.wf(),
            b@ == content@,
            b.name_chars() == name@,
            b.path_chars() is None,
            b.read_only_flag(),
            !b.modified_flag(),
            b.version_num() == 0,
            b.history().undo_groups().len() == 0,
            b.history().redo_groups().len() == 0,
            b.history().pending_group() is None,
            b.indent_width_num() == 4,
            !b.use_tabs_flag(),
    {
        Buffer {
            rope: rope_from_str(content),
            read_only: true,
            name: str_to_string(name),
            file_path: None,
            modified: false,
            undo_stack: UndoStack::new(),
            version: 0,
            indent_width: 4,
            use_tabs: false,
        }
    }

    /// The buffer's name.
    pub fn name(&self) -> (r: &str)
        requires
            self.wf(),
        ensures
            r@ == self.name_chars(),
    {
        self.name.as_str()
    }

    /// Renames the buffer.
    pub fn set_name(&mut self, name: &str)
        requires
            old(self).wf(),
        ensures
            final(self).wf(),
            final(self).name_chars() == name@,
            final(self)@ == old(self)@,
            final(self).history() == old(self).history(),
            final(self).modified_flag() == old(self).modified_flag(),
            final(self).version_num() == old(self).version_num(),
            final(self).read_only_flag() == old(self).read_only_flag(),
            final(self).path_chars() == old(self).path_chars(),
            final(self).indent_width_num() == old(self).indent_width_num(),
            final(self).use_tabs_flag() == old(self).use_tabs_flag(),
            old(self).wf() ==> final(self).wf(),
    {
        self.name = str_to_string(name);
    }

    /// The file path, if the buffer has one.
    pub fn file_path(&self) -> (r: Option<&str>)
        requires
            self.wf(),
        ensures
            match r {
                Some(p) => self.path_chars() == Some(p@),
                None => self.path_chars() is None,
            },
    {
        match &self.file_path {
            Some(p) => Some(p.as_str()),
            None => None,
        }
    }

    /// Whether the buffer changed since it was opened or saved.
    pub fn is_modified(&self) -> (r: bool)
        requires
            self.wf(),
        ensures
            r == self.modified_flag(),
    {
        self.modified
    }

    /// Whether edits are refused.
    pub fn is_read_only(&self) -> (r: bool)
        requires
            self.wf(),
        ensures
            r == self.read_only_flag(),
    {
        self.read_only
    }

    /// The width of one indentation level.
    pub fn indent_width(&self) -> (r: u8)
        requires
            self.wf(),
        ensures
            r == self.indent_width_num(),
    {
        self.indent_width
    }

    /// Whether indentation uses tabs.
    pub fn use_tabs(&self) -> (r: bool)
        requires
            self.wf(),
        ensures
            r == self.use_tabs_flag(),
    {
        self.use_tabs
    }

    /// The change counter.
    pub fn version(&self) -> (r: u64)
        requires
            self.wf(),
        ensures
            r == self.version_num(),
    {
        self.version
    }

    /// Number of chars.
    pub fn len_chars(&self) -> (n: usize)
        requires
            self.wf(),
        ensures
            n == self@.len(),
    {
        rope_len_chars(&self.rope)
    }

    /// Number of lines: line feeds plus one.
    pub fn total_lines(&self) -> (n: usize)
        requires
            self.wf(),
        ensures
            n == line_count(self@),
    {
        rope_len_lines(&self.rope)
    }

    /// The char index at which `line` starts.
    pub fn line_to_char(&self, line: usize) -> (p: usize)
        requires
            self.wf(),
            line <= line_count(self@),
        ensures
            p == line_start(self@, line as nat),
    {
        rope_line_to_char(&self.rope, line)
    }

    /// The line of char index `pos`.
    pub fn char_to_line(&self, pos: usize) -> (l: usize)
        requires
            self.wf(),
            pos <= self@.len(),
        ensures
            l == line_of(self@, pos as int),
    {
        rope_char_to_line(&self.rope, pos)
    }

    /// The char at `idx`.
    pub fn char_at(&self, idx: usize) -> (c: char)
        requires
            self.wf(),
            idx < self@.len(),
        ensures
            c == self@[idx as int],
    {
        rope_char(&self.rope, idx)
    }

    /// Line and column of `cursor`.
    pub fn cursor_position(&self, cursor: usize) -> (r: (usize, usize))
        requires
            self.wf(),
            cursor <= self@.len(),
        ensures
            r.0 == line_of(self@, cursor as int),
            r.1 == col_of(self@, cursor as int),
            r.0 <= nl_count(self@),
    {
        let line = rope_char_to_line(&self.rope, cursor);
        proof {
            lemma_line_of_bounds(self@, cursor as int);
        }
        let line_start = rope_line_to_char(&self.rope, line);
        let col = cursor - line_start;
        (line, col)
    }

    /// `cursor`, moved back onto the last char if it lies beyond.
    pub fn clamp_cursor(&self, cursor: usize) -> (r: usize)
        requires
            self.wf(),
        ensures
            r == (if self@.len() == 0 {
                0
            } else if cursor < self@.len() - 1 {
                cursor as int
            } else {
                self@.len() - 1
            }),
    {
        let len = rope_len_chars(&self.rope);
        let last = if len > 0 { len - 1 } else { 0 };
        if cursor < last { cursor } else { last }
    }

    /// The rope holding the text.
    pub fn rope(&self) -> (r: &Rope)
        ensures
            rope_text(*r) == self@,
    {
        &self.rope
    }

    /// The text.
    pub fn text(&self) -> (r: String)
        ensures
            r@ == self@,
    {
        rope_to_string(&self.rope)
    }

    /// Where the buffer is to be saved: its file path, or why it cannot be
    /// saved (read-only, or no file).
    pub fn save_path(&self) -> (r: Result<String, String>)
        requires
            self.wf(),
        ensures
            self.read_only_flag() ==> (r matches Err(e) && e@ == "Cannot save read-only buffer"@),
            !self.read_only_flag() && self.path_chars() is None ==> (r matches Err(e) && e@
                == "Cannot save buffer without a file path"@),
            !self.read_only_flag() && self.path_chars() is Some ==> (r matches Ok(p) && Some(p@) == self.path_chars()),
    {
        if self.read_only {
            return Err(str_to_string("Cannot save read-only buffer"));
        }
        match &self.file_path {
            Some(p) => Ok(str_to_string(p.as_str())),
            None => Err(str_to_string("Cannot save buffer without a file path")),
        }
    }

    /// Records that the text was written to the buffer's file.
    pub fn mark_saved(&mut self)
        requires
            old(self).wf(),
        ensures
            final(self).wf(),
            !final(self).modified_flag(),
            final(self)@ == old(self)@,
            final(self).history() == old(self).history(),
            final(self).version_num() == old(self).version_num(),
            final(self).read_only_flag() == old(self).read_only_flag(),
            final(self).name_chars() == old(self).name_chars(),
            final(self).path_chars() == old(self).path_chars(),
            final(self).indent_width_num() == old(self).indent_width_num(),
            final(self).use_tabs_flag() == old(self).use_tabs_flag(),
    {
        self.modified = false;
    }

    /// Number of chars of `line`, its line break included.
    pub fn line_len_chars(&self, line: usize) -> (n: usize)
        requires
            self.wf(),
            line < line_count(self@),
        ensures
            n == line_start(self@, (line + 1) as nat) - line_start(self@, line as nat),
    {
        rope_line_len_chars(&self.rope, line)
    }

    /// Length of `line` without its trailing line feed or carriage return.
    pub fn line_len_no_newline(&self, line: usize) -> (n: usize)
        requires
            self.wf(),
            line < line_count(self@),
        ensures
            n == line_len_nn(self@, line as nat),
    {
        proof {
            self.lemma_fits();
        }
        proof {
            lemma_line_start_bounds(self@, line as nat);
            lemma_line_start_bounds(self@, (line + 1) as nat);
        }
        let a = rope_line_to_char(&self.rope, line);
        let len = rope_line_len_chars(&self.rope, line);
        let b = a + len;
        if len > 0 {
            let last_char = rope_char(&self.rope, b - 1);
            if last_char == '\n' || last_char == '\r' {
                len - 1
            } else {
                len
            }
        } else {
            0
        }
    }

    /// The char index at `line`, `col`, each clamped into the text.
    pub fn cursor_from_position(&self, line: usize, col: usize) -> (p: usize)
        requires
            self.wf(),
        ensures
            ({
                let l = if line < nl_count(self@) { line as nat } else { nl_count(self@) };
                let c = if col < line_len_nn(self@, l) { col as int } else { line_len_nn(self@, l) };
                p == line_start(self@, l) + c
            }),
            p <= self@.len(),
    {
        proof {
            self.lemma_fits();
        }
        let total = rope_len_lines(&self.rope);
        let last = if total > 0 { total - 1 } else { 0 };
        let line = if line < last { line } else { last };
        let line_len = self.line_len_no_newline(line);
        let col = if col < line_len { col } else { line_len };
        proof {
            lemma_line_len_nn_bounds(self@, line as nat);
        }
        rope_line_to_char(&self.rope, line) + col
    }

    /// One char left, but not past the start of the line.
    pub fn move_left(&self, cursor: usize) -> (r: usize)
        requires
            self.wf(),
            cursor <= self@.len(),
        ensures
            r == left_target(self@, cursor as int),
            r <= cursor,
    {
        if cursor > 0 {
            let (_, col) = self.cursor_position(cursor);
            if col == 0 {
                return cursor;
            }
            cursor - 1
        } else {
            cursor
        }
    }

    /// One char right, but not past the end of the line's text.
    pub fn move_right(&self, cursor: usize) -> (r: usize)
        requires
            self.wf(),
        ensures
            r == right_target(self@, cursor as int),
            cursor <= self@.len() ==> r <= self@.len(),
    {
        proof {
            self.lemma_fits();
        }
        if cursor < rope_len_chars(&self.rope) {
            let (line, col) = self.cursor_position(cursor);
            if col == self.line_len_no_newline(line) {
                return cursor;
            }
            cursor + 1
        } else {
            cursor
        }
    }

    /// One line up, keeping the column where the line is long enough.
    pub fn move_up(&self, cursor: usize) -> (r: usize)
        requires
            self.wf(),
            cursor <= self@.len(),
        ensures
            r == up_target(self@, cursor as int),
            r <= self@.len(),
    {
        proof {
            self.lemma_fits();
        }
        let (line, col) = self.cursor_position(cursor);
        if line > 0 {
            let prev_line = line - 1;
            let prev_line_len = self.line_len_no_newline(prev_line);
            let new_col = if col < prev_line_len { col } else { prev_line_len };
            proof {
                lemma_line_len_nn_bounds(self@, prev_line as nat);
            }
            rope_line_to_char(&self.rope, prev_line) + new_col
        } else {
            cursor
        }
    }

    /// One line down, keeping the column where the line is long enough.
    pub fn move_down(&self, cursor: usize) -> (r: usize)
        requires
            self.wf(),
            cursor <= self@.len(),
        ensures
            r == down_target(self@, cursor as int),
            r <= self@.len(),
    {
        proof {
            self.lemma_fits();
        }
        let (line, col) = self.cursor_position(cursor);
        let total_lines = rope_len_lines(&self.rope);
        if line + 1 < total_lines {
            let next_line = line + 1;
            let next_line_len = self.line_len_no_newline(next_line);
            let new_col = if col < next_line_len { col } else { next_line_len };
            proof {
                lemma_line_len_nn_bounds(self@, next_line as nat);
            }
            rope_line_to_char(&self.rope, next_line) + new_col
        } else {
            cursor
        }
    }

    /// From `pos`, the first index `k` with `k == end` or a char outside class `k`.
    fn skip_forward(&self, pos: usize, end: usize, k: &CharClass) -> (r: usize)
        requires
            self.wf(),
            pos <= end <= self@.len(),
        ensures
            r == skip_fwd(self@, pos as int, end as int, class_pred(*k)),
            pos <= r <= end,
    {
        let mut p = pos;
        loop
            invariant
                pos <= p <= end,
                end <= self@.len(),
                skip_fwd(self@, p as int, end as int, class_pred(*k)) == skip_fwd(
                    self@,
                    pos as int,
                    end as int,
                    class_pred(*k),
                ),
            decreases end - p,
        {
            if p >= end {
                return p;
            }
            if !in_class(rope_char(&self.rope, p), k) {
                return p;
            }
            p = p + 1;
        }
    }

    /// From `pos` downwards, the first index `k` with `k == 0` or a char
    /// before it outside class `k`.
    fn skip_backward(&self, pos: usize, k: &CharClass) -> (r: usize)
        requires
            self.wf(),
            pos <= self@.len(),
        ensures
            r == skip_bwd(self@, pos as int, class_pred(*k)),
            r <= pos,
    {
        let mut p = pos;
        loop
            invariant
                p <= pos <= self@.len(),
                skip_bwd(self@, p as int, class_pred(*k)) == skip_bwd(
                    self@,
                    pos as int,
                    class_pred(*k),
                ),
            decreases p,
        {
            if p == 0 {
                return p;
            }
            if !in_class(rope_char(&self.rope, p - 1), k) {
                return p;
            }
            p = p - 1;
        }
    }

    /// From `pos`, move on while the next char lies in class `k`.
    fn skip_forward_ahead(&self, pos: usize, end: usize, k: &CharClass) -> (r: usize)
        requires
            self.wf(),
            pos <= end <= self@.len(),
        ensures
            r == skip_fwd_ahead(self@, pos as int, end as int, class_pred(*k)),
            pos <= r <= end,
            pos < end ==> r < end,
    {
        let mut p = pos;
        loop
            invariant
                pos <= p <= end,
                pos < end ==> p < end,
                end <= self@.len(),
                skip_fwd_ahead(self@, p as int, end as int, class_pred(*k)) == skip_fwd_ahead(
                    self@,
                    pos as int,
                    end as int,
                    class_pred(*k),
                ),
            decreases end - p,
        {
            if p >= end || p + 1 >= end {
                return p;
            }
            if !in_class(rope_char(&self.rope, p + 1), k) {
                return p;
            }
            p = p + 1;
        }
    }

    /// The start of the next word (`w`).
    pub fn move_word_forward(&self, cursor: usize) -> (r: usize)
        requires
            self.wf(),
        ensures
            r == word_forward(self@, cursor as int),
            cursor <= self@.len() ==> r <= self@.len(),
    {
        let len = rope_len_chars(&self.rope);
        if cursor >= len {
            return cursor;
        }
        let start_char = rope_char(&self.rope, cursor);
        let pos = if word_char(start_char) {
            self.skip_forward(cursor, len, &CharClass::Word)
        } else if char_is_whitespace(start_char) {
            self.skip_forward(cursor, len, &CharClass::Space)
        } else {
            self.skip_forward(cursor, len, &CharClass::Punct)
        };
        self.skip_forward(pos, len, &CharClass::Space)
    }

    /// The start of the previous word (`b`).
    pub fn move_word_backward(&self, cursor: usize) -> (r: usize)
        requires
            self.wf(),
            cursor <= self@.len(),
        ensures
            r == word_backward(self@, cursor as int),
            r <= cursor,
    {
        if cursor == 0 {
            return cursor;
        }
        let pos = self.skip_backward(cursor, &CharClass::Space);
        if pos == 0 {
            return pos;
        }
        let start_char = rope_char(&self.rope, pos - 1);
        if word_char(start_char) {
            self.skip_backward(pos, &CharClass::Word)
        } else {
            self.skip_backward(pos, &CharClass::Punct)
        }
    }

    /// The end of the current or next word (`e`).
    pub fn move_word_end(&self, cursor: usize) -> (r: usize)
        requires
            self.wf(),
        ensures
            r == word_end(self@, cursor as int),
            cursor <= self@.len() ==> r <= self@.len(),
    {
        let len = rope_len_chars(&self.rope);
        if cursor >= len || cursor + 1 >= len {
            return cursor;
        }
        let pos = self.skip_forward(cursor + 1, len, &CharClass::Space);
        self.skip_forward_ahead(pos, len, &CharClass::NonSpace)
    }

    /// The position a find-char motion lands on: the next (or previous) `ch`
    /// on the cursor's line, or next to it with `stop_before`.
    pub fn find_char_on_line(&self, cursor: usize, ch: char, forward: bool, stop_before: bool) -> (r: usize)
        requires
            self.wf(),
            cursor <= self@.len(),
        ensures
            r == find_char_target(self@, cursor as int, ch, forward, stop_before),
            r <= self@.len(),
    {
        proof {
            self.lemma_fits();
            lemma_line_of_bounds(self@, cursor as int);
        }
        let (line, col) = self.cursor_position(cursor);
        let ls = rope_line_to_char(&self.rope, line);
        let line_len = self.line_len_no_newline(line);
        proof {
            lemma_line_len_nn_bounds(self@, line as nat);
        }
        if forward && col < line_len {
            let mut i = col + 1;
            while i < line_len
                invariant
                    col + 1 <= i,
                    self@.len() <= usize::MAX,
                    forward,
                    ls == line_start(self@, line as nat),
                    line_len == line_len_nn(self@, line as nat),
                    ls + line_len <= self@.len(),
                    line == line_of(self@, cursor as int),
                    col == cursor - ls,
                    find_fwd(self@, ls as int, i as int, line_len as int, ch) == find_fwd(
                        self@,
                        ls as int,
                        col + 1,
                        line_len as int,
                        ch,
                    ),
                decreases line_len - i,
            {
                if rope_char(&self.rope, ls + i) == ch {
                    assert(find_fwd(self@, ls as int, i as int, line_len as int, ch) == Some(i as int));
                    return ls + if stop_before { i - 1 } else { i };
                }
                i = i + 1;
            }
        } else if !forward && col > 0 {
            let mut i = col;
            while i > 0
                invariant
                    i <= col,
                    !forward,
                    ls == line_start(self@, line as nat),
                    ls + col <= self@.len(),
                    line == line_of(self@, cursor as int),
                    col == cursor - ls,
                    col > 0,
                    find_bwd(self@, ls as int, i as int, ch) == find_bwd(self@, ls as int, col as int, ch),
                decreases i,
            {
                if rope_char(&self.rope, ls + i - 1) == ch {
                    assert(find_bwd(self@, ls as int, i as int, ch) == Some(i - 1));
                    return ls + if stop_before { i } else { i - 1 };
                }
                i = i - 1;
            }
        }
        cursor
    }

    fn step_motion(&self, pos: usize, motion: &Motion) -> (r: usize)
        requires
            self.wf(),
            pos <= self@.len() || tolerates_any_pos(*motion),
        ensures
            r == motion_step(self@, pos as int, *motion),
            pos <= self@.len() ==> r <= self@.len(),
            pos > self@.len() ==> r == pos || r <= self@.len(),
    {
        proof {
            self.lemma_fits();
        }
        let len = rope_len_chars(&self.rope);
        match motion {
            Motion::Left => {
                let line = rope_char_to_line(&self.rope, pos);
                proof {
                    lemma_line_of_bounds(self@, pos as int);
                }
                let line_start = rope_line_to_char(&self.rope, line);
                if pos > line_start {
                    pos - 1
                } else {
                    pos
                }
            },
            Motion::Right => {
                if pos < len {
                    let line = rope_char_to_line(&self.rope, pos);
                    proof {
                        lemma_line_of_bounds(self@, pos as int);
                    }
                    let line_len = self.line_len_no_newline(line);
                    let line_start = rope_line_to_char(&self.rope, line);
                    let col = pos - line_start;
                    if col < line_len {
                        pos + 1
                    } else {
                        pos
                    }
                } else {
                    pos
                }
            },
            Motion::Up => self.move_up(pos),
            Motion::Down => self.move_down(pos),
            Motion::WordForward => {
                if pos < len {
                    let p = self.skip_forward(pos, len, &CharClass::NonSpace);
                    self.skip_forward(p, len, &CharClass::Space)
                } else {
                    pos
                }
            },
            Motion::WordBackward => {
                if pos > 0 {
                    let p = self.skip_backward(pos, &CharClass::Space);
                    self.skip_backward(p, &CharClass::NonSpace)
                } else {
                    pos
                }
            },
            Motion::WordEnd => {
                if pos < len && pos + 1 < len {
                    let p = self.skip_forward(pos + 1, len, &CharClass::Space);
                    self.skip_forward_ahead(p, len, &CharClass::NonSpace)
                } else {
                    pos
                }
            },
            Motion::LineStart => self.move_to_line_start(pos),
            Motion::LineEnd => self.move_to_line_end(pos),
            Motion::FirstNonWhitespace => self.move_to_first_non_whitespace(pos),
            Motion::FileStart => 0,
            Motion::FileEnd => len,
            Motion::FindChar { ch, forward, stop_before } => self.find_char_on_line(
                pos,
                *ch,
                *forward,
                *stop_before,
            ),
            Motion::HalfPageDown | Motion::HalfPageUp => pos,
        }
    }

    /// Where `count` steps of `motion` take `cursor` (half-page motions
    /// leave it alone here).
    pub fn cursor_after_motion(&self, cursor: usize, motion: &Motion, count: usize) -> (r: usize)
        requires
            self.wf(),
            count == 0 || cursor <= self@.len() || tolerates_any_pos(*motion),
        ensures
            r == motion_iter(self@, cursor as int, *motion, count as nat),
            cursor <= self@.len() ==> r <= self@.len(),
    {
        let mut pos = cursor;
        let mut i: usize = 0;
        while i < count
            invariant
                self.wf(),
                i <= count,
                count == 0 || cursor <= self@.len() || tolerates_any_pos(*motion),
                pos <= self@.len() || (pos == cursor && tolerates_any_pos(*motion)) || count == 0,
                cursor <= self@.len() ==> pos <= self@.len(),
                motion_iter(self@, pos as int, *motion, (count - i) as nat) == motion_iter(
                    self@,
                    cursor as int,
                    *motion,
                    count as nat,
                ),
            decreases count - i,
        {
            pos = self.step_motion(pos, motion);
            i = i + 1;
        }
        pos
    }

    /// The inner-word text object (`iw`) at `cursor`.
    pub fn text_object_inner_word(&self, cursor: usize) -> (r: (usize, usize))
        requires
            self.wf(),
        ensures
            r.0 == inner_word(self@, cursor as int).0,
            r.1 == inner_word(self@, cursor as int).1,
            r.0 <= r.1 <= self@.len(),
    {
        let len = rope_len_chars(&self.rope);
        if len == 0 {
            return (0, 0);
        }
        let pos = if cursor < len - 1 { cursor } else { len - 1 };
        let ch = rope_char(&self.rope, pos);
        let k = if !char_is_whitespace(ch) { CharClass::NonSpace } else { CharClass::Space };
        let start = self.skip_backward(pos, &k);
        let end = self.skip_forward(pos, len, &k);
        (start, end)
    }

    /// The a-word text object (`aw`) at `cursor`.
    pub fn text_object_a_word(&self, cursor: usize) -> (r: (usize, usize))
        requires
            self.wf(),
        ensures
            r.0 == a_word(self@, cursor as int).0,
            r.1 == a_word(self@, cursor as int).1,
            r.0 <= r.1 <= self@.len(),
    {
        let (start, end) = self.text_object_inner_word(cursor);
        let len = rope_len_chars(&self.rope);
        let end = self.skip_forward(end, len, &CharClass::Space);
        if end == self.text_object_inner_word(cursor).1 {
            let new_start = self.skip_backward(start, &CharClass::Space);
            return (new_start, end);
        }
        (start, end)
    }

    fn scan_open_from(&self, pos: usize, open: char, close: char) -> (r: Option<usize>)
        requires
            self.wf(),
            pos < self@.len(),
        ensures
            match r {
                Some(p) => scan_open(self@, pos as int, pos as int, open, close, 0) == Some(p as int)
                    && p <= pos,
                None => scan_open(self@, pos as int, pos as int, open, close, 0) is None,
            },
    {
        proof {
            self.lemma_wf_fits();
        }
        let mut depth: usize = 0;
        let mut i = pos;
        loop
            invariant
                i <= pos < self@.len(),
                self@.len() <= usize::MAX,
                depth <= pos - i,
                scan_open(self@, i as int, pos as int, open, close, depth as int) == scan_open(
                    self@,
                    pos as int,
                    pos as int,
                    open,
                    close,
                    0,
                ),
            decreases i,
        {
            let ch = rope_char(&self.rope, i);
            if ch == close && i != pos {
                depth = depth + 1;
            } else if ch == open {
                if depth == 0 {
                    return Some(i);
                }
                depth = depth - 1;
            }
            if i == 0 {
                return None;
            }
            i = i - 1;
        }
    }

    fn scan_close_from(&self, start: usize, open: char, close: char) -> (r: Option<usize>)
        requires
            self.wf(),
            start <= self@.len(),
        ensures
            match r {
                Some(p) => scan_close(self@, start as int, open, close, 0) == Some(p as int) && p
                    < self@.len(),
                None => scan_close(self@, start as int, open, close, 0) is None,
            },
    {
        let len = rope_len_chars(&self.rope);
        let mut depth: usize = 0;
        let mut j = start;
        loop
            invariant
                start <= j <= len,
                len == self@.len(),
                depth <= j - start,
                scan_close(self@, j as int, open, close, depth as int) == scan_close(
                    self@,
                    start as int,
                    open,
                    close,
                    0,
                ),
            decreases len - j,
        {
            if j >= len {
                return None;
            }
            let ch = rope_char(&self.rope, j);
            if ch == open {
                depth = depth + 1;
            } else if ch == close {
                if depth == 0 {
                    return Some(j);
                }
                depth = depth - 1;
            }
            j = j + 1;
        }
    }

    /// The delimited text object at `cursor`: inside the enclosing
    /// `open`..`close` pair, or including it when `around`.
    pub fn text_object_delimited(&self, cursor: usize, open: char, close: char, around: bool) -> (r: (usize, usize))
        requires
            self.wf(),
        ensures
            r.0 == delimited(self@, cursor as int, open, close, around).0,
            r.1 == delimited(self@, cursor as int, open, close, around).1,
            r.0 <= self@.len(),
            r.1 <= self@.len(),
    {
        let len = rope_len_chars(&self.rope);
        if len == 0 {
            return (0, 0);
        }
        let pos = if cursor < len - 1 { cursor } else { len - 1 };
        let open_pos = match self.scan_open_from(pos, open, close) {
            Some(p) => p,
            None => return (pos, pos),
        };
        let close_pos = match self.scan_close_from(open_pos + 1, open, close) {
            Some(p) => p,
            None => return (pos, pos),
        };
        if around {
            (open_pos, close_pos + 1)
        } else {
            (open_pos + 1, close_pos)
        }
    }

    /// The quoted text object at `cursor`: quotes on the line pair up from
    /// the left; inside the pair around the cursor, or including it when
    /// `around`.
    pub fn text_object_quoted(&self, cursor: usize, quote: char, around: bool) -> (r: (usize, usize))
        requires
            self.wf(),
        ensures
            r.0 == quoted(self@, cursor as int, quote, around).0,
            r.1 == quoted(self@, cursor as int, quote, around).1,
            r.0 <= self@.len(),
            r.1 <= self@.len(),
    {
        proof {
            self.lemma_fits();
        }
        let len = rope_len_chars(&self.rope);
        if len == 0 {
            return (0, 0);
        }
        let pos = if cursor < len - 1 { cursor } else { len - 1 };
        let line = rope_char_to_line(&self.rope, pos);
        proof {
            lemma_line_of_bounds(self@, pos as int);
            lemma_line_start_bounds(self@, line as nat);
            lemma_line_start_bounds(self@, (line + 1) as nat);
        }
        let ls = rope_line_to_char(&self.rope, line);
        let line_len = rope_line_len_chars(&self.rope, line);
        let mut quotes: Vec<usize> = Vec::new();
        let mut i: usize = 0;
        while i < line_len
            invariant
                i <= line_len,
                ls + line_len <= self@.len(),
                quotes@.len() == quotes_upto(self@, ls as int, i as int, quote).len(),
                forall|k: int|
                    0 <= k < quotes@.len() ==> quotes@[k] == quotes_upto(
                        self@,
                        ls as int,
                        i as int,
                        quote,
                    )[k],
                forall|k: int| 0 <= k < quotes@.len() ==> quotes@[k] < len,
                len == self@.len(),
            decreases line_len - i,
        {
            if rope_char(&self.rope, ls + i) == quote {
                quotes.push(ls + i);
            }
            i = i + 1;
        }
        let ghost qs = quotes_upto(self@, ls as int, line_len as int, quote);
        assert(pick_pair(qs, 0, pos as int, around) == quoted(self@, cursor as int, quote, around));
        let mut pair_idx: usize = 0;
        while pair_idx < quotes.len() && pair_idx + 1 < quotes.len()
            invariant
                pick_pair(qs, 0, pos as int, around) == quoted(self@, cursor as int, quote, around),
                quotes@.len() == qs.len(),
                forall|k: int| 0 <= k < quotes@.len() ==> quotes@[k] == qs[k],
                forall|k: int| 0 <= k < quotes@.len() ==> quotes@[k] < len,
                len == self@.len(),
                pair_idx <= quotes@.len(),
                pick_pair(qs, pair_idx as int, pos as int, around) == pick_pair(qs, 0, pos as int, around),
            decreases quotes@.len() + 1 - pair_idx,
        {
            let q_start = quotes[pair_idx];
            let q_end = quotes[pair_idx + 1];
            if pos >= q_start && pos <= q_end {
                return if around {
                    (q_start, q_end + 1)
                } else {
                    (q_start + 1, q_end)
                };
            }
            pair_idx = pair_idx + 2;
        }
        (pos, pos)
    }

    /// The longest line length, line breaks not counted.
    pub fn max_line_len(&self) -> (n: usize)
        requires
            self.wf(),
        ensures
            n == max_len_upto(self@, line_count(self@)),
    {
        proof {
            self.lemma_fits();
        }
        let total = rope_len_lines(&self.rope);
        let mut best: usize = 0;
        let mut line: usize = 0;
        while line < total
            invariant
                self.wf(),
                line <= total,
                total == line_count(self@),
                best == max_len_upto(self@, line as nat),
            decreases total - line,
        {
            let x = self.line_len_no_newline(line);
            if x > best {
                best = x;
            }
            line = line + 1;
        }
        best
    }

    /// Whether `q` occurs in `b` at index `i`.
    fn chars_match_at(b: &Vec<char>, q: &Vec<char>, i: usize) -> (r: bool)
        requires
            i + q@.len() <= b@.len(),
        ensures
            r == (b@.subrange(i as int, i + q@.len()) == q@),
    {
        let blen = b.len();
        let mut k: usize = 0;
        while k < q.len()
            invariant
                blen == b@.len(),
                k <= q@.len(),
                i + q@.len() <= b@.len(),
                forall|m: int| 0 <= m < k ==> b@[i + m] == q@[m],
            decreases q@.len() - k,
        {
            if b[i + k] != q[k] {
                assert(b@.subrange(i as int, i + q@.len())[k as int] != q@[k as int]);
                return false;
            }
            k = k + 1;
        }
        assert(b@.subrange(i as int, i + q@.len()) =~= q@);
        true
    }

    /// The char indexes of every occurrence of `query`, overlapping ones
    /// included, in order; none for an empty query.
    pub fn find_all(&self, query: &str) -> (r: Vec<usize>)
        requires
            self.wf(),
        ensures
            query@.len() == 0 ==> r@.len() == 0,
            query@.len() > 0 ==> {
                let occ = occurrences(self@, query@, 0);
                &&& r@.len() == occ.len()
                &&& forall|k: int| 0 <= k < r@.len() ==> r@[k] == occ[k]
            },
    {
        let mut matches: Vec<usize> = Vec::new();
        if query.unicode_len() == 0 {
            return matches;
        }
        let text = rope_to_string(&self.rope);
        let tv = crate::strs::chars_of(text.as_str());
        let qv = crate::strs::chars_of(query);
        let ghost occ = occurrences(self@, query@, 0);
        let mut i: usize = 0;
        while i <= tv.len() && qv.len() <= tv.len() - i
            invariant
                tv@ == self@,
                qv@ == query@,
                qv@.len() >= 1,
                i <= tv@.len() + 1,
                matches@.len() + occurrences(tv@, qv@, i as int).len() == occ.len(),
                forall|k: int| 0 <= k < matches@.len() ==> matches@[k] == occ[k],
                forall|k: int|
                    0 <= k < occurrences(tv@, qv@, i as int).len() ==> #[trigger] occurrences(
                        tv@,
                        qv@,
                        i as int,
                    )[k] == occ[matches@.len() + k],
            decreases tv@.len() + 1 - i,
        {
            let ghost before = occurrences(tv@, qv@, i as int);
            if Self::chars_match_at(&tv, &qv, i) {
                proof {
                    assert(before == seq![i as int] + occurrences(tv@, qv@, i + 1));
                    assert(before[0] == i);
                }
                matches.push(i);
                proof {
                    let ghost rest = occurrences(tv@, qv@, i + 1);
                    assert forall|k: int|
                        0 <= k < rest.len() implies #[trigger] rest[k] == occ[matches@.len() + k] by {
                        assert(occurrences(tv@, qv@, i + 1)[k] == before[k + 1]);
                    }
                }
            }
            i = i + 1;
        }
        proof {
            assert(occurrences(tv@, qv@, i as int).len() == 0);
        }
        matches
    }

    /// Everything but the text, the history, the modified flag and the
    /// change counter is as before.
    pub open spec fn same_settings(self, other: Buffer) -> bool {
        &&& self.name_chars() == other.name_chars()
        &&& self.path_chars() == other.path_chars()
        &&& self.read_only_flag() == other.read_only_flag()
        &&& self.indent_width_num() == other.indent_width_num()
        &&& self.use_tabs_flag() == other.use_tabs_flag()
    }

    /// Nothing observable changed.
    pub open spec fn unchanged(self, other: Buffer) -> bool {
        &&& self@ == other@
        &&& self.history().undo_groups() == other.history().undo_groups()
        &&& self.history().redo_groups() == other.history().redo_groups()
        &&& self.history().pending_group() == other.history().pending_group()
        &&& self.modified_flag() == other.modified_flag()
        &&& self.version_num() == other.version_num()
        &&& self.same_settings(other)
    }

    /// The buffer is marked modified and its change counter moved on.
    pub open spec fn touched(self, before: Buffer) -> bool {
        &&& self.modified_flag()
        &&& self.version_num() == next_version(before.version_num())
        &&& self.same_settings(before)
    }

    fn mark_changed(&mut self)
        requires
            old(self).wf(),
        ensures
            final(self).wf(),
            final(self)@ == old(self)@,
            final(self).history() == old(self).history(),
            final(self).touched(*old(self)),
    {
        self.modified = true;
        self.version = self.version.wrapping_add(1);
    }

    /// Inserts `ch` at `cursor`; returns the position after it.
    pub fn insert_char(&mut self, cursor: usize, ch: char) -> (r: usize)
        requires
            old(self).wf(),
            cursor <= old(self)@.len(),
            byte_len(old(self)@) + byte_len(seq![ch]) <= usize::MAX,
        ensures
            final(self).wf(),
            final(self)@ == old(self)@.take(cursor as int) + seq![ch] + old(self)@.skip(cursor as int),
            r == cursor + 1,
            recorded_char(old(self).history(), final(self).history(), cursor as int, ch),
            final(self).touched(*old(self)),
    {
        proof {
            self.lemma_fits();
            crate::strs::lemma_byte_len_ge(self@);
            lemma_byte_len_subrange(self@, 0, cursor as int);
            assert(self@.subrange(0, cursor as int) =~= self@.take(cursor as int));
            crate::strs::lemma_byte_len_ge(self@.take(cursor as int));
        }
        proof {
            lemma_byte_len_splice(self@, cursor as int, cursor as int, seq![ch]);
        }
        self.mark_changed();
        rope_insert_char(&mut self.rope, cursor, ch);
        self.undo_stack.record_insert(cursor, ch);
        cursor + 1
    }

    /// Inserts `s` at `cursor`; returns the position after it.
    pub fn insert_str(&mut self, cursor: usize, s: &str) -> (r: usize)
        requires
            old(self).wf(),
            cursor <= old(self)@.len(),
            byte_len(old(self)@) + byte_len(s@) <= usize::MAX,
        ensures
            final(self).wf(),
            final(self)@ == old(self)@.take(cursor as int) + s@ + old(self)@.skip(cursor as int),
            r == cursor + s@.len(),
            recorded_edit(old(self).history(), final(self).history(), true, cursor as int, s@),
            final(self).touched(*old(self)),
    {
        proof {
            lemma_byte_len_splice(self@, cursor as int, cursor as int, s@);
            crate::strs::lemma_byte_len_ge(s@);
        }
        self.mark_changed();
        rope_insert(&mut self.rope, cursor, s);
        self.undo_stack.record_insert_str(cursor, s);
        proof {
            crate::strs::lemma_byte_len_ge(self@);
        }
        cursor + crate::strs::str_char_count(s)
    }

    /// Deletes the cursor's line with its line break; returns the start of
    /// the line. An empty last line is left alone.
    pub fn delete_line(&mut self, cursor: usize) -> (r: usize)
        requires
            old(self).wf(),
            cursor <= old(self)@.len(),
        ensures
            final(self).wf(),
            ({
                let t = old(self)@;
                let l = line_of(t, cursor as int);
                let a = line_start(t, l);
                let b = line_start(t, l + 1);
                if a == b {
                    &&& final(self).unchanged(*old(self))
                    &&& r == cursor
                } else {
                    &&& final(self)@ == t.take(a) + t.skip(b)
                    &&& r == a
                    &&& pushed_edit(old(self).history(), final(self).history(), false, a, t.subrange(a, b), cursor as int)
                    &&& final(self).touched(*old(self))
                }
            }),
    {
        proof {
            self.lemma_fits();
            lemma_line_of_bounds(self@, cursor as int);
        }
        let (line, _) = self.cursor_position(cursor);
        proof {
            lemma_line_start_bounds(self@, line as nat);
            lemma_line_start_bounds(self@, (line + 1) as nat);
            lemma_line_start_bounds(self@, line_count(self@));
        }
        let line_start = rope_line_to_char(&self.rope, line);
        let total = rope_len_lines(&self.rope);
        let line_end = if line + 1 < total {
            rope_line_to_char(&self.rope, line + 1)
        } else {
            rope_len_chars(&self.rope)
        };
        if line_start == line_end {
            return cursor;
        }
        let deleted = rope_slice_string(&self.rope, line_start, line_end);
        proof {
            lemma_byte_len_subrange(self@, line_start as int, line_end as int);
            lemma_byte_len_splice(self@, line_start as int, line_end as int, Seq::empty());
            assert(self@.take(line_start as int) + Seq::<char>::empty() =~= self@.take(line_start as int));
        }
        rope_remove(&mut self.rope, line_start, line_end);
        self.mark_changed();
        let len = rope_len_chars(&self.rope);
        let new_cursor = if line_start < len { line_start } else { len };
        self.undo_stack.push_edit(EditKind::Delete { pos: line_start, text: deleted }, cursor);
        new_cursor
    }

    /// Deletes the char before `cursor` (recorded into the pending group, if
    /// any); returns the new cursor.
    pub fn delete_char_backward(&mut self, cursor: usize) -> (r: usize)
        requires
            old(self).wf(),
            cursor <= old(self)@.len(),
        ensures
            final(self).wf(),
            cursor == 0 ==> final(self).unchanged(*old(self)) && r == cursor,
            cursor > 0 ==> {
                let t = old(self)@;
                &&& final(self)@ == t.take(cursor - 1) + t.skip(cursor as int)
                &&& r == cursor - 1
                &&& recorded_edit(old(self).history(), final(self).history(), false, cursor - 1, t.subrange(cursor - 1, cursor as int))
                &&& final(self).touched(*old(self))
            },
    {
        if cursor > 0 {
            self.mark_changed();
            let new_cursor = cursor - 1;
            let ch = rope_slice_string(&self.rope, new_cursor, new_cursor + 1);
            proof {
                lemma_byte_len_subrange(self@, new_cursor as int, cursor as int);
                lemma_byte_len_splice(self@, new_cursor as int, cursor as int, Seq::empty());
                assert(self@.take(new_cursor as int) + Seq::<char>::empty() =~= self@.take(new_cursor as int));
            }
            rope_remove(&mut self.rope, new_cursor, new_cursor + 1);
            self.undo_stack.record_delete(new_cursor, ch.as_str());
            new_cursor
        } else {
            cursor
        }
    }

    /// Deletes the char at `cursor`; outside insert mode that is an undo
    /// step of its own. Returns `cursor`.
    pub fn delete_char_forward(&mut self, cursor: usize) -> (r: usize)
        requires
            old(self).wf(),
        ensures
            final(self).wf(),
            r == cursor,
            cursor >= old(self)@.len() ==> final(self).unchanged(*old(self)),
            cursor < old(self)@.len() ==> {
                let t = old(self)@;
                let d = t.subrange(cursor as int, cursor + 1);
                &&& final(self)@ == t.take(cursor as int) + t.skip(cursor + 1)
                &&& old(self).history().pending_group() is None ==> pushed_edit(old(self).history(), final(self).history(), false, cursor as int, d, cursor as int)
                &&& old(self).history().pending_group() is Some ==> recorded_edit(old(self).history(), final(self).history(), false, cursor as int, d)
                &&& final(self).touched(*old(self))
            },
    {
        if cursor < rope_len_chars(&self.rope) {
            self.mark_changed();
            let ch = rope_slice_string(&self.rope, cursor, cursor + 1);
            proof {
                lemma_byte_len_subrange(self@, cursor as int, cursor + 1);
                lemma_byte_len_splice(self@, cursor as int, cursor + 1, Seq::empty());
                assert(self@.take(cursor as int) + Seq::<char>::empty() =~= self@.take(cursor as int));
            }
            rope_remove(&mut self.rope, cursor, cursor + 1);
            if !self.undo_stack.has_pending() {
                self.undo_stack.push_edit(EditKind::Delete { pos: cursor, text: ch }, cursor);
            } else {
                self.undo_stack.record_delete(cursor, ch.as_str());
            }
        }
        cursor
    }

    /// Deletes `start..end` (clipped to the text); returns the new cursor
    /// (at `start`, or on the last char) and the deleted text. In insert mode
    /// the delete joins the pending group, otherwise it is an undo step of
    /// its own. An empty or out-of-text range changes nothing.
    pub fn delete_range(&mut self, cursor: usize, start: usize, end: usize) -> (r: (usize, String))
        requires
            old(self).wf(),
        ensures
            final(self).wf(),
            start >= end || start >= old(self)@.len() ==> {
                &&& final(self).unchanged(*old(self))
                &&& r.0 == cursor
                &&& r.1@ == Seq::<char>::empty()
            },
            !(start >= end || start >= old(self)@.len()) ==> {
                let t = old(self)@;
                let e = if end < t.len() { end as int } else { t.len() as int };
                let d = t.subrange(start as int, e);
                let n = final(self)@.len();
                &&& final(self)@ == t.take(start as int) + t.skip(e)
                &&& r.1@ == d
                &&& r.0 == (if n == 0 { 0 } else if start < n - 1 { start as int } else { n - 1 })
                &&& old(self).history().pending_group() is Some ==> recorded_edit(old(self).history(), final(self).history(), false, start as int, d)
                &&& old(self).history().pending_group() is None ==> pushed_edit(old(self).history(), final(self).history(), false, start as int, d, cursor as int)
                &&& final(self).touched(*old(self))
            },
    {
        let len = rope_len_chars(&self.rope);
        if start >= end || start >= len {
            return (cursor, String::new());
        }
        let end = if end < len { end } else { len };
        let deleted = rope_slice_string(&self.rope, start, end);
        proof {
            lemma_byte_len_subrange(self@, start as int, end as int);
            lemma_byte_len_splice(self@, start as int, end as int, Seq::empty());
            assert(self@.take(start as int) + Seq::<char>::empty() =~= self@.take(start as int));
        }
        rope_remove(&mut self.rope, start, end);
        self.mark_changed();
        let n = rope_len_chars(&self.rope);
        let last = if n > 0 { n - 1 } else { 0 };
        let new_cursor = if start < last { start } else { last };
        if self.undo_stack.has_pending() {
            self.undo_stack.record_delete(start, deleted.as_str());
        } else {
            self.undo_stack.push_edit(EditKind::Delete { pos: start, text: deleted.clone() }, cursor);
        }
        (new_cursor, deleted)
    }

    /// Deletes from `cursor` to the end of its line's text (`D`); returns
    /// the new cursor.
    pub fn delete_till_eol(&mut self, cursor: usize) -> (r: usize)
        requires
            old(self).wf(),
            cursor <= old(self)@.len(),
        ensures
            final(self).wf(),
            ({
                let t = old(self)@;
                let l = line_of(t, cursor as int);
                let e = line_start(t, l) + line_len_nn(t, l);
                let n = final(self)@.len();
                &&& cursor >= e ==> final(self).unchanged(*old(self)) && r == cursor
                &&& cursor < e ==> {
                    &&& final(self)@ == t.take(cursor as int) + t.skip(e)
                    &&& r == (if n == 0 { 0 } else if cursor < n - 1 { cursor as int } else { n - 1 })
                    &&& old(self).history().pending_group() is Some ==> recorded_edit(old(self).history(), final(self).history(), false, cursor as int, t.subrange(cursor as int, e))
                    &&& old(self).history().pending_group() is None ==> pushed_edit(old(self).history(), final(self).history(), false, cursor as int, t.subrange(cursor as int, e), cursor as int)
                    &&& final(self).touched(*old(self))
                }
            }),
    {
        let end = self.move_to_line_end(cursor);
        if cursor >= end {
            return cursor;
        }
        let (new_cursor, _) = self.delete_range(cursor, cursor, end);
        new_cursor
    }

    /// The text of `start..end` (clipped to the text); empty if that is empty.
    pub fn yank_range(&self, start: usize, end: usize) -> (r: String)
        requires
            self.wf(),
        ensures
            ({
                let t = self@;
                let e = if end < t.len() { end as int } else { t.len() as int };
                r@ == (if start >= e { Seq::<char>::empty() } else { t.subrange(start as int, e) })
            }),
    {
        let len = rope_len_chars(&self.rope);
        let end = if end < len { end } else { len };
        if start >= end {
            return String::new();
        }
        rope_slice_string(&self.rope, start, end)
    }

    /// Pastes `text` after the cursor (`p`): text ending in a line feed goes
    /// in below the cursor's line, other text after the cursor's char (or at
    /// a line feed under the cursor). Returns the new cursor: the start of a
    /// pasted line, or the last pasted char.
    pub fn paste_after(&mut self, cursor: usize, text: &str) -> (r: usize)
        requires
            old(self).wf(),
            text@.len() > 0 && text@.last() == '\n' ==> cursor <= old(self)@.len(),
            text@.len() > 0 ==> cursor < usize::MAX,
            byte_len(old(self)@) + byte_len(text@) <= usize::MAX,
        ensures
            final(self).wf(),
            text@.len() == 0 ==> final(self).unchanged(*old(self)) && r == cursor,
            text@.len() > 0 ==> {
                let t = old(self)@;
                let linewise = text@.last() == '\n';
                let pos = paste_after_pos(t, cursor as int, linewise);
                &&& final(self)@ == t.take(pos) + text@ + t.skip(pos)
                &&& r == (if linewise { pos } else { pos + text@.len() - 1 })
                &&& pushed_edit(old(self).history(), final(self).history(), true, pos, text@, cursor as int)
                &&& final(self).touched(*old(self))
            },
    {
        proof {
            self.lemma_fits();
        }
        if text.is_empty() {
            return cursor;
        }
        let linewise = str_ends_with_char(text, '\n');
        let pos = if linewise {
            let line = rope_char_to_line(&self.rope, cursor);
            proof {
                lemma_line_of_bounds(self@, cursor as int);
                lemma_line_start_bounds(self@, (line + 1) as nat);
            }
            let total = rope_len_lines(&self.rope);
            if line + 1 < total {
                rope_line_to_char(&self.rope, line + 1)
            } else {
                rope_len_chars(&self.rope)
            }
        } else {
            let len = rope_len_chars(&self.rope);
            if cursor < len && rope_char(&self.rope, cursor) == '\n' {
                cursor
            } else {
                let c1 = cursor + 1;
                if c1 < len { c1 } else { len }
            }
        };
        proof {
            lemma_byte_len_splice(self@, pos as int, pos as int, text@);
            crate::strs::lemma_byte_len_ge(self@.take(pos as int) + text@ + self@.skip(pos as int));
        }
        rope_insert(&mut self.rope, pos, text);
        let n = str_char_count(text);
        let new_cursor = if linewise { pos } else { pos + n - 1 };
        self.mark_changed();
        self.undo_stack.push_edit(EditKind::Insert { pos, text: str_to_string(text) }, cursor);
        new_cursor
    }

    /// Pastes `text` before the cursor (`P`): text ending in a line feed goes
    /// in above the cursor's line, other text at the cursor. Returns the new
    /// cursor: the start of a pasted line, or the last pasted char.
    pub fn paste_before(&mut self, cursor: usize, text: &str) -> (r: usize)
        requires
            old(self).wf(),
            cursor <= old(self)@.len(),
            byte_len(old(self)@) + byte_len(text@) <= usize::MAX,
        ensures
            final(self).wf(),
            text@.len() == 0 ==> final(self).unchanged(*old(self)) && r == cursor,
            text@.len() > 0 ==> {
                let t = old(self)@;
                let linewise = text@.last() == '\n';
                let pos = if linewise { line_start(t, line_of(t, cursor as int)) } else { cursor as int };
                &&& final(self)@ == t.take(pos) + text@ + t.skip(pos)
                &&& r == (if linewise { pos } else { pos + text@.len() - 1 })
                &&& pushed_edit(old(self).history(), final(self).history(), true, pos, text@, cursor as int)
                &&& final(self).touched(*old(self))
            },
    {
        proof {
            self.lemma_fits();
        }
        if text.is_empty() {
            return cursor;
        }
        let linewise = str_ends_with_char(text, '\n');
        let pos = if linewise {
            let line = rope_char_to_line(&self.rope, cursor);
            proof {
                lemma_line_of_bounds(self@, cursor as int);
            }
            rope_line_to_char(&self.rope, line)
        } else {
            cursor
        };
        proof {
            lemma_byte_len_splice(self@, pos as int, pos as int, text@);
            crate::strs::lemma_byte_len_ge(self@.take(pos as int) + text@ + self@.skip(pos as int));
        }
        rope_insert(&mut self.rope, pos, text);
        let n = str_char_count(text);
        let new_cursor = if linewise { pos } else { pos + n - 1 };
        self.mark_changed();
        self.undo_stack.push_edit(EditKind::Insert { pos, text: str_to_string(text) }, cursor);
        new_cursor
    }

    /// Replaces the char at `cursor` by `ch` (`r`), as one undo step; returns
    /// `cursor`. Beyond the text nothing changes.
    pub fn replace_char(&mut self, cursor: usize, ch: char) -> (r: usize)
        requires
            old(self).wf(),
            cursor < old(self)@.len() ==> byte_len(
                old(self)@.take(cursor as int) + seq![ch] + old(self)@.skip(cursor + 1),
            ) <= usize::MAX,
        ensures
            final(self).wf(),
            r == cursor,
            cursor >= old(self)@.len() ==> final(self).unchanged(*old(self)),
            cursor < old(self)@.len() ==> {
                let t = old(self)@;
                let h = final(self).history();
                let g = h.undo_groups().last();
                &&& final(self)@ == t.take(cursor as int) + seq![ch] + t.skip(cursor + 1)
                &&& h.undo_groups().len() == old(self).history().undo_groups().len() + 1
                &&& h.undo_groups().drop_last() == old(self).history().undo_groups()
                &&& g.cursor_before == cursor
                &&& g.edits@.len() == 2
                &&& crate::undo::edit_is(g.edits@[0], false, cursor as int, seq![t[cursor as int]])
                &&& crate::undo::edit_is(g.edits@[1], true, cursor as int, seq![ch])
                &&& h.redo_groups().len() == 0
                &&& h.pending_group() == old(self).history().pending_group()
                &&& final(self).touched(*old(self))
            },
    {
        let len = rope_len_chars(&self.rope);
        if cursor >= len {
            return cursor;
        }
        let old_text = rope_slice_string(&self.rope, cursor, cursor + 1);
        let ghost t = self@;
        proof {
            assert(t.subrange(cursor as int, cursor + 1) =~= seq![t[cursor as int]]);
            lemma_byte_len_subrange(t, cursor as int, cursor + 1);
            lemma_byte_len_splice(t, cursor as int, cursor + 1, Seq::empty());
            lemma_byte_len_splice(t, cursor as int, cursor + 1, seq![ch]);
            assert(t.take(cursor as int) + Seq::<char>::empty() =~= t.take(cursor as int));
        }
        rope_remove(&mut self.rope, cursor, cursor + 1);
        proof {
            let u = self@;
            assert(u.take(cursor as int) + seq![ch] + u.skip(cursor as int) =~= t.take(cursor as int) + seq![ch] + t.skip(cursor + 1));
            lemma_byte_len_splice(u, cursor as int, cursor as int, seq![ch]);
        }
        rope_insert_char(&mut self.rope, cursor, ch);
        self.mark_changed();
        let edits = vec![
            EditKind::Delete { pos: cursor, text: old_text },
            EditKind::Insert { pos: cursor, text: char_to_string(ch) },
        ];
        proof {
            assert(crate::undo::edits_fit(edits@));
        }
        self.undo_stack.push_edits(edits, cursor);
        cursor
    }

    /// Starts collecting an insert-mode session as one undo step.
    pub fn start_edit_group(&mut self, cursor: usize)
        requires
            old(self).wf(),
        ensures
            final(self).wf(),
            final(self)@ == old(self)@,
            final(self).history().undo_groups() == old(self).history().undo_groups(),
            final(self).history().redo_groups() == old(self).history().redo_groups(),
            final(self).history().pending_group() is Some,
            final(self).history().pending_group()->0.edits@.len() == 0,
            final(self).history().pending_group()->0.cursor_before == cursor,
            final(self).modified_flag() == old(self).modified_flag(),
            final(self).version_num() == old(self).version_num(),
            final(self).same_settings(*old(self)),
    {
        self.undo_stack.start_group(cursor);
    }

    /// Ends the insert-mode session: a non-empty group becomes an undo step
    /// and clears redo.
    pub fn finish_edit_group(&mut self)
        requires
            old(self).wf(),
        ensures
            final(self).wf(),
            final(self)@ == old(self)@,
            final(self).history().pending_group() is None,
            ({
                let o = old(self).history();
                let h = final(self).history();
                if o.pending_group() is Some && o.pending_group()->0.edits@.len() > 0 {
                    h.undo_groups() == o.undo_groups().push(o.pending_group()->0) && h.redo_groups().len() == 0
                } else {
                    h.undo_groups() == o.undo_groups() && h.redo_groups() == o.redo_groups()
                }
            }),
            final(self).modified_flag() == old(self).modified_flag(),
            final(self).version_num() == old(self).version_num(),
            final(self).same_settings(*old(self)),
    {
        self.undo_stack.finish_group();
    }

    /// Undoes the last undo step: its edits are reverted, last first, and
    /// it moves to the redo stack. Returns the cursor from before the step,
    /// or `None` with nothing to undo. The step must fit the text
    /// (`undo_ready` tells); it does whenever its edits describe how the
    /// text came about (`law_buffer_undo_redo`).
    pub fn undo(&mut self) -> (r: Option<usize>)
        requires
            old(self).wf(),
            old(self).history().undo_groups().len() > 0 ==> revert_all_ok(
                old(self)@,
                old(self).history().undo_groups().last().edits@,
            ),
        ensures
            final(self).wf(),
            old(self).history().undo_groups().len() == 0 ==> r is None && final(self).unchanged(*old(self)),
            old(self).history().undo_groups().len() > 0 ==> {
                let o = old(self).history();
                let g = o.undo_groups().last();
                let h = final(self).history();
                &&& r == Some(g.cursor_before)
                &&& final(self)@ == revert_all(old(self)@, g.edits@)
                &&& h.undo_groups() == o.undo_groups().drop_last()
                &&& h.redo_groups() == o.redo_groups().push(g)
                &&& h.pending_group() == o.pending_group()
                &&& final(self).touched(*old(self))
            },
    {
        let ghost t0 = self@;
        if let Some(group) = self.undo_stack.pop_undo() {
            let ghost edits = group.edits@;
            let ghost hist = self.history();
            let mut k = group.edits.len();
            proof {
                assert(edits.take(k as int) =~= edits);
            }
            while k > 0
                invariant
                    k <= edits.len(),
                    edits == group.edits@,
                    self.wf(),
                    self.history() == hist,
                    revert_all(self@, edits.take(k as int)) == revert_all(t0, edits),
                    revert_all_ok(self@, edits.take(k as int)),
                    crate::undo::edits_fit(edits),
                    self.modified_flag() == old(self).modified_flag(),
                    self.version_num() == old(self).version_num(),
                    self.same_settings(*old(self)),
                decreases k,
            {
                let ghost cur = self@;
                proof {
                    assert(edits.take(k as int).last() == edits[k - 1]);
                    assert(edits.take(k as int).drop_last() =~= edits.take(k - 1));
                    assert(edits[k - 1].fits());
                }
                match &group.edits[k - 1] {
                    EditKind::Insert { pos, text } => {
                        proof {
                            crate::strs::lemma_byte_len_ge(text@);
                            lemma_byte_len_splice(cur, *pos as int, *pos + text@.len(), Seq::empty());
                            assert(cur.take(*pos as int) + Seq::<char>::empty() =~= cur.take(*pos as int));
                        }
                        rope_remove(&mut self.rope, *pos, *pos + text.as_str().unicode_len());
                    },
                    EditKind::Delete { pos, text } => {
                        proof {
                            lemma_byte_len_splice(cur, *pos as int, *pos as int, text@);
                        }
                        rope_insert(&mut self.rope, *pos, text.as_str());
                    },
                }
                k = k - 1;
            }
            proof {
                assert(edits.take(0) =~= Seq::<EditKind>::empty());
            }
            let cursor = group.cursor_before;
            self.mark_changed();
            self.undo_stack.push_redo(group);
            Some(cursor)
        } else {
            None
        }
    }

    /// Redoes the last undone step: its edits are applied again, first
    /// first, and it moves back to the undo stack. Returns the cursor after
    /// its last edit, or `None` with nothing to redo. The step must fit the
    /// text (`redo_ready` tells).
    pub fn redo(&mut self) -> (r: Option<usize>)
        requires
            old(self).wf(),
            old(self).history().redo_groups().len() > 0 ==> apply_all_ok(
                old(self)@,
                old(self).history().redo_groups().last().edits@,
            ),
        ensures
            final(self).wf(),
            old(self).history().redo_groups().len() == 0 ==> r is None && final(self).unchanged(*old(self)),
            old(self).history().redo_groups().len() > 0 ==> {
                let o = old(self).history();
                let g = o.redo_groups().last();
                let h = final(self).history();
                &&& r is Some
                &&& r->0 == redo_cursor(g.edits@)
                &&& final(self)@ == apply_all(old(self)@, g.edits@)
                &&& h.redo_groups() == o.redo_groups().drop_last()
                &&& h.undo_groups() == o.undo_groups().push(g)
                &&& h.pending_group() == o.pending_group()
                &&& final(self).touched(*old(self))
            },
    {
        let ghost t0 = self@;
        if let Some(group) = self.undo_stack.pop_redo() {
            let ghost edits = group.edits@;
            let ghost hist = self.history();
            let n = group.edits.len();
            let mut k: usize = 0;
            proof {
                assert(edits.skip(0) =~= edits);
            }
            while k < n
                invariant
                    k <= n,
                    n == edits.len(),
                    edits == group.edits@,
                    self.wf(),
                    self.history() == hist,
                    apply_all(self@, edits.skip(k as int)) == apply_all(t0, edits),
                    apply_all_ok(self@, edits.skip(k as int)),
                    crate::undo::edits_fit(edits),
                    self.modified_flag() == old(self).modified_flag(),
                    self.version_num() == old(self).version_num(),
                    self.same_settings(*old(self)),
                decreases n - k,
            {
                let ghost cur = self@;
                proof {
                    assert(edits.skip(k as int)[0] == edits[k as int]);
                    assert(edits.skip(k as int).drop_first() =~= edits.skip(k + 1));
                    assert(edits[k as int].fits());
                }
                match &group.edits[k] {
                    EditKind::Insert { pos, text } => {
                        proof {
                            lemma_byte_len_splice(cur, *pos as int, *pos as int, text@);
                        }
                        rope_insert(&mut self.rope, *pos, text.as_str());
                    },
                    EditKind::Delete { pos, text } => {
                        proof {
                            crate::strs::lemma_byte_len_ge(text@);
                            lemma_byte_len_splice(cur, *pos as int, *pos + text@.len(), Seq::empty());
                            assert(cur.take(*pos as int) + Seq::<char>::empty() =~= cur.take(*pos as int));
                        }
                        rope_remove(&mut self.rope, *pos, *pos + text.as_str().unicode_len());
                    },
                }
                k = k + 1;
            }
            proof {
                if n > 0 {
                    assert(edits.last() == edits[n - 1]);
                    assert(edits.last().fits());
                }
            }
            let cursor = if n > 0 {
                match &group.edits[n - 1] {
                    EditKind::Insert { pos, text } => *pos + text.as_str().unicode_len(),
                    EditKind::Delete { pos, .. } => *pos,
                }
            } else {
                0
            };
            proof {
                if n > 0 {
                    assert(edits.last().fits());
                    crate::strs::lemma_byte_len_ge(edits.last().chars_of());
                }
                assert(edits.skip(n as int) =~= Seq::<EditKind>::empty());
            }
            self.mark_changed();
            self.undo_stack.push_undo(group);
            Some(cursor)
        } else {
            None
        }
    }

    /// Whether `undo` can run: there is no undo step, or each edit of the
    /// top one, undone last first from the text, stays within the text.
    /// (An edit made outside a pending group is not recorded, so the steps
    /// need not match the text.)
    pub fn undo_ready(&self) -> (r: bool)
        requires
            self.wf(),
        ensures
            r == (self.history().undo_groups().len() > 0 ==> revert_all_ok(
                self@,
                self.history().undo_groups().last().edits@,
            )),
    {
        proof {
            self.undo_stack.lemma_top_fits();
        }
        match self.undo_stack.top_undo() {
            None => true,
            Some(group) => {
                let ghost edits = group.edits@;
                let copy = rope_to_string(&self.rope);
                let mut scratch = rope_from_str(copy.as_str());
                let mut k = group.edits.len();
                proof {
                    assert(edits.take(k as int) =~= edits);
                }
                while k > 0
                    invariant
                        k <= edits.len(),
                        edits == group.edits@,
                        crate::undo::edits_fit(edits),
                        byte_len(rope_text(scratch)) <= usize::MAX,
                        revert_all_ok(self@, edits) == revert_all_ok(rope_text(scratch), edits.take(k as int)),
                        self.history().undo_groups().len() > 0,
                        edits == self.history().undo_groups().last().edits@,
                    decreases k,
                {
                    let ghost cur = rope_text(scratch);
                    proof {
                        assert(edits.take(k as int).last() == edits[k - 1]);
                        assert(edits.take(k as int).drop_last() =~= edits.take(k - 1));
                        assert(edits[k - 1].fits());
                    }
                    let len = rope_len_chars(&scratch);
                    match &group.edits[k - 1] {
                        EditKind::Insert { pos, text } => {
                            let tl = text.as_str().unicode_len();
                            if *pos + tl > len {
                                proof {
                                    assert(!revert_ok(cur, edits[k - 1]));
                                    assert(!revert_all_ok(cur, edits.take(k as int)));
                                }
                                return false;
                            }
                            proof {
                                lemma_byte_len_splice(cur, *pos as int, *pos + tl, Seq::empty());
                                assert(cur.take(*pos as int) + Seq::<char>::empty() =~= cur.take(*pos as int));
                            }
                            rope_remove(&mut scratch, *pos, *pos + tl);
                        },
                        EditKind::Delete { pos, text } => {
                            let whole = rope_to_string(&scratch);
                            let bytes = whole.as_str().as_bytes().len();
                            let tb = text.as_str().as_bytes().len();
                            if *pos > len || tb > usize::MAX - bytes {
                                proof {
                                    assert(!revert_ok(cur, edits[k - 1]));
                                    assert(!revert_all_ok(cur, edits.take(k as int)));
                                }
                                return false;
                            }
                            proof {
                                lemma_byte_len_splice(cur, *pos as int, *pos as int, text@);
                            }
                            rope_insert(&mut scratch, *pos, text.as_str());
                        },
                    }
                    k = k - 1;
                }
                proof {
                    assert(edits.take(0) =~= Seq::<EditKind>::empty());
                }
                true
            },
        }
    }

    /// Whether `redo` can run: there is no redo step, or each edit of the
    /// top one, redone first first from the text, stays within the text.
    pub fn redo_ready(&self) -> (r: bool)
        requires
            self.wf(),
        ensures
            r == (self.history().redo_groups().len() > 0 ==> apply_all_ok(
                self@,
                self.history().redo_groups().last().edits@,
            )),
    {
        proof {
            self.undo_stack.lemma_top_fits();
        }
        match self.undo_stack.top_redo() {
            None => true,
            Some(group) => {
                let ghost edits = group.edits@;
                let copy = rope_to_string(&self.rope);
                let mut scratch = rope_from_str(copy.as_str());
                let n = group.edits.len();
                let mut k: usize = 0;
                proof {
                    assert(edits.skip(0) =~= edits);
                }
                while k < n
                    invariant
                        k <= n,
                        n == edits.len(),
                        edits == group.edits@,
                        crate::undo::edits_fit(edits),
                        byte_len(rope_text(scratch)) <= usize::MAX,
                        apply_all_ok(self@, edits) == apply_all_ok(rope_text(scratch), edits.skip(k as int)),
                        self.history().redo_groups().len() > 0,
                        edits == self.history().redo_groups().last().edits@,
                    decreases n - k,
                {
                    let ghost cur = rope_text(scratch);
                    proof {
                        assert(edits.skip(k as int)[0] == edits[k as int]);
                        assert(edits.skip(k as int).drop_first() =~= edits.skip(k + 1));
                        assert(edits[k as int].fits());
                    }
                    let len = rope_len_chars(&scratch);
                    match &group.edits[k] {
                        EditKind::Insert { pos, text } => {
                            let whole = rope_to_string(&scratch);
                            let bytes = whole.as_str().as_bytes().len();
                            let tb = text.as_str().as_bytes().len();
                            if *pos > len || tb > usize::MAX - bytes {
                                proof {
                                    assert(!apply_ok(cur, edits[k as int]));
                                    assert(!apply_all_ok(cur, edits.skip(k as int)));
                                }
                                return false;
                            }
                            proof {
                                lemma_byte_len_splice(cur, *pos as int, *pos as int, text@);
                            }
                            rope_insert(&mut scratch, *pos, text.as_str());
                        },
                        EditKind::Delete { pos, text } => {
                            let tl = text.as_str().unicode_len();
                            if *pos + tl > len {
                                proof {
                                    assert(!apply_ok(cur, edits[k as int]));
                                    assert(!apply_all_ok(cur, edits.skip(k as int)));
                                }
                                return false;
                            }
                            proof {
                                lemma_byte_len_splice(cur, *pos as int, *pos + tl, Seq::empty());
                                assert(cur.take(*pos as int) + Seq::<char>::empty() =~= cur.take(*pos as int));
                            }
                            rope_remove(&mut scratch, *pos, *pos + tl);
                        },
                    }
                    k = k + 1;
                }
                proof {
                    assert(edits.skip(n as int) =~= Seq::<EditKind>::empty());
                }
                true
            },
        }
    }

    /// The start of the cursor's line.
    pub fn move_to_line_start(&self, cursor: usize) -> (r: usize)
        requires
            self.wf(),
            cursor <= self@.len(),
        ensures
            r == line_start(self@, line_of(self@, cursor as int)),
            r <= cursor,
    {
        let line = rope_char_to_line(&self.rope, cursor);
        proof {
            lemma_line_of_bounds(self@, cursor as int);
        }
        rope_line_to_char(&self.rope, line)
    }

    /// The end of the text of the cursor's line.
    pub fn move_to_line_end(&self, cursor: usize) -> (r: usize)
        requires
            self.wf(),
            cursor <= self@.len(),
        ensures
            ({
                let l = line_of(self@, cursor as int);
                r == line_start(self@, l) + line_len_nn(self@, l)
            }),
            r <= self@.len(),
    {
        proof {
            self.lemma_fits();
        }
        let line = rope_char_to_line(&self.rope, cursor);
        proof {
            lemma_line_of_bounds(self@, cursor as int);
            lemma_line_len_nn_bounds(self@, line as nat);
        }
        rope_line_to_char(&self.rope, line) + self.line_len_no_newline(line)
    }

    /// The start of the text.
    pub fn move_to_start(&self) -> (r: usize)
        requires
            self.wf(),
        ensures
            r == 0,
    {
        0
    }

    /// The end of the text.
    pub fn move_to_end(&self) -> (r: usize)
        requires
            self.wf(),
        ensures
            r == self@.len(),
    {
        rope_len_chars(&self.rope)
    }

    /// The first char of the cursor's line that is not a space or a tab.
    pub fn move_to_first_non_whitespace(&self, cursor: usize) -> (r: usize)
        requires
            self.wf(),
            cursor <= self@.len(),
        ensures
            r == first_non_blank(self@, line_of(self@, cursor as int)),
            r <= self@.len(),
    {
        let line = rope_char_to_line(&self.rope, cursor);
        proof {
            lemma_line_of_bounds(self@, cursor as int);
            lemma_line_len_nn_bounds(self@, line as nat);
            lemma_line_start_bounds(self@, line as nat);
        }
        self.skip_blanks_in_line(line)
    }

    fn blank_at(&self, pos: usize) -> (b: bool)
        requires
            self.wf(),
            pos < self@.len(),
        ensures
            b == is_blank(self@[pos as int]),
    {
        let ch = rope_char(&self.rope, pos);
        ch == ' ' || ch == '\t'
    }

    fn skip_blanks_in_line(&self, line: usize) -> (r: usize)
        requires
            self.wf(),
            line <= nl_count(self@),
        ensures
            r == first_non_blank(self@, line as nat),
            r <= self@.len(),
    {
        proof {
            self.lemma_fits();
        }
        proof {
            lemma_line_len_nn_bounds(self@, line as nat);
            lemma_line_start_bounds(self@, line as nat);
        }
        let ls = rope_line_to_char(&self.rope, line);
        let le = ls + rope_line_len_chars(&self.rope, line);
        let mut pos = ls;
        loop
            invariant
                self.wf(),
                ls <= pos <= le,
                le <= self@.len(),
                ls == line_start(self@, line as nat),
                le == line_start(self@, (line + 1) as nat),
                skip_fwd(self@, pos as int, le as int, blank_pred()) == skip_fwd(
                    self@,
                    ls as int,
                    le as int,
                    blank_pred(),
                ),
            decreases le - pos,
        {
            if pos >= le {
                return pos;
            }
            if !self.blank_at(pos) {
                assert(!blank_pred()(self@[pos as int]));
                return pos;
            }
            pos = pos + 1;
        }
    }
}

} // verus!

verus! {

/// Undo then redo of a buffer (`Buffer::undo`, then `Buffer::redo`): when
/// the edits of the top undo step describe the change from `a` to the
/// buffer's text, undo can run and gives back `a`, moving the step to the
/// redo stack; redo can then run and gives the text back, with both stacks
/// as they were.
pub proof fn law_buffer_undo_redo(b0: Buffer, b1: Buffer, b2: Buffer, a: Seq<char>)
    requires
        b0.wf(),
        b0.history().undo_groups().len() > 0,
        edits_describe(a, b0.history().undo_groups().last().edits@, b0@),
        b1@ == revert_all(b0@, b0.history().undo_groups().last().edits@),
        b1.history().undo_groups() == b0.history().undo_groups().drop_last(),
        b1.history().redo_groups() == b0.history().redo_groups().push(b0.history().undo_groups().last()),
        b2@ == apply_all(b1@, b1.history().redo_groups().last().edits@),
        b2.history().redo_groups() == b1.history().redo_groups().drop_last(),
        b2.history().undo_groups() == b1.history().undo_groups().push(b1.history().redo_groups().last()),
    ensures
        revert_all_ok(b0@, b0.history().undo_groups().last().edits@),
        b1@ == a,
        b1.history().redo_groups().len() > 0,
        apply_all_ok(b1@, b1.history().redo_groups().last().edits@),
        b2@ == b0@,
        b2.history().undo_groups() == b0.history().undo_groups(),
        b2.history().redo_groups() == b0.history().redo_groups(),
{
    let g = b0.history().undo_groups().last();
    crate::undo::law_group_undo_redo(a, g.edits@, b0@);
    assert(b1.history().redo_groups().last() == g);
    assert(b2.history().undo_groups() =~= b0.history().undo_groups());
    assert(b2.history().redo_groups() =~= b0.history().redo_groups());
}

} // verus!

verus! {

/// The positions `quotes_upto` lists lie in `[base, base + n)`, hold `q`,
/// and rise strictly.
proof fn lemma_quotes_sorted(s: Seq<char>, base: int, n: int, q: char)
    ensures
        forall|i: int| 0 <= i < quotes_upto(s, base, n, q).len() ==> base <= #[trigger] quotes_upto(s, base, n, q)[i] < base + n,
        forall|i: int, j: int|
            0 <= i < j < quotes_upto(s, base, n, q).len() ==> quotes_upto(s, base, n, q)[i] < quotes_upto(s, base, n, q)[j],
    decreases n,
{
    if n > 0 {
        lemma_quotes_sorted(s, base, n - 1, q);
        let prev = quotes_upto(s, base, n - 1, q);
        let tail = if s[base + n - 1] == q { seq![base + n - 1] } else { Seq::<int>::empty() };
        let cur = quotes_upto(s, base, n, q);
        assert(cur == prev + tail);
        assert forall|i: int| 0 <= i < cur.len() implies base <= #[trigger] cur[i] < base + n by {
            if i < prev.len() {
                assert(cur[i] == prev[i]);
            } else {
                assert(cur[i] == tail[i - prev.len()]);
            }
        }
        assert forall|i: int, j: int| 0 <= i < j < cur.len() implies cur[i] < cur[j] by {
            if j < prev.len() {
                assert(cur[i] == prev[i] && cur[j] == prev[j]);
            } else {
                assert(cur[i] == prev[i]);
                assert(cur[j] == tail[j - prev.len()]);
            }
        }
    }
}

/// From an even pair index `j` at or before pair `k`, the search lands on
/// pair `k` when `pos` lies within it.
proof fn lemma_pick_pair_reaches(qs: Seq<int>, j: int, k: int, pos: int, around: bool)
    requires
        0 <= j <= 2 * k,
        (2 * k - j) % 2 == 0,
        2 * k + 1 < qs.len(),
        qs[2 * k] <= pos <= qs[2 * k + 1],
        forall|a: int, b: int| 0 <= a < b < qs.len() ==> qs[a] < qs[b],
    ensures
        pick_pair(qs, j, pos, around) == (if around { (qs[2 * k], qs[2 * k + 1] + 1) } else { (qs[2 * k] + 1, qs[2 * k + 1]) }),
    decreases 2 * k - j,
{
    if j < 2 * k {
        assert(j + 1 < 2 * k);
        assert(qs[j + 1] < qs[2 * k]);
        lemma_pick_pair_reaches(qs, j + 2, k, pos, around);
    }
}

/// Quoted text objects pick the pair around the cursor: the quotes of the
/// cursor's line pair up from the left, and when the cursor lies within
/// pair `k` (from its opening quote to its closing one), `i"` gives what is
/// between the two quotes and `a"` the pair with its quotes, whichever pair
/// `k` is.
pub proof fn law_quoted_picks_enclosing_pair(s: Seq<char>, c: int, q: char, k: int)
    requires
        s.len() > 0,
        0 <= k,
        ({
            let pos = if c < s.len() - 1 { c } else { s.len() - 1 };
            let l = line_of(s, pos);
            let ls = line_start(s, l);
            let qs = quotes_upto(s, ls, line_start(s, l + 1) - ls, q);
            2 * k + 1 < qs.len() && qs[2 * k] <= pos <= qs[2 * k + 1]
        }),
    ensures
        ({
            let pos = if c < s.len() - 1 { c } else { s.len() - 1 };
            let l = line_of(s, pos);
            let ls = line_start(s, l);
            let qs = quotes_upto(s, ls, line_start(s, l + 1) - ls, q);
            &&& quoted(s, c, q, false) == (qs[2 * k] + 1, qs[2 * k + 1])
            &&& quoted(s, c, q, true) == (qs[2 * k], qs[2 * k + 1] + 1)
            &&& s[qs[2 * k]] == q && s[qs[2 * k + 1]] == q
        }),
{
    let pos = if c < s.len() - 1 { c } else { s.len() - 1 };
    let l = line_of(s, pos);
    let ls = line_start(s, l);
    let n = line_start(s, l + 1) - ls;
    let qs = quotes_upto(s, ls, n, q);
    lemma_quotes_sorted(s, ls, n, q);
    lemma_quotes_hold(s, ls, n, q);
    lemma_pick_pair_reaches(qs, 0, k, pos, false);
    lemma_pick_pair_reaches(qs, 0, k, pos, true);
}

/// Each position `quotes_upto` lists holds `q`.
proof fn lemma_quotes_hold(s: Seq<char>, base: int, n: int, q: char)
    ensures
        forall|i: int| 0 <= i < quotes_upto(s, base, n, q).len() ==> s[#[trigger] quotes_upto(s, base, n, q)[i]] == q,
    decreases n,
{
    if n > 0 {
        lemma_quotes_hold(s, base, n - 1, q);
        let prev = quotes_upto(s, base, n - 1, q);
        let tail = if s[base + n - 1] == q { seq![base + n - 1] } else { Seq::<int>::empty() };
        let cur = quotes_upto(s, base, n, q);
        assert(cur == prev + tail);
        assert forall|i: int| 0 <= i < cur.len() implies s[#[trigger] cur[i]] == q by {
            if i < prev.len() {
                assert(cur[i] == prev[i]);
            } else {
                assert(cur[i] == tail[i - prev.len()]);
            }
        }
    }
}

} // verus!

verus! {

/// `skip_bwd` from `i` stops at the start of the run of `pred` chars that
/// ends at `i`.
proof fn lemma_skip_bwd_run(s: Seq<char>, i: int, pred: spec_fn(char) -> bool)
    requires
        0 <= i <= s.len(),
    ensures
        0 <= skip_bwd(s, i, pred) <= i,
        forall|k: int| skip_bwd(s, i, pred) <= k < i ==> pred(#[trigger] s[k]),
        skip_bwd(s, i, pred) == 0 || !pred(s[skip_bwd(s, i, pred) - 1]),
    decreases i,
{
    if i > 0 && pred(s[i - 1]) {
        lemma_skip_bwd_run(s, i - 1, pred);
    }
}

/// `s[p..c]` is whitespace and `p` is the start of the text or follows a
/// char that is not whitespace.
pub open spec fn whitespace_gap(s: Seq<char>, p: int, c: int) -> bool {
    &&& 0 <= p <= c <= s.len()
    &&& forall|k: int| p <= k < c ==> is_unicode_whitespace(#[trigger] s[k])
    &&& (p == 0 || !is_unicode_whitespace(s[p - 1]))
}

/// `b` moves back to the start of a word: from `c`, past the whitespace
/// before it, to the start of the run of chars of one class (word chars,
/// alphanumeric or `_`, or else punctuation) that ends there. That run is
/// not empty unless the text before `c` is all whitespace, holds chars of
/// one class only, and is preceded by the start of the text or by a char
/// not of its class.
pub proof fn law_word_backward_one_class(s: Seq<char>, c: int)
    requires
        0 < c <= s.len(),
    ensures
        ({
            let r = word_backward(s, c);
            exists|p: int| {
                &&& #[trigger] whitespace_gap(s, p, c)
                &&& 0 <= r <= p
                &&& (p > 0 ==> r < p)
                &&& (p > 0 && is_word_char(s[p - 1])) ==> (forall|k: int| r <= k < p ==> is_word_char(#[trigger] s[k]))
                    && (r == 0 || !is_word_char(s[r - 1]))
                &&& (p > 0 && !is_word_char(s[p - 1])) ==> (forall|k: int| r <= k < p ==> is_punct(#[trigger] s[k]))
                    && (r == 0 || !is_punct(s[r - 1]))
            }
        }),
{
    let p = skip_bwd(s, c, ws_pred());
    lemma_skip_bwd_run(s, c, ws_pred());
    assert forall|k: int| p <= k < c implies is_unicode_whitespace(#[trigger] s[k]) by {
        assert(ws_pred()(s[k]));
    }
    if p > 0 {
        assert(!ws_pred()(s[p - 1]));
        if is_word_char(s[p - 1]) {
            lemma_skip_bwd_run(s, p, word_pred());
            let r = skip_bwd(s, p, word_pred());
            assert(word_pred()(s[p - 1]));
            assert forall|k: int| r <= k < p implies is_word_char(#[trigger] s[k]) by {
                assert(word_pred()(s[k]));
            }
        } else {
            lemma_skip_bwd_run(s, p, punct_pred());
            let r = skip_bwd(s, p, punct_pred());
            assert(punct_pred()(s[p - 1]));
            assert forall|k: int| r <= k < p implies is_punct(#[trigger] s[k]) by {
                assert(punct_pred()(s[k]));
            }
        }
    }
    assert(0 <= word_backward(s, c) <= p <= c);
    assert(whitespace_gap(s, p, c));
}

} // verus!

verus! {

/// The nesting depth that `x` leaves open: one up for each `open`, one
/// down for each `close`.
pub open spec fn nesting(x: Seq<char>, open: char, close: char) -> int
    decreases x.len(),
{
    if x.len() == 0 {
        0
    } else {
        nesting(x.drop_last(), open, close) + (if x.last() == open {
            1
        } else if x.last() == close {
            -1
        } else {
            0
        })
    }
}

/// `x` is balanced in `open` and `close`: no prefix closes more than it
/// opened, and the whole closes all it opened.
pub open spec fn balanced(x: Seq<char>, open: char, close: char) -> bool {
    &&& nesting(x, open, close) == 0
    &&& forall|m: int| 0 <= m <= x.len() ==> nesting(#[trigger] x.take(m), open, close) >= 0
}

/// The weight of `s[k]` scanning back from `pos`: a `close` (other than at
/// `pos`) opens a nested pair, an `open` closes one.
spec fn back_weight(s: Seq<char>, k: int, pos: int, open: char, close: char) -> int {
    if s[k] == close && k != pos {
        1
    } else if s[k] == open {
        -1
    } else {
        0
    }
}

spec fn back_sum(s: Seq<char>, l: int, r: int, pos: int, open: char, close: char) -> int
    decreases r - l,
{
    if r <= l {
        0
    } else {
        back_sum(s, l, r - 1, pos, open, close) + back_weight(s, r - 1, pos, open, close)
    }
}

spec fn fwd_weight(s: Seq<char>, k: int, open: char, close: char) -> int {
    if s[k] == open {
        1
    } else if s[k] == close {
        -1
    } else {
        0
    }
}

spec fn fwd_sum(s: Seq<char>, l: int, r: int, open: char, close: char) -> int
    decreases r - l,
{
    if r <= l {
        0
    } else {
        fwd_sum(s, l, r - 1, open, close) + fwd_weight(s, r - 1, open, close)
    }
}

proof fn lemma_back_sum_split(s: Seq<char>, l: int, m: int, r: int, pos: int, open: char, close: char)
    requires
        l <= m <= r,
    ensures
        back_sum(s, l, r, pos, open, close) == back_sum(s, l, m, pos, open, close) + back_sum(s, m, r, pos, open, close),
    decreases r - m,
{
    if r > m {
        lemma_back_sum_split(s, l, m, r - 1, pos, open, close);
    }
}

proof fn lemma_fwd_sum_split(s: Seq<char>, l: int, m: int, r: int, open: char, close: char)
    requires
        l <= m <= r,
    ensures
        fwd_sum(s, l, r, open, close) == fwd_sum(s, l, m, open, close) + fwd_sum(s, m, r, open, close),
    decreases r - m,
{
    if r > m {
        lemma_fwd_sum_split(s, l, m, r - 1, open, close);
    }
}

/// Away from `pos`, scanning back weighs each char the opposite way to
/// scanning forward.
proof fn lemma_back_fwd_opposite(s: Seq<char>, l: int, r: int, pos: int, open: char, close: char)
    requires
        open != close,
        !(l <= pos < r),
    ensures
        back_sum(s, l, r, pos, open, close) == -fwd_sum(s, l, r, open, close),
    decreases r - l,
{
    if r > l {
        lemma_back_fwd_opposite(s, l, r - 1, pos, open, close);
    }
}

/// `nesting` of a stretch of `s` is the forward sum over it.
proof fn lemma_nesting_sum(s: Seq<char>, l: int, r: int, open: char, close: char)
    requires
        0 <= l <= r <= s.len(),
    ensures
        nesting(s.subrange(l, r), open, close) == fwd_sum(s, l, r, open, close),
    decreases r - l,
{
    if r > l {
        assert(s.subrange(l, r).drop_last() =~= s.subrange(l, r - 1));
        assert(s.subrange(l, r).last() == s[r - 1]);
        lemma_nesting_sum(s, l, r - 1, open, close);
    } else {
        assert(s.subrange(l, r).len() == 0);
    }
}

proof fn lemma_scan_open(s: Seq<char>, i: int, pos: int, open: char, close: char, depth: int)
    requires
        open != close,
        0 <= i <= pos < s.len(),
        depth >= 0,
    ensures
        scan_open(s, i, pos, open, close, depth) matches Some(op) ==> {
            &&& 0 <= op <= i
            &&& s[op] == open
            &&& depth + back_sum(s, op + 1, i + 1, pos, open, close) == 0
            &&& forall|j: int| op + 1 <= j <= i ==> depth + #[trigger] back_sum(s, j, i + 1, pos, open, close) >= 0
        },
    decreases i,
{
    let ch = s[i];
    if ch == open && !(ch == close && i != pos) && depth == 0 {
    } else {
        let d = if ch == close && i != pos {
            depth + 1
        } else if ch == open {
            depth - 1
        } else {
            depth
        };
        assert(d == depth + back_weight(s, i, pos, open, close));
        if i > 0 {
            lemma_scan_open(s, i - 1, pos, open, close, d);
            match scan_open(s, i, pos, open, close, depth) {
                Some(op) => {
                    assert(back_sum(s, op + 1, i + 1, pos, open, close) == back_sum(s, op + 1, i, pos, open, close) + back_weight(
                        s,
                        i,
                        pos,
                        open,
                        close,
                    ));
                    assert forall|j: int| op + 1 <= j <= i implies depth + #[trigger] back_sum(s, j, i + 1, pos, open, close) >= 0 by {
                        assert(back_sum(s, j, i + 1, pos, open, close) == back_sum(s, j, i, pos, open, close) + back_weight(
                            s,
                            i,
                            pos,
                            open,
                            close,
                        ));
                    }
                },
                None => {},
            }
        }
    }
}

proof fn lemma_scan_close(s: Seq<char>, j: int, open: char, close: char, depth: int)
    requires
        0 <= j,
        depth >= 0,
    ensures
        scan_close(s, j, open, close, depth) matches Some(cp) ==> {
            &&& j <= cp < s.len()
            &&& s[cp] == close && s[cp] != open
            &&& depth + fwd_sum(s, j, cp, open, close) == 0
            &&& forall|m: int| j <= m <= cp ==> depth + #[trigger] fwd_sum(s, j, m, open, close) >= 0
        },
    decreases s.len() - j,
{
    if j < s.len() {
        let ch = s[j];
        if ch != open && ch == close && depth == 0 {
        } else {
            let d = if ch == open {
                depth + 1
            } else if ch == close {
                depth - 1
            } else {
                depth
            };
            assert(d == depth + fwd_weight(s, j, open, close));
            lemma_scan_close(s, j + 1, open, close, d);
            match scan_close(s, j, open, close, depth) {
                Some(cp) => {
                    lemma_fwd_sum_split(s, j, j + 1, cp, open, close);
                    assert(fwd_sum(s, j, j, open, close) == 0);
                    assert(fwd_sum(s, j, j + 1, open, close) == fwd_weight(s, j, open, close));
                    assert forall|m: int| j <= m <= cp implies depth + #[trigger] fwd_sum(s, j, m, open, close) >= 0 by {
                        if m > j {
                            lemma_fwd_sum_split(s, j, j + 1, m, open, close);
                        }
                    }
                },
                None => {},
            }
        }
    }
}

/// Delimited text objects pick the pair around the cursor: unless no pair
/// of `open` and `close` encloses the cursor (both objects are then the
/// empty range at it), `i(` gives the text strictly between an `open` and a
/// `close` that enclose the cursor, that text is balanced (nested pairs
/// inside are skipped, whole), and `a(` gives the same text with the two
/// delimiters.
pub proof fn law_delimited_encloses(s: Seq<char>, c: int, open: char, close: char)
    requires
        s.len() > 0,
        c >= 0,
        open != close,
    ensures
        ({
            let pos = if c < s.len() - 1 { c } else { s.len() - 1 };
            let inner = delimited(s, c, open, close, false);
            let outer = delimited(s, c, open, close, true);
            ||| inner == (pos, pos) && outer == (pos, pos)
            ||| {
                let a = inner.0;
                let b = inner.1;
                &&& 1 <= a <= b < s.len()
                &&& s[a - 1] == open && s[b] == close
                &&& a - 1 <= pos <= b
                &&& balanced(s.subrange(a, b), open, close)
                &&& outer == (a - 1, b + 1)
            }
        }),
{
    let pos = object_pos(s, c);
    lemma_scan_open(s, pos, pos, open, close, 0);
    match scan_open(s, pos, pos, open, close, 0) {
        None => {},
        Some(op) => {
            lemma_scan_close(s, op + 1, open, close, 0);
            match scan_close(s, op + 1, open, close, 0) {
                None => {},
                Some(cp) => {
                    if cp < pos {
                        lemma_back_fwd_opposite(s, op + 1, cp, pos, open, close);
                        lemma_back_sum_split(s, op + 1, cp, pos + 1, pos, open, close);
                        lemma_back_sum_split(s, cp, cp + 1, pos + 1, pos, open, close);
                        assert(back_sum(s, cp, cp, pos, open, close) == 0);
                        assert(back_sum(s, cp, cp + 1, pos, open, close) == back_weight(s, cp, pos, open, close));
                        assert(back_sum(s, cp + 1, pos + 1, pos, open, close) >= 0);
                        assert(false);
                    }
                    let x = s.subrange(op + 1, cp);
                    lemma_nesting_sum(s, op + 1, cp, open, close);
                    assert forall|m: int| 0 <= m <= x.len() implies nesting(#[trigger] x.take(m), open, close) >= 0 by {
                        assert(x.take(m) =~= s.subrange(op + 1, op + 1 + m));
                        lemma_nesting_sum(s, op + 1, op + 1 + m, open, close);
                        assert(0 + fwd_sum(s, op + 1, op + 1 + m, open, close) >= 0);
                    }
                },
            }
        },
    }
}

} // verus!

verus! {

proof fn lemma_pick_pair_none(qs: Seq<int>, j: int, pos: int, around: bool)
    requires
        0 <= j,
        j % 2 == 0,
        forall|k: int| 0 <= k && 2 * k + 1 < qs.len() ==> !(qs[2 * k] <= pos <= #[trigger] qs[2 * k + 1]),
    ensures
        pick_pair(qs, j, pos, around) == (pos, pos),
    decreases qs.len() - j,
{
    if j + 1 < qs.len() {
        let k = j / 2;
        assert(2 * k == j);
        assert(!(qs[2 * k] <= pos <= qs[2 * k + 1]));
        lemma_pick_pair_none(qs, j + 2, pos, around);
    }
}

/// The positions of quote `q` on the line of the cursor `c` (clamped to
/// the text), in order.
pub open spec fn cursor_line_quotes(s: Seq<char>, c: int, q: char) -> Seq<int> {
    let pos = if c < s.len() - 1 { c } else { s.len() - 1 };
    let l = line_of(s, pos);
    let ls = line_start(s, l);
    quotes_upto(s, ls, line_start(s, l + 1) - ls, q)
}

/// When the cursor lies in no pair of quotes of its line (quotes pairing up
/// from the left), both quoted text objects are the empty range at it.
pub proof fn law_quoted_outside_pairs(s: Seq<char>, c: int, q: char)
    requires
        s.len() > 0,
        forall|k: int|
            0 <= k && 2 * k + 1 < cursor_line_quotes(s, c, q).len() ==> (if c < s.len() - 1 { c } else { s.len() - 1 })
                < #[trigger] cursor_line_quotes(s, c, q)[2 * k] || cursor_line_quotes(s, c, q)[2 * k + 1] < (if c
                < s.len() - 1 { c } else { s.len() - 1 }),
    ensures
        ({
            let pos = if c < s.len() - 1 { c } else { s.len() - 1 };
            quoted(s, c, q, false) == (pos, pos) && quoted(s, c, q, true) == (pos, pos)
        }),
{
    let pos = if c < s.len() - 1 { c } else { s.len() - 1 };
    let qs = cursor_line_quotes(s, c, q);
    assert forall|k: int| 0 <= k && 2 * k + 1 < qs.len() implies !(qs[2 * k] <= pos <= #[trigger] qs[2 * k + 1]) by {
        assert(pos < qs[2 * k] || qs[2 * k + 1] < pos);
    }
    lemma_pick_pair_none(qs, 0, pos, false);
    lemma_pick_pair_none(qs, 0, pos, true);
}

} // verus!

verus! {

/// Scanning back reaches an `open` at `o` with nothing left open on the way.
proof fn lemma_scan_open_finds(s: Seq<char>, i: int, pos: int, open: char, close: char, depth: int, o: int)
    requires
        open != close,
        0 <= o <= i <= pos < s.len(),
        s[o] == open,
        depth >= 0,
        depth + back_sum(s, o + 1, i + 1, pos, open, close) <= 0,
    ensures
        scan_open(s, i, pos, open, close, depth) is Some,
    decreases i,
{
    let ch = s[i];
    if i == o {
        assert(back_sum(s, o + 1, o + 1, pos, open, close) == 0);
    } else if ch == open && !(ch == close && i != pos) && depth == 0 {
    } else {
        let d = if ch == close && i != pos {
            depth + 1
        } else if ch == open {
            depth - 1
        } else {
            depth
        };
        assert(d == depth + back_weight(s, i, pos, open, close));
        assert(back_sum(s, o + 1, i + 1, pos, open, close) == back_sum(s, o + 1, i, pos, open, close) + back_weight(
            s,
            i,
            pos,
            open,
            close,
        ));
        lemma_scan_open_finds(s, i - 1, pos, open, close, d, o);
    }
}

/// Scanning forward reaches a `close` at or before `k` when nothing is left
/// open on the way there.
proof fn lemma_scan_close_finds(s: Seq<char>, j: int, open: char, close: char, depth: int, k: int)
    requires
        open != close,
        0 <= j <= k < s.len(),
        s[k] == close,
        depth >= 0,
        depth + fwd_sum(s, j, k, open, close) <= 0,
    ensures
        scan_close(s, j, open, close, depth) matches Some(cp) && cp <= k,
    decreases k - j,
{
    let ch = s[j];
    if j == k {
        assert(fwd_sum(s, j, j, open, close) == 0);
    } else if ch != open && ch == close && depth == 0 {
    } else {
        let d = if ch == open {
            depth + 1
        } else if ch == close {
            depth - 1
        } else {
            depth
        };
        assert(d == depth + fwd_weight(s, j, open, close));
        lemma_fwd_sum_split(s, j, j + 1, k, open, close);
        assert(fwd_sum(s, j, j, open, close) == 0);
        assert(fwd_sum(s, j, j + 1, open, close) == fwd_weight(s, j, open, close));
        lemma_scan_close_finds(s, j + 1, open, close, d, k);
    }
}

/// Delimited text objects find a pair whenever one encloses the cursor:
/// if an `open` at `o` and a `close` at `e` enclose the cursor and the text
/// between them is balanced, `a(` gives a pair within `o..=e` (the
/// innermost one around the cursor), not the empty range.
pub proof fn law_delimited_finds_enclosing(s: Seq<char>, c: int, open: char, close: char, o: int, e: int)
    requires
        open != close,
        c >= 0,
        ({
            let pos = if c < s.len() - 1 { c } else { s.len() - 1 };
            &&& 0 <= o <= pos <= e < s.len()
            &&& s[o] == open && s[e] == close
            &&& balanced(s.subrange(o + 1, e), open, close)
        }),
    ensures
        ({
            let pos = if c < s.len() - 1 { c } else { s.len() - 1 };
            let outer = delimited(s, c, open, close, true);
            let inner = delimited(s, c, open, close, false);
            &&& o <= outer.0 <= pos < outer.1 <= e + 1
            &&& inner == (outer.0 + 1, outer.1 - 1)
        }),
{
    let pos = object_pos(s, c);
    let x = s.subrange(o + 1, e);
    assert(o < e) by {
        if o == e {
            assert(s[o] == open && s[e] == close);
        }
    }
    // Balance gives a non-negative forward sum over every stretch from o + 1.
    assert forall|m: int| o + 1 <= m <= e implies #[trigger] fwd_sum(s, o + 1, m, open, close) >= 0 by {
        assert(x.take(m - o - 1) =~= s.subrange(o + 1, m));
        assert(nesting(x.take(m - o - 1), open, close) >= 0);
        lemma_nesting_sum(s, o + 1, m, open, close);
    }
    lemma_nesting_sum(s, o + 1, e, open, close);
    assert(fwd_sum(s, o + 1, e, open, close) == 0);
    // Scanning back from the cursor finds an open at or after o.
    if pos > o {
        lemma_back_sum_split(s, o + 1, pos, pos + 1, pos, open, close);
        lemma_back_fwd_opposite(s, o + 1, pos, pos, open, close);
        assert(back_sum(s, pos, pos, pos, open, close) == 0);
        assert(back_sum(s, pos, pos + 1, pos, open, close) == back_weight(s, pos, pos, open, close));
        assert(fwd_sum(s, o + 1, pos, open, close) >= 0);
    } else {
        assert(back_sum(s, o + 1, pos + 1, pos, open, close) == 0);
    }
    lemma_scan_open_finds(s, pos, pos, open, close, 0, o);
    lemma_scan_open(s, pos, pos, open, close, 0);
    let op = scan_open(s, pos, pos, open, close, 0)->0;
    if op < o {
        lemma_back_sum_split(s, o, o + 1, pos + 1, pos, open, close);
        assert(back_sum(s, o, o, pos, open, close) == 0);
        assert(back_sum(s, o, o + 1, pos, open, close) == back_weight(s, o, pos, open, close));
        assert(back_sum(s, o, pos + 1, pos, open, close) >= 0);
        if pos > o {
            lemma_back_sum_split(s, o + 1, pos, pos + 1, pos, open, close);
            lemma_back_fwd_opposite(s, o + 1, pos, pos, open, close);
            assert(back_sum(s, pos, pos, pos, open, close) == 0);
            assert(back_sum(s, pos, pos + 1, pos, open, close) == back_weight(s, pos, pos, open, close));
        } else {
            assert(back_sum(s, o + 1, pos + 1, pos, open, close) == 0);
        }
        assert(false);
    }
    // Scanning forward from just after it finds a close at or before e.
    assert(op != e);
    lemma_fwd_sum_split(s, o + 1, op + 1, e, open, close);
    lemma_scan_close_finds(s, op + 1, open, close, 0, e);
    lemma_scan_close(s, op + 1, open, close, 0);
    let cp = scan_close(s, op + 1, open, close, 0)->0;
    if cp < pos {
        lemma_back_fwd_opposite(s, op + 1, cp, pos, open, close);
        lemma_back_sum_split(s, op + 1, cp, pos + 1, pos, open, close);
        lemma_back_sum_split(s, cp, cp + 1, pos + 1, pos, open, close);
        assert(back_sum(s, cp, cp, pos, open, close) == 0);
        assert(back_sum(s, cp, cp + 1, pos, open, close) == back_weight(s, cp, pos, open, close));
        assert(back_sum(s, cp + 1, pos + 1, pos, open, close) >= 0);
        assert(false);
    }
}

} // verus!

verus! {

/// `skip_fwd` from `i` stops at the end of the run of `pred` chars that
/// starts at `i`.
proof fn lemma_skip_fwd_run(s: Seq<char>, i: int, end: int, pred: spec_fn(char) -> bool)
    requires
        0 <= i <= end <= s.len(),
    ensures
        i <= skip_fwd(s, i, end, pred) <= end,
        forall|k: int| i <= k < skip_fwd(s, i, end, pred) ==> pred(#[trigger] s[k]),
        skip_fwd(s, i, end, pred) == end || !pred(s[skip_fwd(s, i, end, pred)]),
    decreases end - i,
{
    if i < end && pred(s[i]) {
        lemma_skip_fwd_run(s, i + 1, end, pred);
    }
}

/// `s[c..p]` is a run of chars of the class of `s[c]` (word chars,
/// alphanumeric or `_`; else whitespace; else punctuation) that ends at the
/// end of the text or before a char not of that class.
pub open spec fn class_run(s: Seq<char>, c: int, p: int) -> bool {
    let cls = |x: char|
        if is_word_char(s[c]) {
            is_word_char(x)
        } else if is_unicode_whitespace(s[c]) {
            is_unicode_whitespace(x)
        } else {
            is_punct(x)
        };
    &&& 0 <= c < p <= s.len()
    &&& forall|k: int| c <= k < p ==> cls(#[trigger] s[k])
    &&& (p == s.len() || !cls(s[p]))
}

/// `w` moves to the start of the next word: from `c` inside the text, past
/// the run of chars of the class of the char at `c`, then past the
/// whitespace after it, to the first char that is not whitespace (or the
/// end of the text).
pub proof fn law_word_forward_next_start(s: Seq<char>, c: int)
    requires
        0 <= c < s.len(),
    ensures
        exists|p: int| {
            &&& #[trigger] class_run(s, c, p)
            &&& p <= word_forward(s, c) <= s.len()
            &&& forall|k: int| p <= k < word_forward(s, c) ==> is_unicode_whitespace(#[trigger] s[k])
            &&& (word_forward(s, c) == s.len() || !is_unicode_whitespace(s[word_forward(s, c)]))
        },
{
    let len = s.len() as int;
    let ch = s[c];
    let pred = if is_word_char(ch) {
        word_pred()
    } else if is_unicode_whitespace(ch) {
        ws_pred()
    } else {
        punct_pred()
    };
    let cls = |x: char|
        if is_word_char(s[c]) {
            is_word_char(x)
        } else if is_unicode_whitespace(s[c]) {
            is_unicode_whitespace(x)
        } else {
            is_punct(x)
        };
    let p = skip_fwd(s, c, len, pred);
    lemma_skip_fwd_run(s, c, len, pred);
    assert(pred(ch));
    assert forall|k: int| c <= k < p implies cls(#[trigger] s[k]) by {
        assert(pred(s[k]));
    }
    if p < len {
        assert(!pred(s[p]));
    }
    assert(class_run(s, c, p));
    let r = skip_fwd(s, p, len, ws_pred());
    lemma_skip_fwd_run(s, p, len, ws_pred());
    assert(r == word_forward(s, c));
    assert forall|k: int| p <= k < word_forward(s, c) implies is_unicode_whitespace(#[trigger] s[k]) by {
        assert(ws_pred()(s[k]));
    }
    if r < len {
        assert(!ws_pred()(s[r]));
    }
}

} // verus!

verus! {

proof fn lemma_skip_fwd_ahead_run(s: Seq<char>, i: int, end: int, pred: spec_fn(char) -> bool)
    requires
        0 <= i <= end <= s.len(),
    ensures
        i <= skip_fwd_ahead(s, i, end, pred),
        i < end ==> skip_fwd_ahead(s, i, end, pred) < end,
        i == end ==> skip_fwd_ahead(s, i, end, pred) == i,
        forall|k: int| i < k <= skip_fwd_ahead(s, i, end, pred) ==> pred(#[trigger] s[k]),
        skip_fwd_ahead(s, i, end, pred) + 1 >= end || !pred(s[skip_fwd_ahead(s, i, end, pred) + 1]),
    decreases end - i,
{
    if i + 1 < end && pred(s[i + 1]) {
        lemma_skip_fwd_ahead_run(s, i + 1, end, pred);
    }
}

/// `s[a..p]` is whitespace and ends at the end of the text or before a
/// char that is not whitespace.
pub open spec fn whitespace_run(s: Seq<char>, a: int, p: int) -> bool {
    &&& 0 <= a <= p <= s.len()
    &&& forall|k: int| a <= k < p ==> is_unicode_whitespace(#[trigger] s[k])
    &&& (p == s.len() || !is_unicode_whitespace(s[p]))
}

/// `e` moves to the end of a word: from `c`, past the whitespace after it,
/// to the last char of the run of non-whitespace chars that follows (or to
/// the end of the text when only whitespace follows); it always moves
/// forward unless `c` is on the last char.
pub proof fn law_word_end_run_end(s: Seq<char>, c: int)
    requires
        0 <= c,
        c + 1 < s.len(),
    ensures
        exists|p: int| {
            &&& #[trigger] whitespace_run(s, c + 1, p)
            &&& p == s.len() ==> word_end(s, c) == s.len()
            &&& p < s.len() ==> {
                &&& p <= word_end(s, c) < s.len()
                &&& forall|k: int| p <= k <= word_end(s, c) ==> !is_unicode_whitespace(#[trigger] s[k])
                &&& (word_end(s, c) + 1 == s.len() || is_unicode_whitespace(s[word_end(s, c) + 1]))
            }
        },
{
    let len = s.len() as int;
    let p = skip_fwd(s, c + 1, len, ws_pred());
    lemma_skip_fwd_run(s, c + 1, len, ws_pred());
    assert forall|k: int| c + 1 <= k < p implies is_unicode_whitespace(#[trigger] s[k]) by {
        assert(ws_pred()(s[k]));
    }
    if p < len {
        assert(!ws_pred()(s[p]));
        let r = skip_fwd_ahead(s, p, len, non_ws_pred());
        lemma_skip_fwd_ahead_run(s, p, len, non_ws_pred());
        assert forall|k: int| p <= k <= r implies !is_unicode_whitespace(#[trigger] s[k]) by {
            if k > p {
                assert(non_ws_pred()(s[k]));
            }
        }
        if r + 1 < len {
            assert(!non_ws_pred()(s[r + 1]));
        }
    } else {
        lemma_skip_fwd_ahead_run(s, p, len, non_ws_pred());
    }
    assert(whitespace_run(s, c + 1, p));
}

} // verus!
